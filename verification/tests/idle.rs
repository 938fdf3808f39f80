use blent_host::idle::{
    lease_action, owns_request, EncodedTiming, LeaseAction, LeaseError, RenderAck, Timings,
    MAX_TIMINGS,
};

fn frame(sequence: u32, pts_us: Option<i64>) -> EncodedTiming {
    EncodedTiming {
        sequence,
        pts_us,
        ready_us: u64::from(sequence) * 10,
        keyframe: sequence % 2 == 0,
    }
}

fn ack(ordinal: u64, sequence: u32) -> RenderAck {
    RenderAck {
        ordinal,
        sequence,
        at_us: u64::from(sequence) * 10 + 5,
    }
}

#[test]
fn history_is_bounded_and_take_forgets_older_pictures() {
    let mut timings = Timings::new();
    for seq in 0..300 {
        timings.note(frame(seq, Some(i64::from(seq))));
    }
    assert_eq!(timings.len(), MAX_TIMINGS);
    assert!(timings.take(0).is_none(), "the oldest pictures were forgotten");
    assert_eq!(timings.len(), MAX_TIMINGS);
    assert_eq!(timings.take(298).unwrap().sequence, 298);
    assert_eq!(timings.len(), 1);
    assert_eq!(timings.take(299).unwrap().pts_us, Some(299));
    assert_eq!(timings.len(), 0);
}

#[test]
fn acknowledgements_become_samples_in_order() {
    let mut timings = Timings::new();
    for seq in 10..14 {
        timings.note(frame(seq, Some(i64::from(seq) * 1000)));
    }
    let consumed = timings.consume(&[ack(4, 11), ack(5, 13)], 3);
    assert!(!consumed.rejected);
    assert_eq!(consumed.ordinal, 5);
    assert_eq!(consumed.samples.len(), 2);
    let first = consumed.samples[0];
    assert_eq!(
        (first.sequence, first.pts_us, first.ready_us, first.ack_us, first.keyframe),
        (11, 11_000, 110, 115, false)
    );
    assert_eq!(consumed.samples[1].sequence, 13);
    assert_eq!(timings.len(), 0, "matched pictures and older ones are forgotten");
}

#[test]
fn late_join_missing_timestamps_and_gaps_fail_closed() {
    // A picture without a timestamp rejects the trial.
    let mut timings = Timings::new();
    timings.note(frame(300, None));
    let consumed = timings.consume(&[ack(1, 300)], 0);
    assert!(consumed.rejected);
    assert!(consumed.samples.is_empty());
    assert_eq!(consumed.ordinal, 1);
    // An acknowledgement for a picture no longer remembered rejects it.
    let mut timings = Timings::new();
    timings.note(frame(7, Some(7)));
    let consumed = timings.consume(&[ack(1, 7), ack(2, 3)], 0);
    assert!(consumed.rejected);
    assert_eq!(consumed.samples.len(), 1);
    assert_eq!(consumed.ordinal, 2);
    // A gap in the acknowledgements rejects it before anything is matched.
    let mut timings = Timings::new();
    timings.note(frame(8, Some(8)));
    let consumed = timings.consume(&[ack(3, 8)], 1);
    assert!(consumed.rejected);
    assert_eq!(consumed.ordinal, 1);
    assert_eq!(timings.len(), 1);
}

#[test]
fn lease_requests_are_owned_and_expiring() {
    assert_eq!(lease_action(1, 2, 3, false, 200, 10, 0), Ok(LeaseAction::Withdraw));
    assert_eq!(lease_action(1, 2, 3, true, 200, 10, 0), Ok(LeaseAction::Withdraw));
    assert_eq!(lease_action(1, 2, 3, true, 500, 10, 0), Err(LeaseError::Retired));
    assert_eq!(lease_action(1, 2, 3, false, 1, 10, 0), Err(LeaseError::UnsupportedCadence));
    let Ok(LeaseAction::Publish(line)) = lease_action(64769, 1234, 99, false, 500, 42, 250_000_000)
    else {
        panic!("sparse cadence is published");
    };
    assert_eq!(line, "64769 1234 99 43750 500\n");
    let fields: Vec<u64> = line.split_whitespace().map(|f| f.parse().unwrap()).collect();
    assert_eq!(&fields[..3], &[64769, 1234, 99]);
    assert_eq!(fields[4], 500);
    assert!(owns_request(&line, 64769, 1234, 99));
    assert!(!owns_request(&line, 64769, 1234, 9));
    assert!(!owns_request("xxxx", 64769, 1234, 99));
}
