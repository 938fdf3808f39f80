//! Adaptive idle on the host side: the timing history of encoded pictures,
//! matched against the tablet's render acknowledgements to give the cadence
//! policy its samples, and the lease file through which the helper is asked
//! for a sparser capture cadence. Times are microseconds (milliseconds for
//! the lease) on the caller's monotonic clock.
use vstd::prelude::*;
use crate::number::{decimal, push_decimal};
use crate::text::has_prefix;

verus! {

/// Most encoded pictures whose timing is remembered.
pub const MAX_TIMINGS: usize = 256;
/// The helper's normal capture interval: asking for it withdraws the lease.
pub const COMPATIBLE_MS: u32 = 200;
/// The one sparse interval the helper accepts.
pub const SPARSE_MS: u32 = 500;
/// How long a published request stays valid without renewal.
pub const LEASE_MS: u64 = 1500;

/// When an encoded picture was ready, and what it was.
#[derive(Clone, Copy, Debug, PartialEq, Eq, Structural)]
pub struct EncodedTiming {
    pub sequence: u32,
    pub pts_us: Option<i64>,
    pub ready_us: u64,
    pub keyframe: bool,
}

/// The tablet's acknowledgement that it rendered a picture.
#[derive(Clone, Copy, Debug, PartialEq, Eq, Structural)]
pub struct RenderAck {
    /// Position in the stream of acknowledgements, counting from one.
    pub ordinal: u64,
    pub sequence: u32,
    pub at_us: u64,
}

/// One measured picture, as the cadence policy observes it.
#[derive(Clone, Copy, Debug, PartialEq, Eq, Structural)]
pub struct Sample {
    pub sequence: u32,
    pub pts_us: i64,
    pub ready_us: u64,
    pub ack_us: u64,
    pub keyframe: bool,
}

/// The remembered timings, oldest first, at most `MAX_TIMINGS` of them.
pub struct Timings {
    frames: Vec<EncodedTiming>,
}

impl View for Timings {
    type V = Seq<EncodedTiming>;

    closed spec fn view(&self) -> Seq<EncodedTiming> {
        self.frames@
    }
}

/// The history after one more picture: the oldest is forgotten once the
/// bound is exceeded.
pub open spec fn noted(frames: Seq<EncodedTiming>, e: EncodedTiming) -> Seq<EncodedTiming> {
    if frames.len() + 1 > MAX_TIMINGS {
        frames.push(e).drop_first()
    } else {
        frames.push(e)
    }
}

/// The first remembered picture with this sequence number.
pub open spec fn position_of(frames: Seq<EncodedTiming>, sequence: u32) -> Option<int> {
    if exists|i: int| 0 <= i < frames.len() && frames[i].sequence == sequence {
        Some(
            choose|i: int|
                0 <= i < frames.len() && frames[i].sequence == sequence && forall|j: int|
                    0 <= j < i ==> frames[j].sequence != sequence,
        )
    } else {
        None
    }
}

/// Taking a picture's timing forgets it and everything older; a sequence
/// number that is not remembered changes nothing.
pub open spec fn take_spec(frames: Seq<EncodedTiming>, sequence: u32) -> (Seq<EncodedTiming>, Option<EncodedTiming>) {
    match position_of(frames, sequence) {
        Some(i) => (frames.subrange(i + 1, frames.len() as int), Some(frames[i])),
        None => (frames, None),
    }
}

/// Matching acknowledgements against the history, in order: each must come
/// right after the last one matched, and must name a remembered picture with
/// a timestamp; the first that does not rejects the trial and ends the
/// matching. The result is the history and the last ordinal afterwards, the
/// samples in order, and whether the trial was rejected.
pub open spec fn consume_spec(frames: Seq<EncodedTiming>, acks: Seq<RenderAck>, ordinal: u64) -> (
    Seq<EncodedTiming>,
    u64,
    Seq<Sample>,
    bool,
)
    decreases acks.len(),
{
    if acks.len() == 0 {
        (frames, ordinal, Seq::empty(), false)
    } else {
        let ack = acks[0];
        if ack.ordinal != ordinal + 1 {
            (frames, ordinal, Seq::empty(), true)
        } else {
            let (rest, taken) = take_spec(frames, ack.sequence);
            match taken {
                Some(e) => match e.pts_us {
                    Some(pts) => {
                        let sample = Sample {
                            sequence: e.sequence,
                            pts_us: pts,
                            ready_us: e.ready_us,
                            ack_us: ack.at_us,
                            keyframe: e.keyframe,
                        };
                        let after = consume_spec(rest, acks.drop_first(), ack.ordinal);
                        (after.0, after.1, seq![sample] + after.2, after.3)
                    },
                    None => (rest, ack.ordinal, Seq::empty(), true),
                },
                None => (rest, ack.ordinal, Seq::empty(), true),
            }
        }
    }
}

/// What matching a batch of acknowledgements gave.
pub struct Consumed {
    /// The ordinal of the last acknowledgement matched.
    pub ordinal: u64,
    /// The measured pictures, for the policy to observe in order.
    pub samples: Vec<Sample>,
    /// Whether the policy must reject the trial after observing them.
    pub rejected: bool,
}

impl Timings {
    pub open spec fn wf(&self) -> bool {
        self@.len() <= MAX_TIMINGS
    }

    pub fn new() -> (r: Timings)
        ensures
            r.wf(),
            r@ == Seq::<EncodedTiming>::empty(),
    {
        Timings { frames: Vec::new() }
    }

    /// How many pictures are remembered.
    pub fn len(&self) -> (r: usize)
        ensures
            r == self@.len(),
    {
        self.frames.len()
    }

    /// Remember an encoded picture, forgetting the oldest beyond the bound.
    pub fn note(&mut self, e: EncodedTiming)
        requires
            old(self).wf(),
        ensures
            final(self).wf(),
            final(self)@ == noted(old(self)@, e),
    {
        self.frames.push(e);
        if self.frames.len() > MAX_TIMINGS {
            self.frames.remove(0);
        }
    }

    /// The timing of the picture with this sequence number, forgetting it and
    /// everything older.
    pub fn take(&mut self, sequence: u32) -> (r: Option<EncodedTiming>)
        requires
            old(self).wf(),
        ensures
            final(self).wf(),
            (final(self)@, r) == take_spec(old(self)@, sequence),
    {
        let ghost f = self.frames@;
        let mut i: usize = 0;
        while i < self.frames.len()
            invariant
                self.frames@ == f,
                f == old(self)@,
                f.len() <= MAX_TIMINGS,
                i <= f.len(),
                forall|j: int| 0 <= j < i ==> f[j].sequence != sequence,
            decreases f.len() - i,
        {
            if self.frames[i].sequence == sequence {
                proof {
                    let w = choose|k: int|
                        0 <= k < f.len() && f[k].sequence == sequence && forall|j: int|
                            0 <= j < k ==> f[j].sequence != sequence;
                    if w < i {
                        assert(f[w].sequence != sequence);
                    }
                    if w > i {
                        assert(f[i as int].sequence != sequence);
                    }
                    assert(position_of(f, sequence) == Some(i as int));
                }
                let e = self.frames[i];
                let mut rest: Vec<EncodedTiming> = Vec::new();
                let mut k: usize = i + 1;
                while k < self.frames.len()
                    invariant
                        self.frames@ == f,
                        f == old(self)@,
                        f.len() <= MAX_TIMINGS,
                        i < k <= f.len(),
                        e == f[i as int],
                        position_of(f, sequence) == Some(i as int),
                        rest@ == f.subrange(i + 1, k as int),
                    decreases f.len() - k,
                {
                    rest.push(self.frames[k]);
                    k = k + 1;
                }
                self.frames = rest;
                return Some(e);
            }
            i = i + 1;
        }
        assert(position_of(f, sequence) is None);
        None
    }

    /// Match the acknowledgements that follow `ordinal` against the history.
    pub fn consume(&mut self, acks: &[RenderAck], ordinal: u64) -> (r: Consumed)
        requires
            old(self).wf(),
        ensures
            final(self).wf(),
            ({
                let c = consume_spec(old(self)@, acks@, ordinal);
                &&& final(self)@ == c.0
                &&& r.ordinal == c.1
                &&& r.samples@ == c.2
                &&& r.rejected == c.3
            }),
    {
        let ghost total = consume_spec(self@, acks@, ordinal);
        let mut samples: Vec<Sample> = Vec::new();
        let mut current = ordinal;
        let mut i: usize = 0;
        assert(acks@.subrange(0, acks@.len() as int) == acks@);
        while i < acks.len()
            invariant
                self.wf(),
                total == consume_spec(old(self)@, acks@, ordinal),
                i <= acks@.len(),
                ({
                    let c = consume_spec(self@, acks@.subrange(i as int, acks@.len() as int), current);
                    &&& total.0 == c.0
                    &&& total.1 == c.1
                    &&& total.2 == samples@ + c.2
                    &&& total.3 == c.3
                }),
            decreases acks@.len() - i,
        {
            let ghost rest_acks = acks@.subrange(i as int, acks@.len() as int);
            assert(rest_acks[0] == acks@[i as int]);
            assert(rest_acks.drop_first() == acks@.subrange(i + 1, acks@.len() as int));
            let ack = acks[i];
            let ghost previous = current;
            if current == u64::MAX || ack.ordinal != current + 1 {
                assert(consume_spec(self@, rest_acks, current) == (
                    self@,
                    current,
                    Seq::<Sample>::empty(),
                    true,
                ));
                assert(samples@ + Seq::<Sample>::empty() == samples@);
                return Consumed { ordinal: current, samples, rejected: true };
            }
            current = ack.ordinal;
            let ghost before_take = self@;
            match self.take(ack.sequence) {
                Some(e) => match e.pts_us {
                    Some(pts) => {
                        let sample = Sample {
                            sequence: e.sequence,
                            pts_us: pts,
                            ready_us: e.ready_us,
                            ack_us: ack.at_us,
                            keyframe: e.keyframe,
                        };
                        let ghost before = samples@;
                        samples.push(sample);
                        proof {
                            let c = consume_spec(self@, acks@.subrange(i + 1, acks@.len() as int), current);
                            assert(samples@ + c.2 == before + (seq![sample] + c.2));
                        }
                    },
                    None => {
                        assert(consume_spec(before_take, rest_acks, previous) == (
                            self@,
                            current,
                            Seq::<Sample>::empty(),
                            true,
                        ));
                        assert(samples@ + Seq::<Sample>::empty() == samples@);
                        return Consumed { ordinal: current, samples, rejected: true };
                    },
                },
                None => {
                    assert(samples@ + Seq::<Sample>::empty() == samples@);
                    return Consumed { ordinal: current, samples, rejected: true };
                },
            }
            i = i + 1;
        }
        assert(acks@.subrange(i as int, acks@.len() as int) == Seq::<RenderAck>::empty());
        assert(samples@ + Seq::<Sample>::empty() == samples@);
        Consumed { ordinal: current, samples, rejected: false }
    }
}

/// Why a sparse cadence request was not published.
#[derive(Clone, Copy, Debug, PartialEq, Eq, Structural)]
pub enum LeaseError {
    /// The stream this lease belonged to has ended.
    Retired,
    /// The helper only knows the compatible and the one sparse interval.
    UnsupportedCadence,
}

/// What to do with the lease file for a requested capture interval.
#[derive(Clone, Debug, PartialEq, Eq)]
pub enum LeaseAction {
    /// Remove this lease's request, if it is still the one on disk.
    Withdraw,
    /// Replace the file with this request line.
    Publish(String),
}

/// Who holds a request: the FIFO inode's device and number and the lease's
/// token, each followed by a space.
pub open spec fn owner_prefix(device: u64, inode: u64, token: u64) -> Seq<char> {
    decimal(device as nat) + " "@ + decimal(inode as nat) + " "@ + decimal(token as nat) + " "@
}

/// The request line: owner, expiry in milliseconds on the monotonic clock,
/// and the interval.
pub open spec fn request_line(device: u64, inode: u64, token: u64, expires_ms: nat, interval: u32) -> Seq<char> {
    owner_prefix(device, inode, token) + decimal(expires_ms) + " "@ + decimal(interval as nat)
        + "\n"@
}

/// A request stays valid for `LEASE_MS` after the clock reading it was made
/// at.
pub open spec fn expiry_ms(clock_sec: u64, clock_nsec: u64) -> nat {
    (clock_sec * 1000 + clock_nsec / 1_000_000 + LEASE_MS) as nat
}

fn push_owner(out: &mut Vec<char>, device: u64, inode: u64, token: u64)
    ensures
        final(out)@ == old(out)@ + owner_prefix(device, inode, token),
{
    let ghost start = out@;
    push_decimal(out, device);
    out.push(' ');
    push_decimal(out, inode);
    out.push(' ');
    push_decimal(out, token);
    out.push(' ');
    proof {
        reveal_strlit(" ");
    }
    assert(out@ == start + owner_prefix(device, inode, token));
}

/// The lease file's fate for a requested capture interval: the compatible
/// interval withdraws the request; otherwise a retired lease publishes
/// nothing, nor does any interval but the sparse one; the sparse interval is
/// published with its expiry, from the monotonic clock reading
/// `clock_sec`.`clock_nsec`.
pub fn lease_action(
    device: u64,
    inode: u64,
    token: u64,
    retired: bool,
    interval: u32,
    clock_sec: u64,
    clock_nsec: u64,
) -> (r: Result<LeaseAction, LeaseError>)
    requires
        interval == SPARSE_MS && !retired ==> expiry_ms(clock_sec, clock_nsec) <= u64::MAX,
    ensures
        interval == COMPATIBLE_MS ==> r == Ok::<LeaseAction, LeaseError>(LeaseAction::Withdraw),
        interval != COMPATIBLE_MS && retired ==> r == Err::<LeaseAction, LeaseError>(
            LeaseError::Retired,
        ),
        interval != COMPATIBLE_MS && !retired && interval != SPARSE_MS ==> r == Err::<
            LeaseAction,
            LeaseError,
        >(LeaseError::UnsupportedCadence),
        interval == SPARSE_MS && !retired ==> (r matches Ok(LeaseAction::Publish(line)) && line@
            == request_line(device, inode, token, expiry_ms(clock_sec, clock_nsec), interval)),
{
    if interval == COMPATIBLE_MS {
        return Ok(LeaseAction::Withdraw);
    }
    if retired {
        return Err(LeaseError::Retired);
    }
    if interval != SPARSE_MS {
        return Err(LeaseError::UnsupportedCadence);
    }
    let expires = clock_sec * 1000 + clock_nsec / 1_000_000 + LEASE_MS;
    let mut line: Vec<char> = Vec::new();
    push_owner(&mut line, device, inode, token);
    push_decimal(&mut line, expires);
    line.push(' ');
    push_decimal(&mut line, interval as u64);
    line.push('\n');
    proof {
        reveal_strlit(" ");
        reveal_strlit("\n");
    }
    assert(line@ == request_line(device, inode, token, expiry_ms(clock_sec, clock_nsec), interval));
    Ok(LeaseAction::Publish(crate::report::chars_to_string(line.as_slice())))
}

/// Whether the request on disk is this lease's own, so that withdrawing it
/// never removes another stream's request.
pub fn owns_request(contents: &str, device: u64, inode: u64, token: u64) -> (r: bool)
    ensures
        r == has_prefix(contents@, owner_prefix(device, inode, token)),
{
    let mut prefix: Vec<char> = Vec::new();
    push_owner(&mut prefix, device, inode, token);
    assert(prefix@ == owner_prefix(device, inode, token));
    let text = crate::text::chars_of(contents);
    crate::text::starts_with(text.as_slice(), prefix.as_slice())
}

/// Matching law: the samples pair one to one with the leading
/// acknowledgements, in order, each carrying its acknowledgement's picture
/// and time; every acknowledgement yields a sample unless the trial is
/// rejected, and the ordinal is that of the last acknowledgement examined.
pub proof fn lemma_samples_follow_acks(frames: Seq<EncodedTiming>, acks: Seq<RenderAck>, ordinal: u64)
    ensures
        consume_spec(frames, acks, ordinal).2.len() <= acks.len(),
        forall|k: int|
            0 <= k < consume_spec(frames, acks, ordinal).2.len() ==> (#[trigger] consume_spec(
                frames,
                acks,
                ordinal,
            ).2[k]).sequence == acks[k].sequence && consume_spec(frames, acks, ordinal).2[k].ack_us
                == acks[k].at_us,
        !consume_spec(frames, acks, ordinal).3 ==> consume_spec(frames, acks, ordinal).2.len()
            == acks.len(),
        (consume_spec(frames, acks, ordinal).2.len() > 0 && !consume_spec(frames, acks, ordinal).3)
            ==> consume_spec(frames, acks, ordinal).1 == acks[consume_spec(
            frames,
            acks,
            ordinal,
        ).2.len() - 1].ordinal,
    decreases acks.len(),
{
    let c = consume_spec(frames, acks, ordinal);
    if acks.len() > 0 && acks[0].ordinal == ordinal + 1 {
        let t = take_spec(frames, acks[0].sequence);
        lemma_take_matches(frames, acks[0].sequence);
        if t.1 is Some && t.1.unwrap().pts_us is Some {
            let e = t.1.unwrap();
            let tail = acks.drop_first();
            lemma_samples_follow_acks(t.0, tail, acks[0].ordinal);
            let after = consume_spec(t.0, tail, acks[0].ordinal);
            let sample = Sample {
                sequence: e.sequence,
                pts_us: e.pts_us.unwrap(),
                ready_us: e.ready_us,
                ack_us: acks[0].at_us,
                keyframe: e.keyframe,
            };
            assert(c.2 == seq![sample] + after.2);
            assert(c.1 == after.1);
            assert(c.3 == after.3);
            assert forall|k: int| 0 <= k < c.2.len() implies (#[trigger] c.2[k]).sequence
                == acks[k].sequence && c.2[k].ack_us == acks[k].at_us by {
                if k > 0 {
                    assert(c.2[k] == after.2[k - 1]);
                    assert(tail[k - 1] == acks[k]);
                }
            }
            if after.2.len() > 0 && !after.3 {
                assert(tail[after.2.len() - 1] == acks[c.2.len() - 1]);
            }
        }
    }
}

proof fn lemma_take_matches(frames: Seq<EncodedTiming>, sequence: u32)
    ensures
        take_spec(frames, sequence).1 matches Some(e) ==> e.sequence == sequence,
{
    lemma_position_of(frames, sequence);
}

proof fn lemma_first_match(frames: Seq<EncodedTiming>, sequence: u32, i: int)
    requires
        0 <= i < frames.len(),
        frames[i].sequence == sequence,
    ensures
        exists|m: int|
            0 <= m < frames.len() && frames[m].sequence == sequence && forall|j: int|
                0 <= j < m ==> frames[j].sequence != sequence,
    decreases i,
{
    if exists|j: int| 0 <= j < i && frames[j].sequence == sequence {
        let j = choose|j: int| 0 <= j < i && frames[j].sequence == sequence;
        lemma_first_match(frames, sequence, j);
    } else {
        assert(forall|j: int| 0 <= j < i ==> frames[j].sequence != sequence);
    }
}

proof fn lemma_position_of(frames: Seq<EncodedTiming>, sequence: u32)
    ensures
        position_of(frames, sequence) matches Some(i) ==> 0 <= i < frames.len()
            && frames[i].sequence == sequence,
{
    if exists|i: int| 0 <= i < frames.len() && frames[i].sequence == sequence {
        let i = choose|i: int| 0 <= i < frames.len() && frames[i].sequence == sequence;
        lemma_first_match(frames, sequence, i);
    }
}

/// A sample measures this picture: same sequence number, its timestamp,
/// when it was ready, and whether it was a key frame.
pub open spec fn measures(sample: Sample, frame: EncodedTiming) -> bool {
    &&& sample.sequence == frame.sequence
    &&& frame.pts_us == Some(sample.pts_us)
    &&& sample.ready_us == frame.ready_us
    &&& sample.keyframe == frame.keyframe
}

/// Sample `k` measures a picture remembered in `frames` whose sequence
/// number is the one acknowledgement `k` names, at that acknowledgement's
/// time.
pub open spec fn sample_traced(frames: Seq<EncodedTiming>, acks: Seq<RenderAck>, ordinal: u64, k: int) -> bool {
    exists|i: int|
        0 <= i < frames.len() && frames[i].sequence == acks[k].sequence && measures(
            consume_spec(frames, acks, ordinal).2[k],
            #[trigger] frames[i],
        ) && consume_spec(frames, acks, ordinal).2[k].ack_us == acks[k].at_us
}

#[verifier::rlimit(50)]
#[verifier::spinoff_prover]
proof fn lemma_sample_carries(frames: Seq<EncodedTiming>, acks: Seq<RenderAck>, ordinal: u64, k: int)
    requires
        0 <= k < consume_spec(frames, acks, ordinal).2.len(),
    ensures
        sample_traced(frames, acks, ordinal, k),
    decreases acks.len(),
{
    let c = consume_spec(frames, acks, ordinal);
    lemma_samples_follow_acks(frames, acks, ordinal);
    assert(acks.len() > 0 && acks[0].ordinal == ordinal + 1);
    let t = take_spec(frames, acks[0].sequence);
    lemma_position_of(frames, acks[0].sequence);
    assert(t.1 is Some && t.1.unwrap().pts_us is Some);
    let p = position_of(frames, acks[0].sequence).unwrap();
    let e = t.1.unwrap();
    let tail = acks.drop_first();
    let after = consume_spec(t.0, tail, acks[0].ordinal);
    let sample = Sample {
        sequence: e.sequence,
        pts_us: e.pts_us.unwrap(),
        ready_us: e.ready_us,
        ack_us: acks[0].at_us,
        keyframe: e.keyframe,
    };
    assert(c.2 == seq![sample] + after.2);
    if k == 0 {
        assert(c.2[0] == sample);
        assert(measures(c.2[0], frames[p]));
    } else {
        lemma_sample_carries(t.0, tail, acks[0].ordinal, k - 1);
        assert(c.2[k] == after.2[k - 1]);
        assert(tail[k - 1] == acks[k]);
        let j = choose|j: int|
            0 <= j < t.0.len() && t.0[j].sequence == tail[k - 1].sequence && measures(
                after.2[k - 1],
                #[trigger] t.0[j],
            ) && after.2[k - 1].ack_us == tail[k - 1].at_us;
        assert(t.0[j] == frames[p + 1 + j]);
    }
}

/// Timing law: every sample carries the timing of a picture that was
/// remembered when the acknowledgements were matched, the picture its
/// acknowledgement names, and the time of that acknowledgement.
pub proof fn lemma_samples_carry_picture_timing(frames: Seq<EncodedTiming>, acks: Seq<RenderAck>, ordinal: u64)
    ensures
        forall|k: int|
            0 <= k < consume_spec(frames, acks, ordinal).2.len() ==> #[trigger] sample_traced(
                frames,
                acks,
                ordinal,
                k,
            ),
{
    assert forall|k: int| 0 <= k < consume_spec(frames, acks, ordinal).2.len() implies #[trigger] sample_traced(
        frames,
        acks,
        ordinal,
        k,
    ) by {
        lemma_sample_carries(frames, acks, ordinal, k);
    }
}

} // verus!
