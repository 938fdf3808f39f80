use blent_host::annex_b::{extract_parameter_sets, hevc_main_tier, Codec};
use blent_host::fifo_reset::Identity;
use blent_host::frame_copy::{copy_nv12, copy_plane, packed_chunk};
use blent_host::framing::{extradata, MAX_CONFIG_BYTES};
use blent_host::probe_frame::{draw_stripe, reference, summarize, ProbeSummary, SummaryError};

fn chars(s: &str) -> Vec<char> {
    s.chars().collect()
}

#[test]
fn t498_reset_parser_bounds_and_mutation_corpus() {
    for a in ["0", "1", "18446744073709551615"] {
        for b in ["0", "1", "18446744073709551615"] {
            assert!(Identity::from_reset_line(&format!("FIFO_RESET {a} {b}")).is_some());
        }
    }
    for bad in ["", "-1", "18446744073709551616", "1.0", "NaN", "\0"] {
        assert!(Identity::from_reset_line(&format!("FIFO_RESET {bad} 1")).is_none());
        assert!(Identity::from_reset_line(&format!("FIFO_RESET 1 {bad}")).is_none());
    }
    let seed = b"FIFO_RESET 123 456";
    for offset in 0..seed.len() {
        for byte in 0..=255 {
            let mut input = seed.to_vec();
            input[offset] = byte;
            if let Ok(text) = std::str::from_utf8(&input) {
                let _ = Identity::from_reset_line(text);
            }
        }
    }
    assert!(Identity::from_reset_line("FIFO_RESET 1 2 extra").is_none());
}

#[test]
fn t478_hevc_level_cannot_silently_treat_high_tier_as_main() {
    let main = [0, 0, 0, 1, 0x42, 1, 1, 1, 0x60];
    assert!(hevc_main_tier(&main));
    let mut high = main;
    high[7] |= 0x20;
    assert!(!hevc_main_tier(&high));
    assert!(!hevc_main_tier(&main[..7]));
    assert!(!hevc_main_tier(&[]));
    let mixed = [main.as_slice(), high.as_slice()].concat();
    assert!(!hevc_main_tier(&mixed));
}

#[test]
fn t389_plane_copy_keeps_partial_rows_and_padding_untouched() {
    for stride in [4, 8] {
        let mut destination = [91; 24];
        copy_plane(&mut destination, stride, &[7; 10], 4, 3);
        assert_eq!(&destination[..4], &[7; 4]);
        assert_eq!(&destination[stride..stride + 4], &[7; 4]);
        assert!(destination[stride + 4..].iter().all(|b| *b == 91));
    }
}

#[test]
fn t028_extracts_hevc_vps_sps_pps() {
    let config = [
        0, 0, 0, 1, 64, 1, 42, 0, 0, 1, 66, 1, 43, 0, 0, 1, 68, 1, 44,
    ];
    let mut frame = config.to_vec();
    frame.extend_from_slice(&[0, 0, 1, 38, 1, 128]);
    assert_eq!(
        extract_parameter_sets(&frame, Codec::Hevc).as_deref(),
        Some(config.as_slice())
    );
}

#[test]
fn t028_preserves_h264_parameter_sets() {
    let config = [0, 0, 1, 103, 42, 0, 0, 0, 1, 104, 43];
    let mut frame = config.to_vec();
    frame.extend_from_slice(&[0, 0, 1, 101, 128]);
    assert_eq!(
        extract_parameter_sets(&frame, Codec::H264).as_deref(),
        Some(config.as_slice())
    );
}

#[test]
fn t497_extradata_bounds_and_malformed_numbers_are_rejected() {
    let limit = MAX_CONFIG_BYTES;
    for size in [0, 1, limit - 1, limit] {
        assert!(extradata(&chars(&format!(" {size}, 0xffffffff "))).is_ok());
    }
    for invalid in ["", "-1", "0x10", "18446744073709551616", "NaN"] {
        assert!(extradata(&chars(&format!("{invalid}, 0x1234"))).is_err());
    }
    for size in limit + 1..limit + 1025 {
        assert!(extradata(&chars(&format!("{size}, 0x1234"))).is_err());
    }
    for invalid in ["", "1234", "0x", "0x100000000", "0x-1", "0xzz", "0x1,extra"] {
        assert!(extradata(&chars(&format!("1,{invalid}"))).is_err());
    }
    assert!(extradata(&chars("no comma")).is_err());
}

fn arrivals(big_gaps: usize) -> Vec<u64> {
    let mut times = vec![0u64];
    for i in 1..60 {
        let gap = if i >= 60 - big_gaps { 1000 } else { 10 };
        times.push(times[i - 1] + gap);
    }
    times
}

#[test]
fn probe_summary_uses_the_95th_percentile_gap_after_warm_up() {
    assert_eq!(summarize(&arrivals(0)[..59]), Err(SummaryError::LostFrames));
    let two = arrivals(2);
    assert_eq!(
        summarize(&two),
        Ok(ProbeSummary {
            first_us: 0,
            p95_us: 10,
            intervals: 51,
            elapsed_us: two[59] - two[8],
        })
    );
    assert_eq!(summarize(&arrivals(3)).unwrap().p95_us, 1000);
    // A probe whose measured packets all arrive at once still spans 1 µs.
    let mut flat = vec![5u64; 60];
    flat[0] = 1;
    assert_eq!(summarize(&flat).unwrap().elapsed_us, 1);
    assert_eq!(summarize(&flat).unwrap().first_us, 1);
}

#[test]
fn probe_frames_move_a_stripe_down_the_picture() {
    let mut frame = reference(8, 4);
    let original = frame.clone();
    draw_stripe(&mut frame, 8, 4, 6);
    // Frame 6 redraws luma row 2 with 16 + 6 * 3.
    assert!(frame[16..24].iter().all(|&b| b == 34));
    assert_eq!(&frame[..16], &original[..16]);
    assert_eq!(&frame[24..], &original[24..]);
    draw_stripe(&mut frame, 8, 4, 100);
    assert!(frame[..8].iter().all(|&b| b == (16 + 300) as u8));
}

#[test]
fn nv12_pictures_split_into_strided_planes() {
    // 4x2 picture: 8 luma bytes, then one 4-byte chroma row.
    let nv12: Vec<u8> = (1..=12).collect();
    let mut y = [0u8; 12];
    let mut uv = [0u8; 6];
    copy_nv12(&mut y, 6, &mut uv, 6, &nv12, 4, 2);
    assert_eq!(y, [1, 2, 3, 4, 0, 0, 5, 6, 7, 8, 0, 0]);
    assert_eq!(uv, [9, 10, 11, 12, 0, 0]);
}

#[test]
fn packed_offsets_map_onto_their_plane() {
    assert_eq!(packed_chunk(0, 4096), (0, 0, 4096));
    assert_eq!(packed_chunk(4095, 4096), (0, 4095, 4096));
    assert_eq!(packed_chunk(4096 + 17, 4096), (1, 17, 2048));
}
