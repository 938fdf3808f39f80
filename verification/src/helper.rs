//! The capture helper's side of the protocol: its command line, the lines
//! it reports on standard output, and the frame size the encoder must use.
use vstd::prelude::*;
use crate::cli::{arg_views, CaptureConfig};
use crate::fifo_reset::{reset_line_spec, Identity};
use crate::number::{decimal, parse_unsigned, push_decimal};
use crate::text::{chars_of, has_prefix, split_whitespace_chars, trim, trim_chars, words};
use vstd::slice::slice_subrange;

verus! {

/// The display mode the compositor negotiated on the virtual output.
#[derive(Clone, Copy, Debug, PartialEq, Eq, Structural)]
pub struct DetectedMode {
    pub width: u32,
    pub height: u32,
    pub refresh: u32,
}

/// What one line of the helper's output reports.
#[derive(Clone, Copy, Debug, PartialEq, Eq, Structural)]
pub enum HelperReport {
    /// A partially written frame retired this FIFO inode.
    FifoReset(Identity),
    /// The size of the frames the helper writes.
    StreamSize(u32, u32),
    /// The mode the compositor negotiated.
    ModeChanged(DetectedMode),
    /// A `MODE_CHANGED` line whose numbers cannot be read.
    UnparseableMode,
    /// Anything else, including sizes with a zero side.
    Other,
}

pub open spec fn u32_of(w: Seq<char>) -> Option<u32> {
    match parse_unsigned(w, 10, u32::MAX as nat) {
        Some(v) => Some(v as u32),
        None => None,
    }
}

/// The report of a line: a FIFO reset line first; then `STREAM_SIZE W H`
/// and `MODE_CHANGED W H REFRESH`, whose leading numbers are read and any
/// further words ignored. A size with a zero side reports nothing, so it never
/// replaces the last valid one.
pub open spec fn helper_report_spec(line: Seq<char>) -> HelperReport {
    let stream = "STREAM_SIZE "@;
    let mode = "MODE_CHANGED "@;
    if reset_line_spec(line) is Some {
        HelperReport::FifoReset(reset_line_spec(line)->0)
    } else if has_prefix(line, stream) {
        let w = words(line.subrange(stream.len() as int, line.len() as int));
        if w.len() >= 2 && u32_of(w[0]) is Some && u32_of(w[1]) is Some && u32_of(w[0])->0 > 0
            && u32_of(w[1])->0 > 0 {
            HelperReport::StreamSize(u32_of(w[0])->0, u32_of(w[1])->0)
        } else {
            HelperReport::Other
        }
    } else if has_prefix(line, mode) {
        let w = words(line.subrange(mode.len() as int, line.len() as int));
        if w.len() >= 3 && u32_of(w[0]) is Some && u32_of(w[1]) is Some && u32_of(w[2]) is Some {
            let m = DetectedMode {
                width: u32_of(w[0])->0,
                height: u32_of(w[1])->0,
                refresh: u32_of(w[2])->0,
            };
            if m.width == 0 || m.height == 0 {
                HelperReport::Other
            } else {
                HelperReport::ModeChanged(m)
            }
        } else {
            HelperReport::UnparseableMode
        }
    } else {
        HelperReport::Other
    }
}

fn word_u32(w: &Vec<char>) -> (r: Option<u32>)
    ensures
        r == u32_of(w@),
{
    crate::number::parse_u32(w.as_slice())
}

pub fn helper_report(line: &str) -> (r: HelperReport)
    ensures
        r == helper_report_spec(line@),
{
    match Identity::from_reset_line(line) {
        Some(id) => return HelperReport::FifoReset(id),
        None => {},
    }
    let text = chars_of(line);
    let stream = chars_of("STREAM_SIZE ");
    let mode = chars_of("MODE_CHANGED ");
    if crate::text::starts_with(text.as_slice(), stream.as_slice()) {
        let rest = slice_subrange(text.as_slice(), stream.len(), text.len());
        let w = split_whitespace_chars(rest);
        proof {
            assert(crate::doctor::word_views(w@) == words(rest@));
        }
        if w.len() >= 2 {
            assert(w@[0]@ == words(rest@)[0] && w@[1]@ == words(rest@)[1]);
            match (word_u32(&w[0]), word_u32(&w[1])) {
                (Some(x), Some(y)) => {
                    if x > 0 && y > 0 {
                        return HelperReport::StreamSize(x, y);
                    }
                },
                _ => {},
            }
        }
        return HelperReport::Other;
    }
    if crate::text::starts_with(text.as_slice(), mode.as_slice()) {
        let rest = slice_subrange(text.as_slice(), mode.len(), text.len());
        let w = split_whitespace_chars(rest);
        proof {
            assert(crate::doctor::word_views(w@) == words(rest@));
        }
        if w.len() >= 3 {
            assert(w@[0]@ == words(rest@)[0] && w@[1]@ == words(rest@)[1] && w@[2]@ == words(
                rest@,
            )[2]);
            match (word_u32(&w[0]), word_u32(&w[1]), word_u32(&w[2])) {
                (Some(width), Some(height), Some(refresh)) => {
                    if width == 0 || height == 0 {
                        return HelperReport::Other;
                    }
                    return HelperReport::ModeChanged(DetectedMode { width, height, refresh });
                },
                _ => {},
            }
        }
        return HelperReport::UnparseableMode;
    }
    HelperReport::Other
}

/// The card an `EVDI_CONNECTED cardN` line announces: `None` for other
/// lines, an error when the number cannot be read.
pub open spec fn connected_card_spec(line: Seq<char>) -> Option<Result<u32, ()>> {
    let prefix = "EVDI_CONNECTED card"@;
    if has_prefix(line, prefix) {
        match u32_of(trim(line.subrange(prefix.len() as int, line.len() as int))) {
            Some(c) => Some(Ok(c)),
            None => Some(Err(())),
        }
    } else {
        None
    }
}

pub fn connected_card(line: &str) -> (r: Option<Result<u32, ()>>)
    ensures
        r == connected_card_spec(line@),
{
    let text = chars_of(line);
    let prefix = chars_of("EVDI_CONNECTED card");
    if !crate::text::starts_with(text.as_slice(), prefix.as_slice()) {
        return None;
    }
    let rest = slice_subrange(text.as_slice(), prefix.len(), text.len());
    match crate::number::parse_u32(trim_chars(rest)) {
        Some(c) => Some(Ok(c)),
        None => Some(Err(())),
    }
}

/// A frame side divided by the stream scale, rounded down to an even number
/// and at least 2, as the NV12 frames the helper writes need.
pub open spec fn scaled_side(side: u32, scale: u32) -> u32 {
    let n = if scale > 1 {
        scale
    } else {
        1
    };
    let q = side / n;
    let even = (q - q % 2) as u32;
    if even > 2 {
        even
    } else {
        2
    }
}

fn scale_side(side: u32, scale: u32) -> (r: u32)
    ensures
        r == scaled_side(side, scale),
{
    let n = if scale > 1 {
        scale
    } else {
        1
    };
    let q = side / n;
    let even = q & !1u32;
    assert(q & !1u32 == q - q % 2) by (bit_vector);
    if even > 2 {
        even
    } else {
        2
    }
}

/// The frame size the encoder reads: the size the helper reports it writes,
/// when it has reported a nonzero one; otherwise the negotiated mode, or the
/// configured one, scaled down for the stream.
pub open spec fn active_mode_spec(stream: Option<(u32, u32)>, mode: Option<DetectedMode>, config: CaptureConfig) -> (u32, u32) {
    let usable = match stream {
        Some(s) => s.0 > 0 && s.1 > 0,
        None => false,
    };
    if usable {
        stream->0
    } else {
        let (w, h) = if mode is Some && mode->0.width > 0 && mode->0.height > 0 {
            (mode->0.width, mode->0.height)
        } else {
            (config.width, config.height)
        };
        (scaled_side(w, config.stream_scale), scaled_side(h, config.stream_scale))
    }
}

pub fn active_mode(stream: Option<(u32, u32)>, mode: Option<DetectedMode>, config: &CaptureConfig) -> (r: (u32, u32))
    ensures
        r == active_mode_spec(stream, mode, *config),
{
    match stream {
        Some((w, h)) => {
            if w > 0 && h > 0 {
                return (w, h);
            }
        },
        None => {},
    }
    let (w, h) = match mode {
        Some(m) => if m.width > 0 && m.height > 0 {
            (m.width, m.height)
        } else {
            (config.width, config.height)
        },
        None => (config.width, config.height),
    };
    (scale_side(w, config.stream_scale), scale_side(h, config.stream_scale))
}

/// The refresh rate the generated EDID is made for: the configured rate,
/// capped at 90 Hz because the descriptor's 16-bit pixel clock cannot carry
/// large modes faster than that; the helper still captures at the configured
/// rate.
pub fn edid_refresh(fps: u32) -> (r: u32)
    ensures
        r == (if fps < 90 {
            fps
        } else {
            90
        }),
{
    if fps < 90 {
        fps
    } else {
        90
    }
}

/// The helper's command line: the EDID to present, rate and conversion
/// threads, the stream scale when it scales, the capture FIFO, the idle
/// control file under adaptive idle, where to report the pipe size, and the
/// card: a pinned one, else the one it had before.
pub open spec fn helper_command_spec(config: CaptureConfig, edid: Seq<char>, fifo: Seq<char>, idle_file: Seq<char>, pipe_size_file: Seq<char>, previous_card: Option<u32>) -> Seq<Seq<char>> {
    seq![
        "--edid"@,
        edid,
        "--fps"@,
        decimal(config.fps as nat),
        "--conversion-threads"@,
        decimal(config.conversion_threads as nat),
    ] + (if config.stream_scale > 1 {
        seq!["--scale"@, decimal(config.stream_scale as nat)]
    } else {
        Seq::empty()
    }) + seq!["--capture-fifo"@, fifo] + (if config.adaptive_idle {
        seq!["--idle-control-file"@, idle_file]
    } else {
        Seq::empty()
    }) + seq!["--pipe-size-file"@, pipe_size_file] + match config.card {
        Some(c) => seq!["--card"@, decimal(c as nat)],
        None => match previous_card {
            Some(p) => seq!["--preferred-card"@, decimal(p as nat)],
            None => Seq::empty(),
        },
    }
}

fn number(n: u32) -> (r: String)
    ensures
        r@ == decimal(n as nat),
{
    let mut d: Vec<char> = Vec::new();
    push_decimal(&mut d, n as u64);
    crate::report::chars_to_string(d.as_slice())
}

fn push2(args: &mut Vec<String>, a: String, b: String)
    ensures
        arg_views(final(args)@) == arg_views(old(args)@) + seq![a@, b@],
{
    let ghost before = arg_views(args@);
    let ghost (va, vb) = (a@, b@);
    args.push(a);
    args.push(b);
    assert(arg_views(args@) =~= before + seq![va, vb]);
}

pub fn helper_command(config: &CaptureConfig, edid: &str, fifo: &str, idle_file: &str, pipe_size_file: &str, previous_card: Option<u32>) -> (r: Vec<String>)
    ensures
        arg_views(r@) == helper_command_spec(
            *config,
            edid@,
            fifo@,
            idle_file@,
            pipe_size_file@,
            previous_card,
        ),
{
    let mut args: Vec<String> = Vec::new();
    assert(arg_views(args@) =~= Seq::<Seq<char>>::empty());
    push2(&mut args, "--edid".to_owned(), edid.to_owned());
    push2(&mut args, "--fps".to_owned(), number(config.fps));
    push2(&mut args, "--conversion-threads".to_owned(), number(config.conversion_threads));
    if config.stream_scale > 1 {
        push2(&mut args, "--scale".to_owned(), number(config.stream_scale));
    }
    push2(&mut args, "--capture-fifo".to_owned(), fifo.to_owned());
    if config.adaptive_idle {
        push2(&mut args, "--idle-control-file".to_owned(), idle_file.to_owned());
    }
    push2(&mut args, "--pipe-size-file".to_owned(), pipe_size_file.to_owned());
    match config.card {
        Some(c) => push2(&mut args, "--card".to_owned(), number(c)),
        None => match previous_card {
            Some(p) => push2(&mut args, "--preferred-card".to_owned(), number(p)),
            None => {},
        },
    }
    assert(arg_views(args@) =~= helper_command_spec(
        *config,
        edid@,
        fifo@,
        idle_file@,
        pipe_size_file@,
        previous_card,
    ));
    args
}


/// How the encoder's frame size compares with the configured mode.
#[derive(Clone, Copy, Debug, PartialEq, Eq, Structural)]
pub enum DimensionNote {
    /// The compositor did not honour the requested mode; the expected size.
    Unexpected(u32, u32),
    /// As requested, scaled down for the stream.
    Scaled,
    /// As requested.
    AsRequested,
}

pub open spec fn dimension_note_spec(config: CaptureConfig, w: u32, h: u32) -> DimensionNote {
    let ew = scaled_side(config.width, config.stream_scale);
    let eh = scaled_side(config.height, config.stream_scale);
    if w != ew || h != eh {
        DimensionNote::Unexpected(ew, eh)
    } else if config.stream_scale > 1 {
        DimensionNote::Scaled
    } else {
        DimensionNote::AsRequested
    }
}

pub fn dimension_note(config: &CaptureConfig, w: u32, h: u32) -> (r: DimensionNote)
    ensures
        r == dimension_note_spec(*config, w, h),
{
    let ew = scale_side(config.width, config.stream_scale);
    let eh = scale_side(config.height, config.stream_scale);
    if w != ew || h != eh {
        DimensionNote::Unexpected(ew, eh)
    } else if config.stream_scale > 1 {
        DimensionNote::Scaled
    } else {
        DimensionNote::AsRequested
    }
}

/// What a frame read waits for.
#[derive(Clone, Copy, Debug, PartialEq, Eq, Structural)]
pub enum Waiting {
    /// More bytes from the connected writer.
    Data,
    /// A writer: the previous one disconnected.
    Writer,
}

/// What one `read` from the capture FIFO returned.
#[derive(Clone, Copy, Debug, PartialEq, Eq, Structural)]
pub enum ReadOutcome {
    Bytes(usize),
    Interrupted,
    WouldBlock,
    Failed,
}

/// The next step of filling a frame.
#[derive(Clone, Copy, Debug, PartialEq, Eq, Structural)]
pub enum ReadStep {
    Data(usize),
    Wait(Waiting),
}

/// A read's meaning: end of file means the writer disconnected, an
/// interrupted read simply retries, and a would-block read waits for data;
/// any other error ends the read (`None`).
pub fn read_step(outcome: ReadOutcome) -> (r: Option<ReadStep>)
    ensures
        r == match outcome {
            ReadOutcome::Bytes(n) => if n == 0 {
                Some(ReadStep::Wait(Waiting::Writer))
            } else {
                Some(ReadStep::Data(n))
            },
            ReadOutcome::Interrupted => Some(ReadStep::Data(0)),
            ReadOutcome::WouldBlock => Some(ReadStep::Wait(Waiting::Data)),
            ReadOutcome::Failed => None,
        },
{
    match outcome {
        ReadOutcome::Bytes(n) => if n == 0 {
            Some(ReadStep::Wait(Waiting::Writer))
        } else {
            Some(ReadStep::Data(n))
        },
        ReadOutcome::Interrupted => Some(ReadStep::Data(0)),
        ReadOutcome::WouldBlock => Some(ReadStep::Wait(Waiting::Data)),
        ReadOutcome::Failed => None,
    }
}

/// Bytes of the frame filled after a step, and what to wait for: data
/// extends the frame, and a disconnected writer discards the partial frame,
/// so no frame ever mixes two writers' bytes.
pub fn frame_progress(filled: usize, len: usize, step: ReadStep) -> (r: (usize, Option<Waiting>))
    requires
        filled < len,
        step matches ReadStep::Data(n) ==> n <= len - filled,
    ensures
        r.0 <= len,
        r == match step {
            ReadStep::Data(n) => ((filled + n) as usize, None),
            ReadStep::Wait(Waiting::Writer) => (0usize, Some(Waiting::Writer)),
            ReadStep::Wait(Waiting::Data) => (filled, Some(Waiting::Data)),
        },
{
    match step {
        ReadStep::Data(n) => (filled + n, None),
        ReadStep::Wait(Waiting::Writer) => (0, Some(Waiting::Writer)),
        ReadStep::Wait(Waiting::Data) => (filled, Some(Waiting::Data)),
    }
}

} // verus!
