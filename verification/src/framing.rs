//! The encoder's interleaved stream: `framecrc` text lines, each packet line
//! followed by exactly the packet bytes it announces. This module holds the
//! stream grammar and the reader's decisions; the caller performs the reads.
use vstd::prelude::*;
use vstd::utf8::{decode_utf8, valid_utf8};
use crate::annex_b::{Codec, wire_name_spec};
use crate::decode::{decode_line, text_chars};
use crate::number::{parse_unsigned, parse_i64_spec, parse_u32, parse_usize, parse_i64, parse_hex_u32, signed_decimal, decimal, zeros, lower_hex, is_hex_char, lemma_decimal_digits, lemma_parse_decimal, lemma_parse_signed_decimal, lemma_parse_padded_hex};
use crate::text::{trim, trim_start, trim_end, is_ws, spaces, split_once, split, trim_chars, trim_end_chars, split_once_chars, split_chars, chars_eq, lemma_trim_padded, lemma_trim_end_concat, lemma_trim_end_prefix, lemma_split_after, lemma_split_whole};
use vstd::slice::slice_subrange;

verus! {

/// Longest accepted text line, newline included.
pub const MAX_LINE: usize = 512;
/// Most stream header lines before the first packet.
pub const MAX_HEADERS: usize = 32;
/// Largest accepted encoded packet.
pub const MAX_FRAME_BYTES: usize = 16777216;
/// Largest accepted codec extradata.
pub const MAX_CONFIG_BYTES: usize = 65536;

#[derive(Clone, Copy, Debug, PartialEq, Eq, Structural)]
pub enum FramingError {
    MissingStreamHeader,
    IncompleteStreamHeader,
    NonmonotonicPacket,
    ChecksumMismatch,
    HeaderAfterPacket,
    TooManyHeaders,
    InvalidUtf8,
    MalformedHeader,
    CodecMismatch,
    ExpectedVideo,
    UnexpectedHeader,
    DuplicateHeader,
    MissingDimensions,
    InvalidWidth,
    InvalidHeight,
    InvalidNumber,
    MissingTimeBase,
    InvalidTimeBase,
    MissingChecksumPrefix,
    MissingExtradataSize,
    ExtradataTooLarge,
    IncompletePacketHeader,
    UnexpectedStreamIndex,
    InvalidDuration,
    InvalidPacketSize,
    LineTooLong,
    TruncatedPacketHeader,
}

pub open spec fn u32_max() -> nat {
    0xffff_ffff
}

pub open spec fn dimension_ok(v: nat) -> bool {
    2 <= v <= 4096
}

/// `WIDTHxHEIGHT`, each between 2 and 4096.
pub open spec fn dimensions_spec(v: Seq<char>) -> Result<(), FramingError> {
    match split_once(v, 'x') {
        None => Err(FramingError::MissingDimensions),
        Some(p) => match parse_unsigned(p.0, 10, u32_max()) {
            None => Err(FramingError::InvalidNumber),
            Some(w) => if !dimension_ok(w) {
                Err(FramingError::InvalidWidth)
            } else {
                match parse_unsigned(p.1, 10, u32_max()) {
                    None => Err(FramingError::InvalidNumber),
                    Some(h) => if !dimension_ok(h) {
                        Err(FramingError::InvalidHeight)
                    } else {
                        Ok(())
                    },
                }
            },
        },
    }
}

/// `NUM/DEN`, both positive.
pub open spec fn time_base_spec(v: Seq<char>) -> Result<(u32, u32), FramingError> {
    match split_once(v, '/') {
        None => Err(FramingError::MissingTimeBase),
        Some(p) => match parse_unsigned(p.0, 10, u32_max()) {
            None => Err(FramingError::InvalidNumber),
            Some(n) => match parse_unsigned(p.1, 10, u32_max()) {
                None => Err(FramingError::InvalidNumber),
                Some(d) => if n > 0 && d > 0 {
                    Ok((n as u32, d as u32))
                } else {
                    Err(FramingError::InvalidTimeBase)
                },
            },
        },
    }
}

/// `0x` followed by a 32-bit hexadecimal value, surrounding whitespace allowed.
pub open spec fn hex_spec(v: Seq<char>) -> Result<u32, FramingError> {
    let t = trim(v);
    if t.len() >= 2 && t[0] == '0' && t[1] == 'x' {
        match parse_unsigned(t.subrange(2, t.len() as int), 16, u32_max()) {
            Some(x) => Ok(x as u32),
            None => Err(FramingError::InvalidNumber),
        }
    } else {
        Err(FramingError::MissingChecksumPrefix)
    }
}

/// `SIZE, 0xCHECKSUM` with a bounded extradata size.
pub open spec fn extradata_spec(v: Seq<char>) -> Result<(), FramingError> {
    match split_once(v, ',') {
        None => Err(FramingError::MissingExtradataSize),
        Some(p) => match parse_unsigned(trim(p.0), 10, usize::MAX as nat) {
            None => Err(FramingError::InvalidNumber),
            Some(size) => if size > MAX_CONFIG_BYTES {
                Err(FramingError::ExtradataTooLarge)
            } else {
                match hex_spec(p.1) {
                    Ok(_) => Ok(()),
                    Err(e) => Err(e),
                }
            },
        },
    }
}

pub fn dimensions(value: &[char]) -> (r: Result<(), FramingError>)
    ensures
        r == dimensions_spec(value@),
{
    let (width, height) = match split_once_chars(value, 'x') {
        Some(p) => p,
        None => {
            return Err(FramingError::MissingDimensions);
        },
    };
    let w = match parse_u32(width) {
        Some(w) => w,
        None => {
            return Err(FramingError::InvalidNumber);
        },
    };
    if !(2 <= w && w <= 4096) {
        return Err(FramingError::InvalidWidth);
    }
    let h = match parse_u32(height) {
        Some(h) => h,
        None => {
            return Err(FramingError::InvalidNumber);
        },
    };
    if !(2 <= h && h <= 4096) {
        return Err(FramingError::InvalidHeight);
    }
    Ok(())
}

pub fn time_base(value: &[char]) -> (r: Result<(u32, u32), FramingError>)
    ensures
        r == time_base_spec(value@),
{
    let (num, den) = match split_once_chars(value, '/') {
        Some(p) => p,
        None => {
            return Err(FramingError::MissingTimeBase);
        },
    };
    let n = match parse_u32(num) {
        Some(n) => n,
        None => {
            return Err(FramingError::InvalidNumber);
        },
    };
    let d = match parse_u32(den) {
        Some(d) => d,
        None => {
            return Err(FramingError::InvalidNumber);
        },
    };
    if n > 0 && d > 0 {
        Ok((n, d))
    } else {
        Err(FramingError::InvalidTimeBase)
    }
}

pub fn hex(value: &[char]) -> (r: Result<u32, FramingError>)
    ensures
        r == hex_spec(value@),
{
    let t = trim_chars(value);
    if t.len() >= 2 && t[0] == '0' && t[1] == 'x' {
        let digits = slice_subrange(t, 2, t.len());
        match parse_hex_u32(digits) {
            Some(x) => Ok(x),
            None => Err(FramingError::InvalidNumber),
        }
    } else {
        Err(FramingError::MissingChecksumPrefix)
    }
}

pub fn extradata(value: &[char]) -> (r: Result<(), FramingError>)
    ensures
        r == extradata_spec(value@),
{
    let (size, checksum) = match split_once_chars(value, ',') {
        Some(p) => p,
        None => {
            return Err(FramingError::MissingExtradataSize);
        },
    };
    let size = match parse_usize(trim_chars(size)) {
        Some(s) => s,
        None => {
            return Err(FramingError::InvalidNumber);
        },
    };
    if size > MAX_CONFIG_BYTES {
        return Err(FramingError::ExtradataTooLarge);
    }
    match hex(checksum) {
        Ok(_) => Ok(()),
        Err(e) => Err(e),
    }
}


/// The comma-separated fields of a packet line, each without surrounding
/// whitespace.
pub open spec fn packet_fields(text: Seq<char>) -> Seq<Seq<char>> {
    split(trim(text), ',').map_values(|f: Seq<char>| trim(f))
}

/// `INDEX, DTS, PTS, DURATION, SIZE, 0xCHECKSUM[, ...]`: stream 0, a
/// non-negative duration, a bounded nonzero size; trailing fields are ignored.
/// The result is the size, checksum, decoding and presentation timestamps.
pub open spec fn packet_header_text(text: Seq<char>) -> Result<(usize, u32, i64, i64), FramingError> {
    let f = packet_fields(text);
    if f.len() < 1 {
        Err(FramingError::IncompletePacketHeader)
    } else if f[0] != seq!['0'] {
        Err(FramingError::UnexpectedStreamIndex)
    } else if f.len() < 2 {
        Err(FramingError::IncompletePacketHeader)
    } else {
        match parse_i64_spec(f[1]) {
            None => Err(FramingError::InvalidNumber),
            Some(dts) => if f.len() < 3 {
                Err(FramingError::IncompletePacketHeader)
            } else {
                match parse_i64_spec(f[2]) {
                    None => Err(FramingError::InvalidNumber),
                    Some(pts) => if f.len() < 4 {
                        Err(FramingError::IncompletePacketHeader)
                    } else {
                        match parse_i64_spec(f[3]) {
                            None => Err(FramingError::InvalidNumber),
                            Some(duration) => if duration < 0 {
                                Err(FramingError::InvalidDuration)
                            } else if f.len() < 5 {
                                Err(FramingError::IncompletePacketHeader)
                            } else {
                                match parse_unsigned(f[4], 10, usize::MAX as nat) {
                                    None => Err(FramingError::InvalidNumber),
                                    Some(size) => if !(1 <= size <= MAX_FRAME_BYTES) {
                                        Err(FramingError::InvalidPacketSize)
                                    } else if f.len() < 6 {
                                        Err(FramingError::IncompletePacketHeader)
                                    } else {
                                        match hex_spec(f[5]) {
                                            Err(e) => Err(e),
                                            Ok(checksum) => Ok(
                                                (size as usize, checksum, dts as i64, pts as i64),
                                            ),
                                        }
                                    },
                                }
                            },
                        }
                    },
                }
            },
        }
    }
}

pub open spec fn packet_header_spec(line: Seq<u8>) -> Result<(usize, u32, i64, i64), FramingError> {
    if valid_utf8(line) {
        packet_header_text(decode_utf8(line))
    } else {
        Err(FramingError::InvalidUtf8)
    }
}

/// Parse a packet line into its size, checksum, DTS and PTS.
pub fn packet_header(line: &[u8]) -> (r: Result<(usize, u32, i64, i64), FramingError>)
    ensures
        r == packet_header_spec(line@),
{
    let text = match decode_line(line) {
        Some(t) => t,
        None => {
            return Err(FramingError::InvalidUtf8);
        },
    };
    let raw = split_chars(trim_chars(text.as_slice()), ',');
    let ghost f = packet_fields(text@);
    proof {
        assert(f.len() == raw@.len());
        assert forall|k: int| 0 <= k < f.len() implies #[trigger] f[k] == trim(raw@[k]@) by {
            assert(raw@.map_values(|p: &[char]| p@)[k] == raw@[k]@);
        }
    }
    if raw.len() < 1 {
        return Err(FramingError::IncompletePacketHeader);
    }
    let index = trim_chars(raw[0]);
    let zero = vec!['0'];
    if !chars_eq(index, zero.as_slice()) {
        assert(f[0] == index@);
        assert(zero@ == seq!['0']);
        return Err(FramingError::UnexpectedStreamIndex);
    }
    assert(f[0] == seq!['0']);
    if raw.len() < 2 {
        return Err(FramingError::IncompletePacketHeader);
    }
    let dts = match parse_i64(trim_chars(raw[1])) {
        Some(v) => v,
        None => {
            return Err(FramingError::InvalidNumber);
        },
    };
    if raw.len() < 3 {
        return Err(FramingError::IncompletePacketHeader);
    }
    let pts = match parse_i64(trim_chars(raw[2])) {
        Some(v) => v,
        None => {
            return Err(FramingError::InvalidNumber);
        },
    };
    if raw.len() < 4 {
        return Err(FramingError::IncompletePacketHeader);
    }
    let duration = match parse_i64(trim_chars(raw[3])) {
        Some(v) => v,
        None => {
            return Err(FramingError::InvalidNumber);
        },
    };
    if duration < 0 {
        return Err(FramingError::InvalidDuration);
    }
    if raw.len() < 5 {
        return Err(FramingError::IncompletePacketHeader);
    }
    let size = match parse_usize(trim_chars(raw[4])) {
        Some(v) => v,
        None => {
            return Err(FramingError::InvalidNumber);
        },
    };
    if !(1 <= size && size <= MAX_FRAME_BYTES) {
        return Err(FramingError::InvalidPacketSize);
    }
    if raw.len() < 6 {
        return Err(FramingError::IncompletePacketHeader);
    }
    let checksum = match hex(trim_chars(raw[5])) {
        Ok(c) => c,
        Err(e) => {
            proof {
                crate::text::lemma_trim_idempotent(raw@[5]@);
            }
            return Err(e);
        },
    };
    proof {
        crate::text::lemma_trim_idempotent(raw@[5]@);
    }
    Ok((size, checksum, dts, pts))
}

/// A field as a fixed-width format writes it: `k` spaces of padding, then
/// the rendering.
pub open spec fn padded(k: nat, repr: Seq<char>) -> Seq<char> {
    spaces(k) + repr
}

/// A checksum as `0x%08x` writes it: `0x`, zero padding, lowercase digits.
pub open spec fn hex_field(zero_pad: nat, checksum: u32) -> Seq<char> {
    seq!['0', 'x'] + zeros(zero_pad) + lower_hex(checksum as nat)
}

/// A packet line as FFmpeg's `framecrc` muxer writes it: stream index 0,
/// then DTS, PTS, duration and size in decimal and the Adler-32 checksum in
/// hexadecimal, each after a comma and width padding (`pads`); `rest` holds
/// any further fields (flags, side data), each introduced by its comma; a
/// newline ends the line.
pub open spec fn framecrc_packet_line(
    pads: (nat, nat, nat, nat, nat),
    dts: i64,
    pts: i64,
    duration: i64,
    size: nat,
    zero_pad: nat,
    checksum: u32,
    rest: Seq<char>,
) -> Seq<char> {
    seq!['0'] + seq![','] + padded(pads.0, signed_decimal(dts as int)) + seq![','] + padded(
        pads.1,
        signed_decimal(pts as int),
    ) + seq![','] + padded(pads.2, signed_decimal(duration as int)) + seq![','] + padded(
        pads.3,
        decimal(size),
    ) + seq![','] + padded(pads.4, hex_field(zero_pad, checksum)) + rest + seq!['\n']
}

pub open spec fn comma_free(s: Seq<char>) -> bool {
    forall|j: int| 0 <= j < s.len() ==> s[j] != ','
}

proof fn lemma_field_text(k: nat, repr: Seq<char>)
    requires
        repr.len() > 0,
        forall|i: int| 0 <= i < repr.len() ==> (#[trigger] repr[i] == '-' || is_hex_char(repr[i])
            || repr[i] == 'x'),
    ensures
        comma_free(padded(k, repr)),
        trim(padded(k, repr)) == repr,
        !is_ws(padded(k, repr).last()),
{
    let f = padded(k, repr);
    assert forall|j: int| 0 <= j < f.len() implies f[j] != ',' by {
        if j >= k {
            assert(f[j] == repr[j - k]);
            assert(repr[j - k] == '-' || is_hex_char(repr[j - k]) || repr[j - k] == 'x');
        }
    }
    assert(repr[0] == '-' || is_hex_char(repr[0]) || repr[0] == 'x');
    assert(repr[repr.len() - 1] == '-' || is_hex_char(repr[repr.len() - 1]) || repr[repr.len() - 1]
        == 'x');
    assert(f.last() == repr.last());
    lemma_trim_padded(k, repr);
}

proof fn lemma_signed_field(k: nat, v: i64)
    ensures
        comma_free(padded(k, signed_decimal(v as int))),
        !is_ws(padded(k, signed_decimal(v as int)).last()),
        parse_i64_spec(trim(padded(k, signed_decimal(v as int)))) == Some(v as int),
{
    let r = signed_decimal(v as int);
    let m: nat = if v < 0 { (-(v as int)) as nat } else { v as nat };
    lemma_decimal_digits(m);
    let d = decimal(m);
    assert forall|i: int| 0 <= i < r.len() implies (#[trigger] r[i] == '-' || is_hex_char(r[i])
        || r[i] == 'x') by {
        if v < 0 {
            if i > 0 {
                assert(r[i] == d[i - 1]);
            }
        } else {
            assert(r[i] == d[i]);
        }
    }
    lemma_field_text(k, r);
    lemma_parse_signed_decimal(v);
}

proof fn lemma_size_field(k: nat, size: nat)
    requires
        size <= MAX_FRAME_BYTES,
    ensures
        comma_free(padded(k, decimal(size))),
        parse_unsigned(trim(padded(k, decimal(size))), 10, usize::MAX as nat) == Some(size),
{
    let d = decimal(size);
    lemma_decimal_digits(size);
    assert forall|i: int| 0 <= i < d.len() implies (#[trigger] d[i] == '-' || is_hex_char(d[i])
        || d[i] == 'x') by {
        assert('0' <= d[i] <= '9');
    }
    lemma_field_text(k, d);
    lemma_parse_decimal(size, usize::MAX as nat);
}

proof fn lemma_checksum_field(k: nat, zero_pad: nat, checksum: u32)
    ensures
        comma_free(padded(k, hex_field(zero_pad, checksum))),
        !is_ws(padded(k, hex_field(zero_pad, checksum)).last()),
        hex_spec(padded(k, hex_field(zero_pad, checksum))) == Ok::<u32, FramingError>(checksum),
{
    let h = zeros(zero_pad) + lower_hex(checksum as nat);
    lemma_parse_padded_hex(zero_pad, checksum);
    let r = hex_field(zero_pad, checksum);
    assert(r == seq!['0', 'x'] + h);
    assert forall|i: int| 0 <= i < r.len() implies (#[trigger] r[i] == '-' || is_hex_char(r[i])
        || r[i] == 'x') by {
        if i >= 2 {
            assert(r[i] == h[i - 2]);
        }
    }
    lemma_field_text(k, r);
    let t = trim(padded(k, r));
    assert(t.subrange(2, t.len() as int) == h);
}

/// The pieces of `0,F1,F2,F3,F4,F5` followed by further comma-introduced
/// fields.
proof fn lemma_split_six(
    f1: Seq<char>,
    f2: Seq<char>,
    f3: Seq<char>,
    f4: Seq<char>,
    f5: Seq<char>,
    tail: Seq<char>,
)
    requires
        comma_free(f1),
        comma_free(f2),
        comma_free(f3),
        comma_free(f4),
        comma_free(f5),
        tail.len() == 0 || tail[0] == ',',
    ensures
        ({
            let pieces = split(
                seq!['0'] + seq![','] + f1 + seq![','] + f2 + seq![','] + f3 + seq![','] + f4
                    + seq![','] + f5 + tail,
                ',',
            );
            &&& pieces.len() >= 6
            &&& pieces[0] == seq!['0']
            &&& pieces[1] == f1
            &&& pieces[2] == f2
            &&& pieces[3] == f3
            &&& pieces[4] == f4
            &&& pieces[5] == f5
        }),
{
    let c = seq![','];
    let zero = seq!['0'];
    let after5: Seq<Seq<char>> = if tail.len() == 0 {
        seq![]
    } else {
        split(tail.drop_first(), ',')
    };
    if tail.len() == 0 {
        lemma_split_whole(f5, ',');
        assert(f5 + tail == f5);
    } else {
        assert(tail == c + tail.drop_first());
        assert(f5 + tail == f5 + c + tail.drop_first());
        lemma_split_after(f5, tail.drop_first(), ',');
    }
    let t5 = f5 + tail;
    assert(split(t5, ',') == seq![f5] + after5);
    let t4 = f4 + c + t5;
    lemma_split_after(f4, t5, ',');
    let t3 = f3 + c + t4;
    lemma_split_after(f3, t4, ',');
    let t2 = f2 + c + t3;
    lemma_split_after(f2, t3, ',');
    let t1 = f1 + c + t2;
    lemma_split_after(f1, t2, ',');
    assert forall|j: int| 0 <= j < zero.len() implies zero[j] != ',' by {}
    lemma_split_after(zero, t1, ',');
    assert(zero + c + f1 + c + f2 + c + f3 + c + f4 + c + f5 + tail == zero + c + t1);
    assert(split(zero + c + t1, ',') == seq![zero, f1, f2, f3, f4, f5] + after5);
}

/// Read-back law of the packet line grammar: every packet line that
/// `framecrc` writes for stream 0, with a bounded nonzero size, however its
/// fields are padded and whatever further fields follow, is read as exactly
/// the size, checksum, DTS and PTS it was written with.
pub proof fn lemma_framecrc_packet_line_read_back(
    pads: (nat, nat, nat, nat, nat),
    dts: i64,
    pts: i64,
    duration: i64,
    size: nat,
    zero_pad: nat,
    checksum: u32,
    rest: Seq<char>,
)
    requires
        duration >= 0,
        1 <= size <= MAX_FRAME_BYTES,
        rest.len() == 0 || rest[0] == ',',
    ensures
        packet_header_text(
            framecrc_packet_line(pads, dts, pts, duration, size, zero_pad, checksum, rest),
        ) == Ok::<(usize, u32, i64, i64), FramingError>((size as usize, checksum, dts, pts)),
{
    let f1 = padded(pads.0, signed_decimal(dts as int));
    let f2 = padded(pads.1, signed_decimal(pts as int));
    let f3 = padded(pads.2, signed_decimal(duration as int));
    let f4 = padded(pads.3, decimal(size));
    let f5 = padded(pads.4, hex_field(zero_pad, checksum));
    lemma_signed_field(pads.0, dts);
    lemma_signed_field(pads.1, pts);
    lemma_signed_field(pads.2, duration);
    lemma_size_field(pads.3, size);
    lemma_checksum_field(pads.4, zero_pad, checksum);
    let c = seq![','];
    let body = seq!['0'] + c + f1 + c + f2 + c + f3 + c + f4 + c + f5;
    let line = framecrc_packet_line(pads, dts, pts, duration, size, zero_pad, checksum, rest);
    // The whole line loses its newline and whatever whitespace ends `rest`.
    assert(line == body + rest + seq!['\n']);
    assert(body.last() == f5.last());
    assert(trim_start(line) == line);
    assert(line.drop_last() == body + rest);
    lemma_trim_end_concat(body, rest);
    let tail = trim_end(rest);
    assert(trim(line) == body + tail);
    lemma_trim_end_prefix(rest);
    lemma_split_six(f1, f2, f3, f4, f5, tail);
    assert(body + tail == seq!['0'] + c + f1 + c + f2 + c + f3 + c + f4 + c + f5 + tail);
    let f = packet_fields(line);
    assert(f[0] == trim(seq!['0']));
    assert(f[1] == trim(f1));
    assert(f[2] == trim(f2));
    assert(f[3] == trim(f3));
    assert(f[4] == trim(f4));
    assert(f[5] == trim(f5));
}



/// What a received text line means to the reader.
#[derive(Clone, Copy, Debug, PartialEq, Eq, Structural)]
pub enum LineEvent {
    /// A clean end of the stream after complete headers.
    EndOfStream,
    /// A stream header was accepted; read the next line.
    Header,
    /// A packet follows: read exactly `size` bytes and check them against
    /// `checksum`.
    Packet { size: usize, checksum: u32 },
}

/// Reader state: which of the four mandatory headers (codec 1, media type 2,
/// dimensions 4, time base 8) were seen, how many header lines arrived,
/// whether packets started, and the timing of the latest packet.
pub struct FramedAnnexB {
    codec: Codec,
    headers: u8,
    header_count: usize,
    started: bool,
    previous_dts: Option<i64>,
    time_base: Option<(u32, u32)>,
    current_pts: Option<i64>,
}

pub struct FramingState {
    pub codec: Codec,
    pub headers: u8,
    pub header_count: nat,
    pub started: bool,
    pub previous_dts: Option<i64>,
    pub time_base: Option<(u32, u32)>,
    pub current_pts: Option<i64>,
}

impl View for FramedAnnexB {
    type V = FramingState;

    closed spec fn view(&self) -> FramingState {
        FramingState {
            codec: self.codec,
            headers: self.headers,
            header_count: self.header_count as nat,
            started: self.started,
            previous_dts: self.previous_dts,
            time_base: self.time_base,
            current_pts: self.current_pts,
        }
    }
}

/// Header lines are counted up to one past the limit; any further header
/// line is refused for the same reason.
pub open spec fn framing_inv(v: FramingState) -> bool {
    v.header_count <= MAX_HEADERS + 1
}

/// Classify a header key: the bit it sets, after checking its value.
pub open spec fn header_bit(v: FramingState, key: Seq<char>, value: Seq<char>) -> (FramingState, Result<u8, FramingError>) {
    if key == "#codec_id 0"@ {
        if value == wire_name_spec(v.codec) {
            (v, Ok(1u8))
        } else {
            (v, Err(FramingError::CodecMismatch))
        }
    } else if key == "#media_type 0"@ {
        if value == "video"@ {
            (v, Ok(2u8))
        } else {
            (v, Err(FramingError::ExpectedVideo))
        }
    } else if key == "#dimensions 0"@ {
        match dimensions_spec(value) {
            Ok(_) => (v, Ok(4u8)),
            Err(e) => (v, Err(e)),
        }
    } else if key == "#tb 0"@ {
        match time_base_spec(value) {
            Ok(tb) => (FramingState { time_base: Some(tb), ..v }, Ok(8u8)),
            Err(e) => (v, Err(e)),
        }
    } else if key == "#software"@ || key == "#sar 0"@ {
        (v, Ok(0u8))
    } else if key == "#extradata 0"@ {
        match extradata_spec(value) {
            Ok(_) => (v, Ok(0u8)),
            Err(e) => (v, Err(e)),
        }
    } else {
        (v, Err(FramingError::UnexpectedHeader))
    }
}

/// A `#KEY: VALUE` header line: refused after the first packet and beyond
/// the header limit; known keys are checked, and each mandatory header may
/// appear only once.
pub open spec fn header_next(v: FramingState, line: Seq<u8>) -> (FramingState, Result<(), FramingError>) {
    if v.started {
        (v, Err(FramingError::HeaderAfterPacket))
    } else {
        let v1 = FramingState {
            header_count: if v.header_count <= MAX_HEADERS { v.header_count + 1 } else { v.header_count },
            ..v
        };
        if v1.header_count > MAX_HEADERS {
            (v1, Err(FramingError::TooManyHeaders))
        } else if !valid_utf8(line) {
            (v1, Err(FramingError::InvalidUtf8))
        } else {
            match split_once(trim_end(decode_utf8(line)), ':') {
                None => (v1, Err(FramingError::MalformedHeader)),
                Some(p) => {
                    let (v2, bit) = header_bit(v1, p.0, trim(p.1));
                    match bit {
                        Err(e) => (v2, Err(e)),
                        Ok(b) => if v2.headers & b != 0 {
                            (v2, Err(FramingError::DuplicateHeader))
                        } else {
                            (FramingState { headers: v2.headers | b, ..v2 }, Ok(()))
                        },
                    }
                },
            }
        }
    }
}

/// One received line: the empty line is the end of the stream, `#` starts a
/// header, anything else announces a packet, whose DTS must increase.
pub open spec fn line_next(v: FramingState, line: Seq<u8>) -> (FramingState, Result<LineEvent, FramingError>) {
    if line.len() == 0 {
        if v.headers == 15 {
            (v, Ok(LineEvent::EndOfStream))
        } else {
            (v, Err(FramingError::MissingStreamHeader))
        }
    } else if line[0] == 35u8 {
        let (v2, r) = header_next(v, line);
        match r {
            Ok(_) => (v2, Ok(LineEvent::Header)),
            Err(e) => (v2, Err(e)),
        }
    } else if v.headers != 15 {
        (v, Err(FramingError::IncompleteStreamHeader))
    } else {
        let v1 = FramingState { started: true, ..v };
        match packet_header_spec(line) {
            Err(e) => (v1, Err(e)),
            Ok(h) => {
                let (size, checksum, dts, pts) = h;
                if v.previous_dts matches Some(prev) && dts <= prev {
                    (v1, Err(FramingError::NonmonotonicPacket))
                } else {
                    (
                        FramingState {
                            previous_dts: Some(dts),
                            current_pts: if dts == pts { Some(pts) } else { None },
                            ..v1
                        },
                        Ok(LineEvent::Packet { size, checksum }),
                    )
                }
            },
        }
    }
}

impl FramedAnnexB {
    pub fn new(codec: Codec) -> (r: Self)
        ensures
            r@ == (FramingState {
                codec,
                headers: 0,
                header_count: 0,
                started: false,
                previous_dts: None,
                time_base: None,
                current_pts: None,
            }),
            framing_inv(r@),
    {
        FramedAnnexB {
            codec,
            headers: 0,
            header_count: 0,
            started: false,
            previous_dts: None,
            time_base: None,
            current_pts: None,
        }
    }

    /// The time base announced by the `#tb 0` header.
    pub fn time_base(&self) -> (r: Option<(u32, u32)>)
        ensures
            r == self@.time_base,
    {
        self.time_base
    }

    /// The latest packet's presentation time, when it equals its decoding
    /// time.
    pub fn current_pts(&self) -> (r: Option<i64>)
        ensures
            r == self@.current_pts,
    {
        self.current_pts
    }

    fn key_is(key: &[char], name: &str) -> (r: bool)
        ensures
            r == (key@ == name@),
    {
        let expected = text_chars(name);
        chars_eq(key, expected.as_slice())
    }

    fn header_bit(&mut self, key: &[char], value: &[char]) -> (r: Result<u8, FramingError>)
        ensures
            (final(self)@, r) == header_bit(old(self)@, key@, value@),
    {
        if Self::key_is(key, "#codec_id 0") {
            let name = self.codec.wire_name();
            if chars_eq(value, name.as_slice()) {
                Ok(1)
            } else {
                Err(FramingError::CodecMismatch)
            }
        } else if Self::key_is(key, "#media_type 0") {
            if Self::key_is(value, "video") {
                Ok(2)
            } else {
                Err(FramingError::ExpectedVideo)
            }
        } else if Self::key_is(key, "#dimensions 0") {
            match dimensions(value) {
                Ok(_) => Ok(4),
                Err(e) => Err(e),
            }
        } else if Self::key_is(key, "#tb 0") {
            match time_base(value) {
                Ok(tb) => {
                    self.time_base = Some(tb);
                    Ok(8)
                },
                Err(e) => Err(e),
            }
        } else if Self::key_is(key, "#software") || Self::key_is(key, "#sar 0") {
            Ok(0)
        } else if Self::key_is(key, "#extradata 0") {
            match extradata(value) {
                Ok(_) => Ok(0),
                Err(e) => Err(e),
            }
        } else {
            Err(FramingError::UnexpectedHeader)
        }
    }

    /// Apply one `#` header line.
    pub fn header(&mut self, line: &[u8]) -> (r: Result<(), FramingError>)
        requires
            framing_inv(old(self)@),
        ensures
            (final(self)@, r) == header_next(old(self)@, line@),
            framing_inv(final(self)@),
    {
        if self.started {
            return Err(FramingError::HeaderAfterPacket);
        }
        if self.header_count <= MAX_HEADERS {
            self.header_count = self.header_count + 1;
        }
        if self.header_count > MAX_HEADERS {
            return Err(FramingError::TooManyHeaders);
        }
        let text = match decode_line(line) {
            Some(t) => t,
            None => {
                return Err(FramingError::InvalidUtf8);
            },
        };
        let (key, value) = match split_once_chars(trim_end_chars(text.as_slice()), ':') {
            Some(p) => p,
            None => {
                return Err(FramingError::MalformedHeader);
            },
        };
        let value = trim_chars(value);
        let bit = match self.header_bit(key, value) {
            Ok(b) => b,
            Err(e) => {
                return Err(e);
            },
        };
        if self.headers & bit != 0 {
            return Err(FramingError::DuplicateHeader);
        }
        self.headers = self.headers | bit;
        Ok(())
    }

    /// Apply one received line and say what the caller reads next.
    pub fn on_line(&mut self, line: &[u8]) -> (r: Result<LineEvent, FramingError>)
        requires
            framing_inv(old(self)@),
        ensures
            (final(self)@, r) == line_next(old(self)@, line@),
            framing_inv(final(self)@),
    {
        if line.len() == 0 {
            if self.headers == 15 {
                return Ok(LineEvent::EndOfStream);
            } else {
                return Err(FramingError::MissingStreamHeader);
            }
        }
        if line[0] == 35u8 {
            return match self.header(line) {
                Ok(()) => Ok(LineEvent::Header),
                Err(e) => Err(e),
            };
        }
        if self.headers != 15 {
            return Err(FramingError::IncompleteStreamHeader);
        }
        self.started = true;
        let (size, checksum, dts, pts) = match packet_header(line) {
            Ok(h) => h,
            Err(e) => {
                return Err(e);
            },
        };
        if let Some(prev) = self.previous_dts {
            if dts <= prev {
                return Err(FramingError::NonmonotonicPacket);
            }
        }
        self.previous_dts = Some(dts);
        self.current_pts = if dts == pts { Some(pts) } else { None };
        Ok(LineEvent::Packet { size, checksum })
    }
}


/// Adler-32 modulus.
pub open spec fn adler_mod() -> nat {
    65521
}

/// Adler-32 running sums after `s`, starting from zero sums.
pub open spec fn adler_sums(s: Seq<u8>) -> (nat, nat)
    decreases s.len(),
{
    if s.len() == 0 {
        (0, 0)
    } else {
        let prev = adler_sums(s.drop_last());
        let a: nat = ((prev.0 + (s.last() as nat)) as nat) % adler_mod();
        let b: nat = ((prev.1 + a) as nat) % adler_mod();
        (a, b)
    }
}

/// Adler-32 of `s` with a zero seed, as `framecrc` writes it.
pub open spec fn adler_zero_seed(s: Seq<u8>) -> u32 {
    let sums = adler_sums(s);
    (sums.1 * 65536 + sums.0) as u32
}

/// `simd_adler32::Adler32::from_checksum(0)`, `write` and `finish`: the
/// Adler-32 sums of the data from zero starting sums, `b << 16 | a`.
#[verifier::external_body]
fn adler(data: &[u8]) -> (r: u32)
    ensures
        r == adler_zero_seed(data@),
{
    let mut state = simd_adler32::Adler32::from_checksum(0);
    state.write(data);
    state.finish()
}

/// Check a received packet against the checksum its line announced.
pub fn check_payload(payload: &[u8], checksum: u32) -> (r: Result<(), FramingError>)
    ensures
        r is Ok <==> adler_zero_seed(payload@) == checksum,
        r is Err ==> r == Err::<(), FramingError>(FramingError::ChecksumMismatch),
{
    if adler(payload) == checksum {
        Ok(())
    } else {
        Err(FramingError::ChecksumMismatch)
    }
}

/// The first newline in `s`.
pub open spec fn first_newline(s: Seq<u8>) -> Option<int>
    decreases s.len(),
{
    if s.len() == 0 {
        None
    } else if s[0] == 10u8 {
        Some(0)
    } else {
        match first_newline(s.drop_first()) {
            Some(i) => Some(i + 1),
            None => None,
        }
    }
}

/// How many buffered bytes a line read takes: through the first newline, or
/// everything when there is none.
pub open spec fn line_take(available: Seq<u8>) -> int {
    match first_newline(available) {
        Some(i) => i + 1,
        None => available.len() as int,
    }
}

/// One step of reading a line from buffered input. With no buffered data the
/// input ended: cleanly if no partial line was read. Otherwise bytes up to
/// and including the first newline are appended, within the line limit; the
/// result says how many bytes were taken and whether the line is complete.
pub open spec fn line_step_spec(line: Seq<u8>, available: Seq<u8>) -> (Seq<u8>, Result<(usize, bool), FramingError>) {
    if available.len() == 0 {
        if line.len() == 0 {
            (line, Ok((0usize, true)))
        } else {
            (line, Err(FramingError::TruncatedPacketHeader))
        }
    } else {
        let n = line_take(available);
        if n > MAX_LINE - line.len() {
            (line, Err(FramingError::LineTooLong))
        } else {
            (line + available.subrange(0, n), Ok((n as usize, first_newline(available) is Some)))
        }
    }
}

proof fn lemma_first_newline(s: Seq<u8>)
    ensures
        first_newline(s) matches Some(i) ==> 0 <= i < s.len() && s[i] == 10u8 && forall|j: int|
            0 <= j < i ==> s[j] != 10u8,
        first_newline(s) is None ==> forall|j: int| 0 <= j < s.len() ==> s[j] != 10u8,
    decreases s.len(),
{
    if s.len() > 0 && s[0] != 10u8 {
        lemma_first_newline(s.drop_first());
        assert forall|j: int| 1 <= j < s.len() implies s[j] == s.drop_first()[j - 1] by {}
    }
}

proof fn lemma_first_newline_at(s: Seq<u8>, i: int)
    requires
        0 <= i <= s.len(),
        i < s.len() ==> s[i] == 10u8,
        forall|j: int| 0 <= j < i ==> s[j] != 10u8,
    ensures
        first_newline(s) == if i < s.len() { Some(i) } else { None::<int> },
    decreases s.len(),
{
    if s.len() > 0 && i > 0 {
        assert forall|j: int| 0 <= j < i - 1 implies s.drop_first()[j] != 10u8 by {
            assert(s.drop_first()[j] == s[j + 1]);
        }
        lemma_first_newline_at(s.drop_first(), i - 1);
    }
}

/// Read one step of a line from the buffered bytes `available`.
pub fn line_step(line: &mut Vec<u8>, available: &[u8]) -> (r: Result<(usize, bool), FramingError>)
    requires
        old(line)@.len() <= MAX_LINE,
    ensures
        (final(line)@, r) == line_step_spec(old(line)@, available@),
        final(line)@.len() <= MAX_LINE,
{
    if available.len() == 0 {
        if line.len() == 0 {
            return Ok((0, true));
        } else {
            return Err(FramingError::TruncatedPacketHeader);
        }
    }
    let mut i: usize = 0;
    while i < available.len() && available[i] != 10u8
        invariant
            i <= available@.len(),
            forall|j: int| 0 <= j < i ==> available@[j] != 10u8,
        decreases available@.len() - i,
    {
        i = i + 1;
    }
    proof {
        lemma_first_newline_at(available@, i as int);
    }
    let complete = i < available.len();
    let length = if complete { i + 1 } else { available.len() };
    if length > MAX_LINE - line.len() {
        return Err(FramingError::LineTooLong);
    }
    line.extend_from_slice(slice_subrange(available, 0, length));
    Ok((length, complete))
}

/// Packet timing: a packet line is accepted only after all four mandatory
/// headers, and its DTS is above that of every packet accepted before it.
pub proof fn lemma_accepted_packets_increase(v: FramingState, line: Seq<u8>)
    ensures
        line_next(v, line).1 matches Ok(LineEvent::Packet { .. }) ==> {
            let next = line_next(v, line).0;
            &&& v.headers == 15
            &&& next.started
            &&& next.previous_dts is Some
            &&& (v.previous_dts matches Some(p) ==> next.previous_dts->0 > p)
        },
{
}

/// Once a packet has been read, every header line is refused and the reader
/// stays in the packet phase.
pub proof fn lemma_no_header_after_packet(v: FramingState, line: Seq<u8>)
    requires
        v.started,
    ensures
        line_next(v, line).0.started,
        line.len() > 0 && line[0] == 35u8 ==> line_next(v, line).1 == Err::<LineEvent, FramingError>(
            FramingError::HeaderAfterPacket,
        ),
{
}

/// How far into the stream the decoder configuration is looked for.
pub const CONFIG_SEARCH_BYTES: u64 = 1048576;

/// Publish the decoder configuration once, as soon as the packetizer has
/// one; after `CONFIG_SEARCH_BYTES` of stream without one, stop looking.
/// `extracted` records that the search is over; the result is what to
/// publish now.
pub fn publish_initial_codec_config(config: Option<Vec<u8>>, extracted: &mut bool, total: u64) -> (r: Option<Vec<u8>>)
    ensures
        *old(extracted) ==> r is None && *final(extracted),
        !*old(extracted) ==> match config {
            Some(c) => r == Some(c) && *final(extracted),
            None => r is None && *final(extracted) == (total > CONFIG_SEARCH_BYTES),
        },
{
    if !*extracted {
        match config {
            Some(c) => {
                *extracted = true;
                return Some(c);
            },
            None => {
                if total > CONFIG_SEARCH_BYTES {
                    *extracted = true;
                }
            },
        }
    }
    None
}

} // verus!
