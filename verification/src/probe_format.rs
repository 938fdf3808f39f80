//! What a bounded sample of encoder output really is: the bytes handed to
//! `ffprobe`, and the profile, bit depth and level read back from its report.
use vstd::prelude::*;
use crate::annex_b::{wire_name_spec, Codec};
use crate::text::{chars_of, str_eq};

verus! {

/// Codecs carried in IVF frames rather than as an Annex B stream.
pub open spec fn framed_spec(codec: Codec) -> bool {
    codec == Codec::Vp9 || codec == Codec::Av1
}

pub fn framed(codec: Codec) -> (r: bool)
    ensures
        r == framed_spec(codec),
{
    codec == Codec::Vp9 || codec == Codec::Av1
}

/// The wire name of a profile, from the name `ffprobe` reports for it.
pub open spec fn profile_spec(codec: Codec, name: Seq<char>) -> Option<Seq<char>> {
    match codec {
        Codec::H264 => if name == "Constrained Baseline"@ {
            Some("constrained-baseline"@)
        } else if name == "Baseline"@ {
            Some("baseline"@)
        } else if name == "Main"@ {
            Some("main"@)
        } else if name == "High"@ {
            Some("high"@)
        } else {
            None
        },
        Codec::Hevc => if name == "Main"@ {
            Some("main"@)
        } else if name == "Main 10"@ {
            Some("main10"@)
        } else {
            None
        },
        Codec::Vp9 => if name == "Profile 0"@ {
            Some("profile0"@)
        } else if name == "Profile 2"@ {
            Some("profile2"@)
        } else {
            None
        },
        Codec::Av1 => if name == "Main"@ {
            Some("main"@)
        } else {
            None
        },
    }
}

pub fn profile(codec: Codec, name: &str) -> (r: Option<&'static str>)
    ensures
        r matches Some(p) ==> profile_spec(codec, name@) == Some(p@),
        r is None <==> profile_spec(codec, name@) is None,
{
    match codec {
        Codec::H264 => if str_eq(name, "Constrained Baseline") {
            Some("constrained-baseline")
        } else if str_eq(name, "Baseline") {
            Some("baseline")
        } else if str_eq(name, "Main") {
            Some("main")
        } else if str_eq(name, "High") {
            Some("high")
        } else {
            None
        },
        Codec::Hevc => if str_eq(name, "Main") {
            Some("main")
        } else if str_eq(name, "Main 10") {
            Some("main10")
        } else {
            None
        },
        Codec::Vp9 => if str_eq(name, "Profile 0") {
            Some("profile0")
        } else if str_eq(name, "Profile 2") {
            Some("profile2")
        } else {
            None
        },
        Codec::Av1 => if str_eq(name, "Main") {
            Some("main")
        } else {
            None
        },
    }
}

/// The level as the wire states it, from the number `ffprobe` reports: HEVC
/// reports thirty times the level (a value that is not a multiple of three is
/// no level), AV1 an index into the major.minor levels from 2.0 up.
pub open spec fn level_spec(codec: Codec, value: u64) -> Option<u32> {
    if value > u32::MAX {
        None
    } else {
        match codec {
            Codec::Hevc => if value % 3 == 0 {
                Some((value / 3) as u32)
            } else {
                None
            },
            Codec::Av1 => if value < 24 {
                Some((20 + (value / 4) * 10 + value % 4) as u32)
            } else {
                None
            },
            _ => Some(value as u32),
        }
    }
}

pub fn level(codec: Codec, value: u64) -> (r: Option<u32>)
    ensures
        r == level_spec(codec, value),
{
    if value > u32::MAX as u64 {
        return None;
    }
    let value = value as u32;
    match codec {
        Codec::Hevc => if value % 3 == 0 {
            Some(value / 3)
        } else {
            None
        },
        Codec::Av1 => if value < 24 {
            Some(20 + (value / 4) * 10 + value % 4)
        } else {
            None
        },
        _ => Some(value),
    }
}

/// Little-endian bytes of the low 16 and 32 bits of a number.
pub open spec fn le16(n: nat) -> Seq<u8> {
    seq![(n % 256) as u8, ((n / 256) % 256) as u8]
}

pub open spec fn le32(n: nat) -> Seq<u8> {
    seq![
        (n % 256) as u8,
        ((n / 256) % 256) as u8,
        ((n / 65536) % 256) as u8,
        ((n / 16777216) % 256) as u8,
    ]
}

/// An IVF file header for one frame at 60 fps, and that frame's header:
/// what `ffprobe` needs in front of a VP9 or AV1 frame.
pub open spec fn ivf_header(codec: Codec, width: u32, height: u32, len: nat) -> Seq<u8> {
    seq![0x44u8, 0x4B, 0x49, 0x46, 0, 0, 0x20, 0] + (if codec == Codec::Vp9 {
        seq![0x56u8, 0x50, 0x39, 0x30]
    } else {
        seq![0x41u8, 0x56, 0x30, 0x31]
    }) + le16(width as nat) + le16(height as nat) + le32(60) + le32(1) + le32(1) + le32(0) + le32(
        len,
    ) + seq![0u8, 0, 0, 0, 0, 0, 0, 0]
}

/// The sample handed to `ffprobe`: an IVF-framed frame for VP9 and AV1;
/// otherwise the decoder configuration, if any, then the frame.
pub open spec fn sample_spec(codec: Codec, width: u32, height: u32, data: Seq<u8>, config: Option<Seq<u8>>) -> Seq<u8> {
    (if framed_spec(codec) {
        ivf_header(codec, width, height, data.len())
    } else {
        match config {
            Some(c) => c,
            None => Seq::empty(),
        }
    }) + data
}

fn push_le32(out: &mut Vec<u8>, n: u64)
    ensures
        final(out)@ == old(out)@ + le32(n as nat),
{
    out.push((n % 256) as u8);
    out.push(((n / 256) % 256) as u8);
    out.push(((n / 65536) % 256) as u8);
    out.push(((n / 16777216) % 256) as u8);
}

pub fn sample(codec: Codec, width: u32, height: u32, data: &[u8], config: Option<&[u8]>) -> (r: Vec<u8>)
    ensures
        r@ == sample_spec(
            codec,
            width,
            height,
            data@,
            match config {
                Some(c) => Some(c@),
                None => None,
            },
        ),
{
    let mut bytes: Vec<u8> = Vec::new();
    if framed(codec) {
        bytes.push(0x44);
        bytes.push(0x4B);
        bytes.push(0x49);
        bytes.push(0x46);
        bytes.push(0);
        bytes.push(0);
        bytes.push(0x20);
        bytes.push(0);
        if codec == Codec::Vp9 {
            bytes.push(0x56);
            bytes.push(0x50);
            bytes.push(0x39);
            bytes.push(0x30);
        } else {
            bytes.push(0x41);
            bytes.push(0x56);
            bytes.push(0x30);
            bytes.push(0x31);
        }
        bytes.push((width % 256) as u8);
        bytes.push(((width / 256) % 256) as u8);
        bytes.push((height % 256) as u8);
        bytes.push(((height / 256) % 256) as u8);
        push_le32(&mut bytes, 60);
        push_le32(&mut bytes, 1);
        push_le32(&mut bytes, 1);
        push_le32(&mut bytes, 0);
        push_le32(&mut bytes, data.len() as u64);
        let mut k: usize = 0;
        while k < 8
            invariant
                k <= 8,
                bytes@ == ivf_header(codec, width, height, data@.len()).subrange(0, 36 + k as int),
            decreases 8 - k,
        {
            bytes.push(0);
            k = k + 1;
            assert(bytes@ == ivf_header(codec, width, height, data@.len()).subrange(
                0,
                36 + k as int,
            ));
        }
        assert(ivf_header(codec, width, height, data@.len()).subrange(0, 44) == ivf_header(
            codec,
            width,
            height,
            data@.len(),
        ));
    } else {
        match config {
            Some(c) => bytes.extend_from_slice(c),
            None => {},
        }
    }
    bytes.extend_from_slice(data);
    bytes
}

/// One stream of `ffprobe`'s JSON report; a field that is absent or of
/// another JSON type is `None`.
pub struct ProbeStream {
    pub codec_name: Option<String>,
    pub width: Option<u64>,
    pub height: Option<u64>,
    pub profile: Option<String>,
    pub level: Option<u64>,
    pub pix_fmt: Option<String>,
}

/// The format the encoder's output was observed to have.
#[derive(Debug)]
pub struct StreamProfile {
    pub codec: String,
    pub profile: String,
    pub depth: u32,
    pub level: u32,
}

/// Why a probe report cannot vouch for a format.
#[derive(Clone, Copy, Debug, PartialEq, Eq, Structural)]
pub enum ProbeError {
    MissingStreams,
    AmbiguousStreams,
    UnexpectedCodec,
    UnexpectedGeometry,
    MissingProfile,
    UnknownProfile,
    UnsupportedPixelFormat,
    MissingLevel,
    UnknownLevel,
}

/// Bit depth of a 4:2:0 pixel format.
pub open spec fn depth_spec(pix_fmt: Option<Seq<char>>) -> Option<u32> {
    match pix_fmt {
        Some(f) => if f == "yuv420p"@ || f == "nv12"@ {
            Some(8)
        } else if f == "yuv420p10le"@ || f == "p010le"@ {
            Some(10)
        } else {
            None
        },
        None => None,
    }
}

pub open spec fn opt_string(o: Option<String>) -> Option<Seq<char>> {
    match o {
        Some(s) => Some(s@),
        None => None,
    }
}

/// The outcome of reading a probe report: exactly one stream, of the
/// expected codec and size, with a known profile, a 4:2:0 pixel format and a
/// known level; the first check that fails is the error.
pub open spec fn probe_result(streams: Option<Seq<ProbeStream>>, codec: Codec, width: u32, height: u32) -> Result<(Seq<char>, u32, u32), ProbeError> {
    match streams {
        None => Err(ProbeError::MissingStreams),
        Some(ss) => if ss.len() != 1 {
            Err(ProbeError::AmbiguousStreams)
        } else if opt_string(ss[0].codec_name) != Some(wire_name_spec(codec)) {
            Err(ProbeError::UnexpectedCodec)
        } else if !(ss[0].width == Some(width as u64) && ss[0].height == Some(height as u64)) {
            Err(ProbeError::UnexpectedGeometry)
        } else {
            match opt_string(ss[0].profile) {
                None => Err(ProbeError::MissingProfile),
                Some(name) => match profile_spec(codec, name) {
                    None => Err(ProbeError::UnknownProfile),
                    Some(p) => match depth_spec(opt_string(ss[0].pix_fmt)) {
                        None => Err(ProbeError::UnsupportedPixelFormat),
                        Some(depth) => match ss[0].level {
                            None => Err(ProbeError::MissingLevel),
                            Some(l) => match level_spec(codec, l) {
                                None => Err(ProbeError::UnknownLevel),
                                Some(lv) => Ok((p, depth, lv)),
                            },
                        },
                    },
                },
            }
        },
    }
}

fn opt_is(o: &Option<String>, s: &str) -> (r: bool)
    ensures
        r == (opt_string(*o) == Some(s@)),
{
    match o {
        Some(v) => str_eq(v.as_str(), s),
        None => false,
    }
}

pub fn check_probe(streams: Option<&[ProbeStream]>, codec: Codec, width: u32, height: u32) -> (r: Result<StreamProfile, ProbeError>)
    ensures
        match probe_result(
            match streams {
                Some(s) => Some(s@),
                None => None,
            },
            codec,
            width,
            height,
        ) {
            Ok((p, depth, lv)) => r matches Ok(sp) && sp.codec@ == wire_name_spec(codec) && sp.profile@
                == p && sp.depth == depth && sp.level == lv,
            Err(e) => r == Err::<StreamProfile, ProbeError>(e),
        },
{
    let ss = match streams {
        None => return Err(ProbeError::MissingStreams),
        Some(s) => s,
    };
    if ss.len() != 1 {
        return Err(ProbeError::AmbiguousStreams);
    }
    let stream = &ss[0];
    let wire = codec.wire_name();
    let named = match &stream.codec_name {
        Some(n) => {
            let c = chars_of(n.as_str());
            crate::text::chars_eq(c.as_slice(), wire.as_slice())
        },
        None => false,
    };
    if !named {
        return Err(ProbeError::UnexpectedCodec);
    }
    if !(stream.width == Some(width as u64) && stream.height == Some(height as u64)) {
        return Err(ProbeError::UnexpectedGeometry);
    }
    let name = match &stream.profile {
        None => return Err(ProbeError::MissingProfile),
        Some(n) => n.as_str(),
    };
    let p = match profile(codec, name) {
        None => return Err(ProbeError::UnknownProfile),
        Some(p) => p,
    };
    let depth: u32 = if opt_is(&stream.pix_fmt, "yuv420p") || opt_is(&stream.pix_fmt, "nv12") {
        8
    } else if opt_is(&stream.pix_fmt, "yuv420p10le") || opt_is(&stream.pix_fmt, "p010le") {
        10
    } else {
        return Err(ProbeError::UnsupportedPixelFormat);
    };
    let l = match stream.level {
        None => return Err(ProbeError::MissingLevel),
        Some(l) => l,
    };
    let lv = match level(codec, l) {
        None => return Err(ProbeError::UnknownLevel),
        Some(lv) => lv,
    };
    Ok(StreamProfile { codec: codec.wire_str().to_owned(), profile: p.to_owned(), depth, level: lv })
}

} // verus!
