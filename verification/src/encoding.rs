//! The encoders the host knows by name: the FFmpeg encoder each one drives
//! and the codec it produces.
use vstd::prelude::*;
use crate::annex_b::Codec;
use crate::text::{chars_of, contains_sub, str_eq};

verus! {

/// A known encoder setting.
#[derive(Clone, Copy, Debug, PartialEq, Eq, Structural)]
pub enum Encoder {
    H264Nvenc,
    HevcNvenc,
    H264Vaapi,
    H264VaapiBaseline,
    VaapiH264Enc,
    HevcVaapi,
    Libx264,
    LibvpxVp9,
    LibaomAv1,
}

/// The encoder a setting names, if it is one the host knows.
pub open spec fn find_spec(name: Seq<char>) -> Option<Encoder> {
    if name == "h264_nvenc"@ {
        Some(Encoder::H264Nvenc)
    } else if name == "hevc_nvenc"@ {
        Some(Encoder::HevcNvenc)
    } else if name == "h264_vaapi"@ {
        Some(Encoder::H264Vaapi)
    } else if name == "h264_vaapi_baseline"@ {
        Some(Encoder::H264VaapiBaseline)
    } else if name == "vaapih264enc"@ {
        Some(Encoder::VaapiH264Enc)
    } else if name == "hevc_vaapi"@ {
        Some(Encoder::HevcVaapi)
    } else if name == "libx264"@ {
        Some(Encoder::Libx264)
    } else if name == "libvpx-vp9"@ {
        Some(Encoder::LibvpxVp9)
    } else if name == "libaom-av1"@ {
        Some(Encoder::LibaomAv1)
    } else {
        None
    }
}

/// The FFmpeg encoder that a known setting drives: the baseline profile and
/// the GStreamer-style alias both drive FFmpeg's VAAPI H.264 encoder.
pub open spec fn ffmpeg_spec(e: Encoder) -> Seq<char> {
    match e {
        Encoder::H264Nvenc => "h264_nvenc"@,
        Encoder::HevcNvenc => "hevc_nvenc"@,
        Encoder::H264Vaapi => "h264_vaapi"@,
        Encoder::H264VaapiBaseline => "h264_vaapi"@,
        Encoder::VaapiH264Enc => "h264_vaapi"@,
        Encoder::HevcVaapi => "hevc_vaapi"@,
        Encoder::Libx264 => "libx264"@,
        Encoder::LibvpxVp9 => "libvpx-vp9"@,
        Encoder::LibaomAv1 => "libaom-av1"@,
    }
}

pub open spec fn codec_spec(e: Encoder) -> Codec {
    match e {
        Encoder::HevcNvenc | Encoder::HevcVaapi => Codec::Hevc,
        Encoder::LibvpxVp9 => Codec::Vp9,
        Encoder::LibaomAv1 => Codec::Av1,
        _ => Codec::H264,
    }
}

/// The FFmpeg encoder name for a setting; a name the host does not know is
/// passed to FFmpeg as it is.
pub open spec fn ffmpeg_name_spec(name: Seq<char>) -> Seq<char> {
    match find_spec(name) {
        Some(e) => ffmpeg_spec(e),
        None => name,
    }
}

/// The codec a setting produces; H.264 for a name the host does not know.
pub open spec fn codec_of_spec(name: Seq<char>) -> Codec {
    match find_spec(name) {
        Some(e) => codec_spec(e),
        None => Codec::H264,
    }
}

pub fn find(name: &str) -> (r: Option<Encoder>)
    ensures
        r == find_spec(name@),
{
    if str_eq(name, "h264_nvenc") {
        Some(Encoder::H264Nvenc)
    } else if str_eq(name, "hevc_nvenc") {
        Some(Encoder::HevcNvenc)
    } else if str_eq(name, "h264_vaapi") {
        Some(Encoder::H264Vaapi)
    } else if str_eq(name, "h264_vaapi_baseline") {
        Some(Encoder::H264VaapiBaseline)
    } else if str_eq(name, "vaapih264enc") {
        Some(Encoder::VaapiH264Enc)
    } else if str_eq(name, "hevc_vaapi") {
        Some(Encoder::HevcVaapi)
    } else if str_eq(name, "libx264") {
        Some(Encoder::Libx264)
    } else if str_eq(name, "libvpx-vp9") {
        Some(Encoder::LibvpxVp9)
    } else if str_eq(name, "libaom-av1") {
        Some(Encoder::LibaomAv1)
    } else {
        None
    }
}

impl Encoder {
    pub fn ffmpeg(&self) -> (r: &'static str)
        ensures
            r@ == ffmpeg_spec(*self),
    {
        match self {
            Encoder::H264Nvenc => "h264_nvenc",
            Encoder::HevcNvenc => "hevc_nvenc",
            Encoder::H264Vaapi => "h264_vaapi",
            Encoder::H264VaapiBaseline => "h264_vaapi",
            Encoder::VaapiH264Enc => "h264_vaapi",
            Encoder::HevcVaapi => "hevc_vaapi",
            Encoder::Libx264 => "libx264",
            Encoder::LibvpxVp9 => "libvpx-vp9",
            Encoder::LibaomAv1 => "libaom-av1",
        }
    }

    pub fn codec(&self) -> (r: Codec)
        ensures
            r == codec_spec(*self),
    {
        match self {
            Encoder::HevcNvenc | Encoder::HevcVaapi => Codec::Hevc,
            Encoder::LibvpxVp9 => Codec::Vp9,
            Encoder::LibaomAv1 => Codec::Av1,
            _ => Codec::H264,
        }
    }
}

/// The FFmpeg encoder name for a setting.
pub fn ffmpeg_encoder_name(name: &str) -> (r: Vec<char>)
    ensures
        r@ == ffmpeg_name_spec(name@),
{
    match find(name) {
        Some(e) => chars_of(e.ffmpeg()),
        None => chars_of(name),
    }
}

/// The codec a setting produces.
pub fn codec_from_encoder(name: &str) -> (r: Codec)
    ensures
        r == codec_of_spec(name@),
{
    match find(name) {
        Some(e) => e.codec(),
        None => Codec::H264,
    }
}

/// `auto` and every known encoder can be built; anything else is refused
/// with the name it was given.
pub fn validate_encoder_for_build(name: &str) -> (r: Result<(), String>)
    ensures
        r is Ok <==> (name@ == "auto"@ || find_spec(name@) is Some),
        r matches Err(e) ==> e@ == "Unknown encoder: "@ + name@,
{
    if str_eq(name, "auto") {
        return Ok(());
    }
    match find(name) {
        Some(_) => Ok(()),
        None => {
            let mut e = "Unknown encoder: ".to_owned();
            e.append(name);
            Err(e)
        },
    }
}

/// The decoder configuration an encoder's packet carries, for the codec
/// that the named encoder produces.
pub fn refresh_codec_config(data: &[u8], encoder_name: &str) -> (r: Option<Vec<u8>>)
    ensures
        r matches Some(v) ==> crate::annex_b::parameter_sets_spec(data@, codec_of_spec(encoder_name@))
            == Some(v@),
        r is None <==> crate::annex_b::parameter_sets_spec(data@, codec_of_spec(encoder_name@)) is None,
{
    crate::annex_b::extract_parameter_sets(data, codec_from_encoder(encoder_name))
}

/// The part of an FFmpeg encoder's name that names the codec it produces.
pub open spec fn codec_token(c: Codec) -> Seq<char> {
    match c {
        Codec::H264 => "264"@,
        Codec::Hevc => "hevc"@,
        Codec::Vp9 => "vp9"@,
        Codec::Av1 => "av1"@,
    }
}

/// Codec law: every known encoder produces the codec its FFmpeg encoder
/// name names, and its name names no other codec.
pub proof fn lemma_codec_named_by_encoder(e: Encoder)
    ensures
        contains_sub(ffmpeg_spec(e), codec_token(codec_spec(e))),
        forall|c: Codec| c != codec_spec(e) ==> !contains_sub(ffmpeg_spec(e), #[trigger] codec_token(c)),
{
    reveal_strlit("264");
    reveal_strlit("hevc");
    reveal_strlit("vp9");
    reveal_strlit("av1");
    reveal_strlit("h264_nvenc");
    reveal_strlit("hevc_nvenc");
    reveal_strlit("h264_vaapi");
    reveal_strlit("hevc_vaapi");
    reveal_strlit("libx264");
    reveal_strlit("libvpx-vp9");
    reveal_strlit("libaom-av1");
    let s = ffmpeg_spec(e);
    let own = codec_token(codec_spec(e));
    let (at, len) = match codec_spec(e) {
        Codec::H264 => (if e == Encoder::Libx264 { 4int } else { 1int }, 3int),
        Codec::Hevc => (0int, 4int),
        Codec::Vp9 => (7int, 3int),
        Codec::Av1 => (7int, 3int),
    };
    assert(s.subrange(at, at + len) =~= own);
    assert forall|c: Codec| c != codec_spec(e) implies !contains_sub(s, #[trigger] codec_token(c)) by {
        let pat = codec_token(c);
        assert forall|i: int| 0 <= i <= s.len() - pat.len() implies #[trigger] s.subrange(
            i,
            i + pat.len(),
        ) != pat by {
            let t = s.subrange(i, i + pat.len());
            assert(t[0] == s[i]);
            assert(t[1] == s[i + 1]);
            assert(t[2] == s[i + 2]);
            assert(s[i] != pat[0] || s[i + 1] != pat[1] || s[i + 2] != pat[2]);
        }
    }
}

} // verus!
