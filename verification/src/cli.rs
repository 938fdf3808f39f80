//! Capture settings and the command line of the stock FFmpeg encoder that
//! reads raw NV12 frames from the capture FIFO.
use vstd::prelude::*;
use crate::annex_b::Codec;
use crate::number::{decimal, push_decimal};
use crate::probe_format::framed_spec;
use crate::text::{chars_of, chars_eq, has_suffix, split, split_chars, split_whitespace_chars, str_eq, words};

verus! {

/// Which edge of the existing desktop the virtual screen sits against.
#[derive(Clone, Copy, Debug, PartialEq, Eq, Structural)]
pub enum Position {
    Right,
    Left,
    Above,
    Below,
}

/// Encoder quality used when none is configured.
pub const DEFAULT_QUALITY: u32 = 23;

/// Settings of one capture pipeline.
#[derive(Clone, Debug)]
pub struct CaptureConfig {
    pub helper_path: String,
    /// Explicit EDID override; `None` generates one for the configured mode.
    pub edid_path: Option<String>,
    pub encoder: String,
    pub vaapi_device: String,
    pub fps: u32,
    pub bitrate: u32,
    pub width: u32,
    pub height: u32,
    pub quality: u32,
    pub width_mm: u32,
    pub height_mm: u32,
    pub stream_scale: u32,
    /// Maximum conversion participants including the caller; 0 = automatic.
    pub conversion_threads: u32,
    pub position: Position,
    pub ten_bit: bool,
    pub adaptive_idle: bool,
    /// Which tablet this pipeline serves (0 = the first).
    pub instance: u32,
    /// An explicit card pin; automatic sessions leave it unset.
    pub card: Option<u32>,
}

impl Default for CaptureConfig {
    fn default() -> (r: CaptureConfig)
        ensures
            r.helper_path@ == "host/evdi/evdi_helper"@,
            r.edid_path is None,
            r.encoder@ == "h264_nvenc"@,
            r.vaapi_device@ == "/dev/dri/renderD128"@,
            r.fps == 60,
            r.bitrate == 20000,
            r.width == 2960,
            r.height == 1848,
            r.quality == DEFAULT_QUALITY,
            r.width_mm == crate::edid::DEFAULT_WIDTH_MM,
            r.height_mm == crate::edid::DEFAULT_HEIGHT_MM,
            r.stream_scale == 1,
            r.conversion_threads == 0,
            r.position == Position::Right,
            !r.ten_bit,
            !r.adaptive_idle,
            r.instance == 0,
            r.card is None,
    {
        CaptureConfig {
            helper_path: "host/evdi/evdi_helper".to_owned(),
            edid_path: None,
            encoder: "h264_nvenc".to_owned(),
            vaapi_device: "/dev/dri/renderD128".to_owned(),
            fps: 60,
            bitrate: 20000,
            width: 2960,
            height: 1848,
            quality: DEFAULT_QUALITY,
            width_mm: crate::edid::DEFAULT_WIDTH_MM,
            height_mm: crate::edid::DEFAULT_HEIGHT_MM,
            stream_scale: 1,
            conversion_threads: 0,
            position: Position::Right,
            ten_bit: false,
            adaptive_idle: false,
            instance: 0,
            card: None,
        }
    }
}

/// Timestamp filter: rawvideo quantizes wall-clock timestamps to 1/fps, so
/// catch-up frames can share a timestamp and the realtime clock can step
/// back; a one-microsecond minimum step keeps their order.
pub const TIMING_FILTER: &'static str = "settb=1/1000000,setpts='if(isnan(PREV_OUTPTS),PTS,max(PTS,PREV_OUTPTS+1))'";

/// The `-vf` filter chain: timestamps, then the conversion and upload that
/// VAAPI and 10-bit output need.
pub open spec fn video_filter_spec(vaapi: bool, ten_bit: bool) -> Seq<char> {
    TIMING_FILTER@ + if vaapi && ten_bit {
        ",format=p010le,hwupload"@
    } else if vaapi {
        ",format=nv12,hwupload"@
    } else if ten_bit {
        ",format=p010le"@
    } else {
        Seq::empty()
    }
}

pub fn video_filter(vaapi: bool, ten_bit: bool) -> (r: String)
    ensures
        r@ == video_filter_spec(vaapi, ten_bit),
{
    let mut s = TIMING_FILTER.to_owned();
    if vaapi && ten_bit {
        s.append(",format=p010le,hwupload");
    } else if vaapi {
        s.append(",format=nv12,hwupload");
    } else if ten_bit {
        s.append(",format=p010le");
    }
    s
}

/// The FFmpeg muxer of a codec's elementary stream.
pub open spec fn muxer_spec(codec: Codec) -> Seq<char> {
    match codec {
        Codec::H264 => "h264"@,
        Codec::Hevc => "hevc"@,
        Codec::Vp9 => "ivf"@,
        Codec::Av1 => "ivf"@,
    }
}

pub fn muxer(codec: Codec) -> (r: &'static str)
    ensures
        r@ == muxer_spec(codec),
{
    match codec {
        Codec::H264 => "h264",
        Codec::Hevc => "hevc",
        Codec::Vp9 => "ivf",
        Codec::Av1 => "ivf",
    }
}

pub open spec fn arg_views(args: Seq<String>) -> Seq<Seq<char>> {
    args.map_values(|a: String| a@)
}

fn push_arg(args: &mut Vec<String>, a: &str)
    ensures
        arg_views(final(args)@) == arg_views(old(args)@).push(a@),
{
    let ghost before = args@;
    args.push(a.to_owned());
    assert(arg_views(args@) =~= arg_views(before).push(a@));
}

fn push_arg_chars(args: &mut Vec<String>, a: Vec<char>)
    ensures
        arg_views(final(args)@) == arg_views(old(args)@).push(a@),
{
    let ghost before = args@;
    args.push(crate::report::chars_to_string(a.as_slice()));
    assert(arg_views(args@) =~= arg_views(before).push(a@));
}

/// Key frames once a second, so that a decoder joining late waits at most
/// that long for a picture.
pub const KEY_FRAMES: &'static str = "expr:if(isnan(prev_forced_t),1,gte(t,prev_forced_t+1))";

/// The arguments that say how the raw input is to be read: fully specified
/// BT.709 limited-range NV12 at the mode's size and rate, probed no further.
pub open spec fn input_args(vaapi: bool, device: Seq<char>, w: u32, h: u32, fps: u32, fifo: Seq<char>) -> Seq<Seq<char>> {
    seq!["-hide_banner"@] + (if vaapi {
        seq!["-vaapi_device"@, device]
    } else {
        Seq::empty()
    }) + seq!["-probesize"@, "32"@, "-analyzeduration"@, "0"@] + seq![
        "-flags"@,
        "low_delay"@,
        "-color_primaries"@,
        "bt709"@,
        "-color_trc"@,
        "bt709"@,
        "-colorspace"@,
        "bt709"@,
        "-color_range"@,
        "tv"@,
        "-f"@,
        "rawvideo"@,
        "-pix_fmt"@,
        "nv12"@,
        "-s"@,
        decimal(w as nat) + "x"@ + decimal(h as nat),
        "-framerate"@,
        decimal(fps as nat),
        "-use_wallclock_as_timestamps"@,
        "1"@,
        "-i"@,
        fifo,
    ]
}

/// The full encoder command line: the input, the filter chain, the encoder
/// with passthrough timing and periodic key frames, its quality options, and
/// the elementary stream on standard output (flushed per packet when framed).
pub open spec fn encoder_args_spec(encoder: Seq<char>, codec: Codec, ten_bit: bool, device: Seq<char>, w: u32, h: u32, fps: u32, fifo: Seq<char>, quality: Seq<Seq<char>>) -> Seq<Seq<char>> {
    let vaapi = has_suffix(encoder, "_vaapi"@);
    input_args(vaapi, device, w, h, fps, fifo) + seq![
        "-vf"@,
        video_filter_spec(vaapi, ten_bit),
        "-enc_time_base"@,
        "1:1000000"@,
        "-c:v"@,
        encoder,
        "-fps_mode"@,
        "passthrough"@,
        "-force_key_frames"@,
        KEY_FRAMES@,
    ] + quality + (if framed_spec(codec) {
        seq!["-flush_packets"@, "1"@]
    } else {
        Seq::empty()
    }) + seq!["-f"@, muxer_spec(codec), "pipe:1"@]
}

fn input_arguments(args: &mut Vec<String>, vaapi: bool, device: &str, w: u32, h: u32, fps: u32, fifo: &str)
    ensures
        arg_views(final(args)@) == arg_views(old(args)@) + input_args(vaapi, device@, w, h, fps, fifo@),
{
    let ghost base = arg_views(args@);
    push_arg(args, "-hide_banner");
    if vaapi {
        push_arg(args, "-vaapi_device");
        push_arg(args, device);
    }
    push_arg(args, "-probesize");
    push_arg(args, "32");
    push_arg(args, "-analyzeduration");
    push_arg(args, "0");
    push_arg(args, "-flags");
    push_arg(args, "low_delay");
    push_arg(args, "-color_primaries");
    push_arg(args, "bt709");
    push_arg(args, "-color_trc");
    push_arg(args, "bt709");
    push_arg(args, "-colorspace");
    push_arg(args, "bt709");
    push_arg(args, "-color_range");
    push_arg(args, "tv");
    push_arg(args, "-f");
    push_arg(args, "rawvideo");
    push_arg(args, "-pix_fmt");
    push_arg(args, "nv12");
    push_arg(args, "-s");
    let mut size: Vec<char> = Vec::new();
    push_decimal(&mut size, w as u64);
    crate::text::push_str(&mut size, "x");
    push_decimal(&mut size, h as u64);
    push_arg_chars(args, size);
    push_arg(args, "-framerate");
    let mut rate: Vec<char> = Vec::new();
    push_decimal(&mut rate, fps as u64);
    push_arg_chars(args, rate);
    push_arg(args, "-use_wallclock_as_timestamps");
    push_arg(args, "1");
    push_arg(args, "-i");
    push_arg(args, fifo);
    assert(arg_views(args@) =~= base + input_args(vaapi, device@, w, h, fps, fifo@));
}

/// The encoder command line for an FFmpeg encoder producing `codec`, reading
/// `fifo`; `quality` holds the encoder's quality options as flag/value pairs.
pub fn encoder_arguments(encoder: &str, codec: Codec, ten_bit: bool, device: &str, w: u32, h: u32, fps: u32, fifo: &str, quality: &[String]) -> (r: Vec<String>)
    ensures
        arg_views(r@) == encoder_args_spec(
            encoder@,
            codec,
            ten_bit,
            device@,
            w,
            h,
            fps,
            fifo@,
            arg_views(quality@),
        ),
{
    let e = chars_of(encoder);
    let suffix = chars_of("_vaapi");
    let vaapi = crate::text::ends_with(e.as_slice(), suffix.as_slice());
    let mut args: Vec<String> = Vec::new();
    assert(arg_views(args@) =~= Seq::<Seq<char>>::empty());
    input_arguments(&mut args, vaapi, device, w, h, fps, fifo);
    let ghost mid = arg_views(args@);
    push_arg(&mut args, "-vf");
    let filter = video_filter(vaapi, ten_bit);
    push_arg(&mut args, filter.as_str());
    push_arg(&mut args, "-enc_time_base");
    push_arg(&mut args, "1:1000000");
    push_arg(&mut args, "-c:v");
    push_arg(&mut args, encoder);
    push_arg(&mut args, "-fps_mode");
    push_arg(&mut args, "passthrough");
    push_arg(&mut args, "-force_key_frames");
    push_arg(&mut args, KEY_FRAMES);
    let ghost with_encoder = arg_views(args@);
    let mut k: usize = 0;
    while k < quality.len()
        invariant
            k <= quality@.len(),
            arg_views(args@) == with_encoder + arg_views(quality@).subrange(0, k as int),
        decreases quality@.len() - k,
    {
        push_arg(&mut args, quality[k].as_str());
        assert(arg_views(quality@).subrange(0, k + 1) =~= arg_views(quality@).subrange(
            0,
            k as int,
        ).push(quality@[k as int]@));
        k = k + 1;
    }
    assert(arg_views(quality@).subrange(0, quality@.len() as int) =~= arg_views(quality@));
    let ghost with_quality = arg_views(args@);
    if crate::probe_format::framed(codec) {
        push_arg(&mut args, "-flush_packets");
        push_arg(&mut args, "1");
    }
    push_arg(&mut args, "-f");
    push_arg(&mut args, muxer(codec));
    push_arg(&mut args, "pipe:1");
    assert(arg_views(args@) =~= encoder_args_spec(
        encoder@,
        codec,
        ten_bit,
        device@,
        w,
        h,
        fps,
        fifo@,
        arg_views(quality@),
    ));
    args
}


/// The first position of `key` among the arguments.
pub open spec fn first_position(args: Seq<Seq<char>>, key: Seq<char>) -> Option<int> {
    if exists|i: int| 0 <= i < args.len() && args[i] == key {
        Some(
            choose|i: int|
                0 <= i < args.len() && args[i] == key && forall|j: int|
                    0 <= j < i ==> args[j] != key,
        )
    } else {
        None
    }
}

/// The arguments without the first `-async_depth` option and its value.
pub open spec fn without_async_depth(args: Seq<Seq<char>>) -> Seq<Seq<char>> {
    match first_position(args, "-async_depth"@) {
        Some(i) => args.subrange(0, i) + args.subrange(i + 2, args.len() as int),
        None => args,
    }
}

/// The encoder command line for a capture pipeline: the configured encoder's
/// FFmpeg encoder and codec, 10-bit only for HEVC (the other encoders are
/// 8-bit), and without the optional `-async_depth` control when the installed
/// FFmpeg does not offer it. `fifo` is the pipeline's capture FIFO and
/// `quality` the encoder's quality options.
pub open spec fn command_args_spec(config: CaptureConfig, w: u32, h: u32, async_depth_supported: bool, fifo: Seq<char>, quality: Seq<Seq<char>>) -> Seq<Seq<char>> {
    let encoder = crate::encoding::ffmpeg_name_spec(config.encoder@);
    let codec = crate::encoding::codec_of_spec(encoder);
    let ten_bit = config.ten_bit && codec == Codec::Hevc;
    let args = encoder_args_spec(
        encoder,
        codec,
        ten_bit,
        config.vaapi_device@,
        w,
        h,
        config.fps,
        fifo,
        quality,
    );
    if async_depth_supported {
        args
    } else {
        without_async_depth(args)
    }
}

/// Remove the first `-async_depth` option and its value.
fn drop_async_depth(input: Vec<String>) -> (r: Vec<String>)
    requires
        arg_views(input@).len() > 0,
        arg_views(input@).last() != "-async_depth"@,
    ensures
        arg_views(r@) == without_async_depth(arg_views(input@)),
{
    let mut args = input;
    let ghost all = arg_views(args@);
    let n = args.len();
    let mut i: usize = 0;
    while i < n
        invariant
            n == args@.len(),
            all == arg_views(args@),
            all == arg_views(input@),
            all.len() > 0,
            all.last() != "-async_depth"@,
            i <= n,
            forall|j: int| 0 <= j < i ==> all[j] != "-async_depth"@,
        decreases n - i,
    {
        if str_eq(args[i].as_str(), "-async_depth") {
            proof {
                let w = choose|k: int|
                    0 <= k < all.len() && all[k] == "-async_depth"@ && forall|j: int|
                        0 <= j < k ==> all[j] != "-async_depth"@;
                assert(all[i as int] == "-async_depth"@);
                if w < i {
                    assert(all[w] != "-async_depth"@);
                }
                if w > i {
                    assert(all[i as int] != "-async_depth"@);
                }
                assert(first_position(all, "-async_depth"@) == Some(i as int));
            }
            assert(i + 1 < n);
            args.remove(i);
            args.remove(i);
            assert(arg_views(args@) =~= all.subrange(0, i as int) + all.subrange(
                i + 2,
                all.len() as int,
            ));
            return args;
        }
        i = i + 1;
    }
    assert(first_position(all, "-async_depth"@) is None);
    args
}

pub fn command_arguments(config: &CaptureConfig, w: u32, h: u32, async_depth_supported: bool, fifo: &str, quality: &[String]) -> (r: Vec<String>)
    ensures
        arg_views(r@) == command_args_spec(*config, w, h, async_depth_supported, fifo@, arg_views(quality@)),
{
    let encoder_chars = crate::encoding::ffmpeg_encoder_name(config.encoder.as_str());
    let encoder = crate::report::chars_to_string(encoder_chars.as_slice());
    let codec = crate::encoding::codec_from_encoder(encoder.as_str());
    let ten_bit = config.ten_bit && codec == Codec::Hevc;
    let mut args = encoder_arguments(
        encoder.as_str(),
        codec,
        ten_bit,
        config.vaapi_device.as_str(),
        w,
        h,
        config.fps,
        fifo,
        quality,
    );
    if !async_depth_supported {
        proof {
            reveal_strlit("pipe:1");
            reveal_strlit("-async_depth");
        }
        assert(arg_views(args@).last() == "pipe:1"@);
        args = drop_async_depth(args);
    }
    args
}

/// The line's first whitespace-separated word is `option`.
pub open spec fn first_word_is(line: Seq<char>, option: Seq<char>) -> bool {
    words(line).len() > 0 && words(line)[0] == option
}

/// Some line of `text` begins with the word `option`, as FFmpeg's encoder
/// help lists each option at the start of a line.
pub open spec fn lists_option(text: Seq<char>, option: Seq<char>) -> bool {
    exists|i: int|
        0 <= i < split(text, '\n').len() && #[trigger] first_word_is(split(text, '\n')[i], option)
}

fn text_lists_option(text: &str, option: &str) -> (r: bool)
    ensures
        r == lists_option(text@, option@),
{
    let t = chars_of(text);
    let o = chars_of(option);
    let lines = split_chars(t.as_slice(), '\n');
    let ghost all = split(text@, '\n');
    assert(lines@.map_values(|p: &[char]| p@) == all);
    let mut i: usize = 0;
    while i < lines.len()
        invariant
            all == lines@.map_values(|p: &[char]| p@),
            all == split(text@, '\n'),
            o@ == option@,
            i <= lines@.len(),
            forall|j: int| 0 <= j < i ==> !first_word_is(#[trigger] all[j], option@),
        decreases lines@.len() - i,
    {
        let line = lines[i];
        assert(all[i as int] == line@);
        let ws = split_whitespace_chars(line);
        assert(ws@.map_values(|w: Vec<char>| w@) == words(line@));
        if ws.len() > 0 {
            assert(ws@.map_values(|w: Vec<char>| w@)[0] == ws@[0]@);
            if chars_eq(ws[0].as_slice(), o.as_slice()) {
                assert(first_word_is(all[i as int], option@));
                return true;
            }
        }
        i = i + 1;
    }
    false
}

/// Whether the installed FFmpeg takes `-async_depth` for this encoder: only
/// VAAPI encoders do, and only when the help of a successful
/// `ffmpeg -h encoder=NAME` run (`help`: its standard output and error; `None`
/// when the run failed) lists the option.
pub fn supports_async_depth(encoder: &str, help: Option<(&str, &str)>) -> (r: bool)
    ensures
        r == (has_suffix(encoder@, "_vaapi"@) && match help {
            Some(h) => lists_option(h.0@, "-async_depth"@) || lists_option(h.1@, "-async_depth"@),
            None => false,
        }),
{
    let e = chars_of(encoder);
    let suffix = chars_of("_vaapi");
    if !crate::text::ends_with(e.as_slice(), suffix.as_slice()) {
        return false;
    }
    match help {
        Some((out, err)) => text_lists_option(out, "-async_depth") || text_lists_option(err, "-async_depth"),
        None => false,
    }
}

} // verus!
