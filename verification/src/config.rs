//! Host settings as the configuration file holds them, their defaults and the
//! limits that runtime clamps them to.
use vstd::prelude::*;

verus! {

/// Lowest and highest bitrate the encoders are driven at, in kbit/s.
pub const MIN_BITRATE_KBPS: u32 = 1000;
pub const MAX_BITRATE_KBPS: u32 = 60000;
/// Lowest and highest stream frame rate; the generated EDID advertises the same range.
pub const MIN_FPS: u32 = 10;
pub const MAX_FPS: u32 = 90;
/// Most tablets served at once.
pub const MAX_TABLETS: u32 = 4;
/// Ports the tablet app connects to on its side of `adb reverse`.
pub const APP_VIDEO_PORT: u16 = 8890;
pub const APP_INPUT_PORT: u16 = 8891;

/// Host settings.
#[derive(Clone, Debug)]
pub struct FileConfig {
    pub encoder: String,
    pub ten_bit: bool,
    pub video_port: u16,
    pub input_port: u16,
    pub auto_resolution: bool,
    pub width: u32,
    pub height: u32,
    pub position: String,
    pub pen_only: bool,
    pub input_touch: bool,
    pub input_pen: bool,
    pub input_pointer: bool,
    pub bitrate: u32,
    pub fps: u32,
    pub max_tablets: u32,
    pub check_updates: bool,
}

/// `v` brought into `[lo, hi]`.
pub open spec fn clamp(v: u32, lo: u32, hi: u32) -> u32 {
    if v < lo {
        lo
    } else if v > hi {
        hi
    } else {
        v
    }
}

impl FileConfig {
    /// Settings of a fresh installation.
    pub open spec fn is_default(self) -> bool {
        &&& self.encoder@ == "auto"@
        &&& !self.ten_bit
        &&& self.video_port == APP_VIDEO_PORT
        &&& self.input_port == APP_INPUT_PORT
        &&& !self.auto_resolution
        &&& self.width == 2960
        &&& self.height == 1848
        &&& self.position@ == "right"@
        &&& !self.pen_only
        &&& self.input_touch
        &&& self.input_pen
        &&& self.input_pointer
        &&& self.bitrate == 20000
        &&& self.fps == 60
        &&& self.max_tablets == 1
        &&& self.check_updates
    }

    /// What runtime acts on: bitrate, frame rate and tablet slots clamped to
    /// their supported ranges, everything else as written.
    pub open spec fn sanitized(self) -> FileConfig {
        FileConfig {
            bitrate: clamp(self.bitrate, MIN_BITRATE_KBPS, MAX_BITRATE_KBPS),
            fps: clamp(self.fps, MIN_FPS, MAX_FPS),
            max_tablets: clamp(self.max_tablets, 1, MAX_TABLETS),
            ..self
        }
    }

    /// Clamp the numeric settings to the ranges runtime supports.
    pub fn sanitize(&mut self)
        ensures
            *final(self) == old(self).sanitized(),
    {
        self.bitrate = clamp_u32(self.bitrate, MIN_BITRATE_KBPS, MAX_BITRATE_KBPS);
        self.fps = clamp_u32(self.fps, MIN_FPS, MAX_FPS);
        self.max_tablets = clamp_u32(self.max_tablets, 1, MAX_TABLETS);
    }
}

fn clamp_u32(v: u32, lo: u32, hi: u32) -> (r: u32)
    ensures
        r == clamp(v, lo, hi),
{
    if v < lo {
        lo
    } else if v > hi {
        hi
    } else {
        v
    }
}

impl Default for FileConfig {
    fn default() -> (r: FileConfig)
        ensures
            r.is_default(),
    {
        FileConfig {
            encoder: "auto".to_owned(),
            ten_bit: false,
            video_port: APP_VIDEO_PORT,
            input_port: APP_INPUT_PORT,
            auto_resolution: false,
            width: 2960,
            height: 1848,
            position: "right".to_owned(),
            pen_only: false,
            input_touch: true,
            input_pen: true,
            input_pointer: true,
            bitrate: 20000,
            fps: 60,
            max_tablets: 1,
            check_updates: true,
        }
    }
}

/// Sanitizing twice is sanitizing once.
pub proof fn lemma_sanitize_idempotent(c: FileConfig)
    ensures
        c.sanitized().sanitized() == c.sanitized(),
{
}

} // verus!
