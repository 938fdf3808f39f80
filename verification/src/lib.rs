//! Verified core of the Blent host: Annex B bitstream scanning, encoded-stream
//! framing, EDID construction, and diagnostic decisions.
use vstd::prelude::*;

pub mod annex_b;
pub mod text;
pub mod number;
pub mod decode;
pub mod framing;
pub mod edid;
pub mod desktop;
pub mod fifo_reset;
pub mod frame_copy;
pub mod report;
pub mod config;
pub mod doctor;
pub mod encoding;
pub mod codecs;
pub mod probe_format;
pub mod cli;
pub mod device_tasks;
pub mod gpu;
pub mod probe_frame;
pub mod discovery;
pub mod helper;
pub mod controllers;
pub mod idle;
pub mod input;

verus! {

} // verus!
