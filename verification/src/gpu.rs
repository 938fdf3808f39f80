//! Opt-in X11 GPU capture: which connector it may attach to, the helper's
//! command line, and the one-way fallback to FIFO capture once it fails.
use vstd::prelude::*;
use crate::cli::{arg_views, CaptureConfig};
use crate::desktop::Desktop;
use crate::doctor::EvdiConnector;
use crate::number::{decimal, push_decimal};
use crate::text::str_eq;

verus! {

/// Why GPU capture cannot serve a pipeline.
#[derive(Clone, Copy, Debug, PartialEq, Eq, Structural)]
pub enum GpuError {
    RequiresX11,
    RequiresBaselineVaapi,
    RequiresOrdinaryCadence,
    NoOwnedCard,
    ConnectorAbsent,
    AmbiguousConnector,
}

/// The connected connectors of a card, in order.
pub open spec fn owned(cs: Seq<EvdiConnector>, card: u32) -> Seq<EvdiConnector>
    decreases cs.len(),
{
    if cs.len() == 0 {
        cs
    } else if cs.last().card == card && cs.last().connected {
        owned(cs.drop_last(), card).push(cs.last())
    } else {
        owned(cs.drop_last(), card)
    }
}

/// GPU capture needs X11, the VAAPI H.264 baseline profile, ordinary cadence
/// with 8-bit output, and exactly one connected connector on the card this
/// pipeline owns; it then reads that connector's EDID path.
pub open spec fn supported_connector_spec(config: CaptureConfig, card: Option<u32>, cs: Seq<EvdiConnector>, desktop: Desktop) -> Result<Seq<char>, GpuError> {
    if desktop != Desktop::X11 {
        Err(GpuError::RequiresX11)
    } else if config.encoder@ != "h264_vaapi_baseline"@ {
        Err(GpuError::RequiresBaselineVaapi)
    } else if config.adaptive_idle || config.ten_bit {
        Err(GpuError::RequiresOrdinaryCadence)
    } else {
        match card {
            None => Err(GpuError::NoOwnedCard),
            Some(c) => {
                let m = owned(cs, c);
                if m.len() == 0 {
                    Err(GpuError::ConnectorAbsent)
                } else if m.len() > 1 {
                    Err(GpuError::AmbiguousConnector)
                } else {
                    Ok("/sys/class/drm/card"@ + decimal(c as nat) + "-"@ + m[0].name@ + "/edid"@)
                }
            },
        }
    }
}

pub fn supported_connector(config: &CaptureConfig, card: Option<u32>, connectors: &[EvdiConnector], desktop: Desktop) -> (r: Result<String, GpuError>)
    ensures
        match supported_connector_spec(*config, card, connectors@, desktop) {
            Ok(p) => r matches Ok(s) && s@ == p,
            Err(e) => r == Err::<String, GpuError>(e),
        },
{
    if desktop != Desktop::X11 {
        return Err(GpuError::RequiresX11);
    }
    if !str_eq(config.encoder.as_str(), "h264_vaapi_baseline") {
        return Err(GpuError::RequiresBaselineVaapi);
    }
    if config.adaptive_idle || config.ten_bit {
        return Err(GpuError::RequiresOrdinaryCadence);
    }
    let c = match card {
        None => return Err(GpuError::NoOwnedCard),
        Some(c) => c,
    };
    let ghost cs = connectors@;
    let mut count: usize = 0;
    let mut first: usize = 0;
    let mut i: usize = 0;
    while i < connectors.len()
        invariant
            i <= connectors@.len(),
            cs == connectors@,
            count == owned(cs.subrange(0, i as int), c).len(),
            count <= i,
            count > 0 ==> first < i && owned(cs.subrange(0, i as int), c)[0] == cs[first as int],
        decreases connectors@.len() - i,
    {
        let ghost prev = cs.subrange(0, i as int);
        assert(cs.subrange(0, i + 1).drop_last() == prev);
        assert(cs.subrange(0, i + 1).last() == cs[i as int]);
        if connectors[i].card == c && connectors[i].connected {
            if count == 0 {
                first = i;
            }
            count = count + 1;
        }
        i = i + 1;
    }
    assert(cs.subrange(0, cs.len() as int) == cs);
    if count == 0 {
        return Err(GpuError::ConnectorAbsent);
    }
    if count > 1 {
        return Err(GpuError::AmbiguousConnector);
    }
    let mut path = "/sys/class/drm/card".to_owned();
    let mut digits: Vec<char> = Vec::new();
    push_decimal(&mut digits, c as u64);
    let d = crate::report::chars_to_string(digits.as_slice());
    path.append(d.as_str());
    path.append("-");
    path.append(connectors[first].name.as_str());
    path.append("/edid");
    Ok(path)
}

/// The GPU helper's arguments: connector, VAAPI device, mode, stream scale,
/// rate, quality and bitrate, each as its own argument.
pub open spec fn helper_args_spec(config: CaptureConfig, mode: (u32, u32), connector: Seq<char>) -> Seq<Seq<char>> {
    seq![
        connector,
        config.vaapi_device@,
        decimal(mode.0 as nat),
        decimal(mode.1 as nat),
        decimal(config.stream_scale as nat),
        decimal(config.fps as nat),
        decimal(config.quality as nat),
        decimal(config.bitrate as nat),
        "0"@,
        "desktop"@,
    ]
}

fn number_arg(n: u32) -> (r: String)
    ensures
        r@ == decimal(n as nat),
{
    let mut d: Vec<char> = Vec::new();
    push_decimal(&mut d, n as u64);
    crate::report::chars_to_string(d.as_slice())
}

pub fn helper_arguments(config: &CaptureConfig, mode: (u32, u32), connector: &str) -> (r: Vec<String>)
    ensures
        arg_views(r@) == helper_args_spec(*config, mode, connector@),
{
    let mut args: Vec<String> = Vec::new();
    args.push(connector.to_owned());
    args.push(config.vaapi_device.clone());
    args.push(number_arg(mode.0));
    args.push(number_arg(mode.1));
    args.push(number_arg(config.stream_scale));
    args.push(number_arg(config.fps));
    args.push(number_arg(config.quality));
    args.push(number_arg(config.bitrate));
    args.push("0".to_owned());
    args.push("desktop".to_owned());
    assert(arg_views(args@) =~= helper_args_spec(*config, mode, connector@));
    args
}

/// The GPU capture owner of one session: an opt-in helper program, whether
/// its capture is running, and whether it has failed, after which the session
/// stays on FIFO capture.
pub struct Adapter {
    pub helper: Option<String>,
    pub active: bool,
    pub failed: bool,
}

impl Default for Adapter {
    fn default() -> (r: Adapter)
        ensures
            r.helper is None,
            !r.active,
            !r.failed,
    {
        Adapter { helper: None, active: false, failed: false }
    }
}

impl Adapter {
    /// An adapter for an explicitly configured helper program.
    pub fn with_helper(helper: Option<String>) -> (r: Adapter)
        ensures
            r.helper == helper,
            !r.active,
            !r.failed,
    {
        Adapter { helper, active: false, failed: false }
    }

    /// What to start, if anything: nothing after a failure or without a
    /// helper; otherwise the helper and the connector it attaches to. A
    /// pipeline GPU capture cannot serve is a failure.
    pub fn try_start_using(&mut self, config: &CaptureConfig, card: Option<u32>, connectors: &[EvdiConnector], desktop: Desktop) -> (r: Option<(String, String)>)
        ensures
            old(self).failed || old(self).helper is None ==> r is None && *final(self) == *old(self),
            !old(self).failed && old(self).helper is Some ==> match supported_connector_spec(
                *config,
                card,
                connectors@,
                desktop,
            ) {
                Ok(p) => r matches Some(pair) && pair.0@ == old(self).helper->0@ && pair.1@ == p
                    && *final(self) == *old(self),
                Err(_) => r is None && final(self).failed && final(self).active == old(self).active
                    && final(self).helper == old(self).helper,
            },
    {
        if self.failed {
            return None;
        }
        let program = match &self.helper {
            None => return None,
            Some(p) => p.clone(),
        };
        match supported_connector(config, card, connectors, desktop) {
            Ok(connector) => Some((program, connector)),
            Err(_) => {
                self.failed = true;
                None
            },
        }
    }

    /// Record whether the helper could be started.
    pub fn spawned(&mut self, ok: bool)
        ensures
            final(self).helper == old(self).helper,
            ok ==> final(self).active && final(self).failed == old(self).failed,
            !ok ==> final(self).failed && final(self).active == old(self).active,
    {
        if ok {
            self.active = true;
        } else {
            self.failed = true;
        }
    }

    /// The GPU encoder ended: a running capture falls back to FIFO capture
    /// for good (`true`); with none running nothing changes.
    pub fn encoder_finished(&mut self) -> (r: bool)
        ensures
            r == old(self).active,
            old(self).active ==> !final(self).active && final(self).failed,
            !old(self).active ==> *final(self) == *old(self),
            final(self).helper == old(self).helper,
    {
        if !self.active {
            return false;
        }
        self.active = false;
        self.failed = true;
        true
    }

    /// The session stopped its capture.
    pub fn stopped(&mut self)
        ensures
            !final(self).active,
            final(self).failed == old(self).failed,
            final(self).helper == old(self).helper,
    {
        self.active = false;
    }
}

} // verus!
