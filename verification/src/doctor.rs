//! Findings of the `doctor` command: each check turns what was observed on
//! the machine into findings and remedies on a report. The observations
//! themselves (process tables, sysfs, command output) are taken as arguments.
use vstd::prelude::*;
use crate::config::FileConfig;
use crate::desktop::Desktop;
use crate::number::{decimal, push_decimal};
use crate::report::{Level, Report, ReportView};
use crate::annex_b::Codec;
use crate::codecs::{entries_of, entry_views, opt_view, payload_spec, valid_entry, valid_entry_spec};
use crate::text::{
    chars_eq, chars_of, contains_sub, ends_with, has_prefix, has_suffix,
    push_chars, push_str, split, split_chars, split_whitespace_chars, starts_with, str_eq, trim,
    trim_chars, words,
};

verus! {

/// Decimal numbers separated by `, `.
pub open spec fn joined(s: Seq<u32>) -> Seq<char>
    decreases s.len(),
{
    if s.len() == 0 {
        Seq::empty()
    } else if s.len() == 1 {
        decimal(s[0] as nat)
    } else {
        joined(s.drop_last()) + ", "@ + decimal(s.last() as nat)
    }
}

/// Process IDs as `{:?}` prints a slice of them: `[11, 12]`.
pub open spec fn pid_list(s: Seq<u32>) -> Seq<char> {
    "["@ + joined(s) + "]"@
}

fn push_pid_list(out: &mut Vec<char>, pids: &[u32])
    ensures
        final(out)@ == old(out)@ + pid_list(pids@),
{
    push_str(out, "[");
    let ghost base = out@;
    let mut i: usize = 0;
    while i < pids.len()
        invariant
            i <= pids@.len(),
            out@ == base + joined(pids@.subrange(0, i as int)),
        decreases pids@.len() - i,
    {
        let ghost prev = pids@.subrange(0, i as int);
        if i > 0 {
            push_str(out, ", ");
        }
        push_decimal(out, pids[i] as u64);
        proof {
            let next = pids@.subrange(0, i + 1);
            assert(next.drop_last() == prev);
            assert(next.last() == pids@[i as int]);
        }
        i = i + 1;
    }
    assert(pids@.subrange(0, pids@.len() as int) == pids@);
    push_str(out, "]");
}

/// Decimal rendering of a signed number.
pub open spec fn signed_decimal(n: int) -> Seq<char> {
    if n < 0 {
        "-"@ + decimal((-n) as nat)
    } else {
        decimal(n as nat)
    }
}

fn push_signed(out: &mut Vec<char>, n: i64)
    ensures
        final(out)@ == old(out)@ + signed_decimal(n as int),
{
    if n < 0 {
        push_str(out, "-");
        let m: u64 = (-(n + 1)) as u64 + 1;
        push_decimal(out, m);
    } else {
        push_decimal(out, n as u64);
    }
}

pub const HINT_MULTIPLE_DAEMONS: &'static str = "uscreen stop reaches validated same-user daemons even without a PID file; stop them before starting again";
pub const HINT_STALE_PID: &'static str = "uscreen start replaces the stale PID file";
pub const HINT_TWO_READERS: &'static str = "two readers on one pipe corrupt frames; stop and start UScreen to retire matching capture processes before capture begins";
pub const HINT_ORPHAN_ENCODER: &'static str = "stop and start UScreen; capture startup retires processes matching this FIFO";
pub const HINT_EXTRA_HELPERS: &'static str = "more helpers than configured tablet slots: stop and start UScreen; capture startup retires matching helpers before attaching";
pub const HINT_ORPHAN_HELPER: &'static str = "start UScreen and reconnect the tablet; capture startup retires matching helpers before attaching";

/// The daemon finding: the first daemon found is the one owner; more than
/// one is a failure, and a PID file without a daemon is stale.
pub open spec fn daemon_spec(r: ReportView, daemons: Seq<u32>, pid_file_exists: bool) -> ReportView {
    let r1 = if daemons.len() > 0 {
        r.line(Level::Pass, "daemon"@, "running, PID "@ + decimal(daemons[0] as nat))
    } else {
        r.line(Level::Pass, "daemon"@, "not running"@)
    };
    if daemons.len() > 1 {
        r1.line(Level::Fail, "multiple uscreen daemons"@, pid_list(daemons)).hint(
            HINT_MULTIPLE_DAEMONS@,
        )
    } else if daemons.len() == 0 && pid_file_exists {
        r1.line(Level::Warn, "PID file"@, "stale or not a daemon; no live daemon was found"@).hint(
            HINT_STALE_PID@,
        )
    } else {
        r1
    }
}

/// Report the daemons found and return the one that is owner.
pub fn report_daemon(r: &mut Report, daemons: &[u32], pid_file_exists: bool) -> (owner: Option<
    u32,
>)
    requires
        old(r)@.room(1),
    ensures
        final(r)@ == daemon_spec(old(r)@, daemons@, pid_file_exists),
        owner == (if daemons@.len() > 0 {
            Some(daemons@[0])
        } else {
            None::<u32>
        }),
{
    let owner = if daemons.len() > 0 {
        Some(daemons[0])
    } else {
        None
    };
    match owner {
        Some(pid) => {
            let mut d = chars_of("running, PID ");
            push_decimal(&mut d, pid as u64);
            r.line(Level::Pass, chars_of("daemon"), d);
        },
        None => r.line(Level::Pass, chars_of("daemon"), chars_of("not running")),
    }
    if daemons.len() > 1 {
        let mut d: Vec<char> = Vec::new();
        push_pid_list(&mut d, daemons);
        r.line(Level::Fail, chars_of("multiple uscreen daemons"), d);
        r.hint(chars_of(HINT_MULTIPLE_DAEMONS));
    } else if owner.is_none() && pid_file_exists {
        r.line(
            Level::Warn,
            chars_of("PID file"),
            chars_of("stale or not a daemon; no live daemon was found"),
        );
        r.hint(chars_of(HINT_STALE_PID));
    }
    owner
}

/// The encoder finding for one capture FIFO: two readers corrupt frames, and
/// a reader without a daemon is orphaned.
pub open spec fn encoders_spec(r: ReportView, encoders: Seq<u32>, owner: Option<u32>, fifo: Seq<char>) -> ReportView {
    let label = "ffmpeg on "@ + fifo;
    if encoders.len() > 1 {
        r.line(Level::Fail, label, decimal(encoders.len()) + " running: "@ + pid_list(encoders)).hint(
            HINT_TWO_READERS@,
        )
    } else if encoders.len() == 1 && owner is None {
        r.line(Level::Fail, label, "orphaned"@).hint(HINT_ORPHAN_ENCODER@)
    } else {
        r.line(Level::Pass, label, decimal(encoders.len()))
    }
}

pub fn report_encoders(r: &mut Report, encoders: &[u32], owner: Option<u32>, fifo: &str)
    requires
        old(r)@.room(1),
    ensures
        final(r)@ == encoders_spec(old(r)@, encoders@, owner, fifo@),
{
    let mut label = chars_of("ffmpeg on ");
    push_str(&mut label, fifo);
    if encoders.len() > 1 {
        let mut d: Vec<char> = Vec::new();
        push_decimal(&mut d, encoders.len() as u64);
        push_str(&mut d, " running: ");
        push_pid_list(&mut d, encoders);
        r.line(Level::Fail, label, d);
        r.hint(chars_of(HINT_TWO_READERS));
    } else if encoders.len() == 1 && owner.is_none() {
        r.line(Level::Fail, label, chars_of("orphaned"));
        r.hint(chars_of(HINT_ORPHAN_ENCODER));
    } else {
        let mut d: Vec<char> = Vec::new();
        push_decimal(&mut d, encoders.len() as u64);
        r.line(Level::Pass, label, d);
    }
}

/// The helper finding: one helper per tablet slot is healthy; more is a
/// failure, and helpers without a daemon are orphaned.
pub open spec fn helpers_spec(r: ReportView, helpers: Seq<u32>, owner: Option<u32>, max_tablets: u32) -> ReportView {
    if helpers.len() > max_tablets {
        r.line(
            Level::Fail,
            "evdi_helper processes"@,
            decimal(helpers.len()) + " running: "@ + pid_list(helpers),
        ).hint(HINT_EXTRA_HELPERS@)
    } else if helpers.len() > 0 && owner is None {
        r.line(Level::Fail, "evdi_helper"@, "orphaned (no daemon owns it)"@).hint(
            HINT_ORPHAN_HELPER@,
        )
    } else {
        r.line(Level::Pass, "evdi_helper processes"@, decimal(helpers.len()))
    }
}

pub fn report_helpers(r: &mut Report, helpers: &[u32], owner: Option<u32>, max_tablets: u32)
    requires
        old(r)@.room(1),
    ensures
        final(r)@ == helpers_spec(old(r)@, helpers@, owner, max_tablets),
{
    if helpers.len() > max_tablets as usize {
        let mut d: Vec<char> = Vec::new();
        push_decimal(&mut d, helpers.len() as u64);
        push_str(&mut d, " running: ");
        push_pid_list(&mut d, helpers);
        r.line(Level::Fail, chars_of("evdi_helper processes"), d);
        r.hint(chars_of(HINT_EXTRA_HELPERS));
    } else if helpers.len() > 0 && owner.is_none() {
        r.line(Level::Fail, chars_of("evdi_helper"), chars_of("orphaned (no daemon owns it)"));
        r.hint(chars_of(HINT_ORPHAN_HELPER));
    } else {
        let mut d: Vec<char> = Vec::new();
        push_decimal(&mut d, helpers.len() as u64);
        r.line(Level::Pass, chars_of("evdi_helper processes"), d);
    }
}

/// The capture encoders found reading one tablet slot's FIFO.
pub struct FifoEncoders {
    pub fifo: String,
    pub pids: Vec<u32>,
}

/// What the same-user process table showed: the daemons (the owner one
/// first), whether a PID file exists, the capture helpers of every slot and
/// the encoders on each slot's FIFO.
pub struct ProcessFindings {
    pub daemons: Vec<u32>,
    pub pid_file_exists: bool,
    pub helpers: Vec<u32>,
    pub encoders: Vec<FifoEncoders>,
}

pub open spec fn fifo_view(f: FifoEncoders) -> (Seq<char>, Seq<u32>) {
    (f.fifo@, f.pids@)
}

/// The encoder findings of the FIFOs in order.
pub open spec fn all_encoders_spec(r: ReportView, fifos: Seq<(Seq<char>, Seq<u32>)>, owner: Option<u32>) -> ReportView
    decreases fifos.len(),
{
    if fifos.len() == 0 {
        r
    } else {
        encoders_spec(
            all_encoders_spec(r, fifos.drop_last(), owner),
            fifos.last().1,
            owner,
            fifos.last().0,
        )
    }
}

pub open spec fn processes_spec(r: ReportView, max_tablets: u32, found: ProcessFindings) -> ReportView {
    let owner = if found.daemons@.len() > 0 {
        Some(found.daemons@[0])
    } else {
        None::<u32>
    };
    let r1 = daemon_spec(r, found.daemons@, found.pid_file_exists);
    let r2 = helpers_spec(r1, found.helpers@, owner, max_tablets);
    all_encoders_spec(r2, found.encoders@.map_values(|f: FifoEncoders| fifo_view(f)), owner)
}

/// The process findings; a process table that could not be read is a
/// warning that carries the reason, never an empty table.
pub open spec fn process_query_spec(r: ReportView, max_tablets: u32, query: Result<ProcessFindings, String>) -> ReportView {
    match query {
        Err(e) => r.line(Level::Warn, "process inspection"@, e@),
        Ok(found) => processes_spec(r, max_tablets, found),
    }
}

pub fn report_process_query(r: &mut Report, cfg: &FileConfig, query: Result<ProcessFindings, String>)
    requires
        old(r)@.room(
            2 + match query {
                Ok(found) => found.encoders@.len(),
                Err(_) => 0,
            },
        ),
    ensures
        final(r)@ == process_query_spec(old(r)@, cfg.max_tablets, query),
{
    match query {
        Err(e) => {
            r.line(Level::Warn, chars_of("process inspection"), chars_of(e.as_str()));
        },
        Ok(found) => {
            let ghost start = r@;
            let owner = report_daemon(r, found.daemons.as_slice(), found.pid_file_exists);
            report_helpers(r, found.helpers.as_slice(), owner, cfg.max_tablets);
            let ghost fifos = found.encoders@.map_values(|f: FifoEncoders| fifo_view(f));
            let ghost mid = r@;
            let n = found.encoders.len();
            let mut i: usize = 0;
            assert(fifos.subrange(0, 0) =~= Seq::<(Seq<char>, Seq<u32>)>::empty());
            while i < n
                invariant
                    n == found.encoders@.len(),
                    i <= n,
                    fifos == found.encoders@.map_values(|f: FifoEncoders| fifo_view(f)),
                    r@ == all_encoders_spec(mid, fifos.subrange(0, i as int), owner),
                    r@.room((n - i) as nat),
                decreases n - i,
            {
                let f = &found.encoders[i];
                report_encoders(r, f.pids.as_slice(), owner, f.fifo.as_str());
                proof {
                    let next = fifos.subrange(0, i + 1);
                    assert(next.drop_last() == fifos.subrange(0, i as int));
                    assert(next.last() == fifo_view(found.encoders@[i as int]));
                }
                i = i + 1;
            }
            assert(fifos.subrange(0, n as int) == fifos);
        },
    }
}


pub const HINT_UDEV_INSTALLED: &'static str = "rule installed: sudo udevadm control --reload && sudo udevadm trigger --name-match=uinput; log in locally at an active seat to receive the uaccess grant";
pub const HINT_UDEV_MISSING: &'static str = "reinstall the UScreen package or rerun the release tarball's scripts/install.sh to install the uinput rule";

/// The remedy for an unwritable `/dev/uinput`, depending on whether the
/// packaged udev rule is installed.
pub fn uinput_hint(rule_installed: bool) -> (r: String)
    ensures
        r@ == (if rule_installed {
            HINT_UDEV_INSTALLED@
        } else {
            HINT_UDEV_MISSING@
        }),
{
    if rule_installed {
        HINT_UDEV_INSTALLED.to_owned()
    } else {
        HINT_UDEV_MISSING.to_owned()
    }
}

pub const HINT_SERVICE_MISSING: &'static str = "reinstall the UScreen package or run scripts/install.sh from the release tarball to install uscreen.service";
pub const HINT_ENABLE_SERVICE: &'static str = "systemctl --user enable --now uscreen.service";

/// Autostart: a missing unit is not a disabled one; an unknown enablement
/// state says nothing.
pub open spec fn autostart_spec(r: ReportView, load_state: Seq<char>, enabled: Option<Seq<char>>) -> ReportView {
    if load_state == "not-found"@ {
        r.line(Level::Warn, "start with the desktop"@, "service not installed"@).hint(
            HINT_SERVICE_MISSING@,
        )
    } else {
        match enabled {
            Some(v) => if trim(v) == "enabled"@ {
                r.line(Level::Pass, "start with the desktop"@, "enabled"@)
            } else {
                r.line(
                    Level::Warn,
                    "start with the desktop"@,
                    "disabled \u{2014} the daemon must be started by hand"@,
                ).hint(HINT_ENABLE_SERVICE@)
            },
            None => r,
        }
    }
}

pub fn report_autostart(r: &mut Report, load_state: &str, enabled: Option<String>)
    requires
        old(r)@.room(1),
    ensures
        final(r)@ == autostart_spec(
            old(r)@,
            load_state@,
            match enabled {
                Some(v) => Some(v@),
                None => None,
            },
        ),
{
    if str_eq(load_state, "not-found") {
        r.line(
            Level::Warn,
            chars_of("start with the desktop"),
            chars_of("service not installed"),
        );
        r.hint(chars_of(HINT_SERVICE_MISSING));
        return;
    }
    match enabled {
        Some(v) => {
            let text = chars_of(v.as_str());
            let state = trim_chars(text.as_slice());
            let word = chars_of("enabled");
            if crate::text::chars_eq(state, word.as_slice()) {
                r.line(Level::Pass, chars_of("start with the desktop"), chars_of("enabled"));
            } else {
                r.line(
                    Level::Warn,
                    chars_of("start with the desktop"),
                    chars_of("disabled \u{2014} the daemon must be started by hand"),
                );
                r.hint(chars_of(HINT_ENABLE_SERVICE));
            }
        },
        None => {},
    }
}

/// A DRM connector of an EVDI device.
pub struct EvdiConnector {
    pub name: String,
    pub card: u32,
    pub edid: Vec<u8>,
    pub connected: bool,
}

pub open spec fn connector_spec(r: ReportView, c: EvdiConnector) -> ReportView {
    r.line(
        if c.connected {
            Level::Pass
        } else {
            Level::Warn
        },
        "EVDI connector"@,
        c.name@ + " ("@ + (if c.connected {
            "connected"@
        } else {
            "disconnected \u{2014} helper not running"@
        }) + ")"@,
    )
}

pub open spec fn connectors_spec(r: ReportView, cs: Seq<EvdiConnector>) -> ReportView
    decreases cs.len(),
{
    if cs.len() == 0 {
        r
    } else {
        connector_spec(connectors_spec(r, cs.drop_last()), cs.last())
    }
}

/// One finding per connector: connected, or disconnected because no helper
/// drives it.
pub fn report_connectors(r: &mut Report, connectors: &[EvdiConnector])
    requires
        old(r)@.room(connectors@.len()),
    ensures
        final(r)@ == connectors_spec(old(r)@, connectors@),
{
    let ghost start = r@;
    let mut i: usize = 0;
    while i < connectors.len()
        invariant
            i <= connectors@.len(),
            r@ == connectors_spec(start, connectors@.subrange(0, i as int)),
            r@.room((connectors@.len() - i) as nat),
        decreases connectors@.len() - i,
    {
        let c = &connectors[i];
        let mut d = chars_of(c.name.as_str());
        push_str(&mut d, " (");
        if c.connected {
            push_str(&mut d, "connected");
        } else {
            push_str(&mut d, "disconnected \u{2014} helper not running");
        }
        push_str(&mut d, ")");
        let level = if c.connected {
            Level::Pass
        } else {
            Level::Warn
        };
        r.line(level, chars_of("EVDI connector"), d);
        proof {
            let next = connectors@.subrange(0, i + 1);
            assert(next.drop_last() == connectors@.subrange(0, i as int));
        }
        i = i + 1;
    }
    assert(connectors@.subrange(0, connectors@.len() as int) == connectors@);
}

pub const HINT_OUTPUT_MODE: &'static str = "capture uses this actual mode; choose the configured mode in Display Settings if desired";

/// The compositor's mode of a virtual output: auto resolution follows the
/// tablet, so any mode is fine then; otherwise it should be the configured one.
pub open spec fn output_mode_spec(r: ReportView, cfg: FileConfig, name: Seq<char>, w: i64, h: i64) -> ReportView {
    let size = signed_decimal(w as int) + "x"@ + signed_decimal(h as int);
    if cfg.auto_resolution || (w as u32 == cfg.width && h as u32 == cfg.height) {
        r.line(Level::Pass, "KDE output mode"@, name + " at "@ + size)
    } else {
        r.line(
            Level::Warn,
            "KDE output mode"@,
            name + " is "@ + size + ", config says "@ + decimal(cfg.width as nat) + "x"@ + decimal(
                cfg.height as nat,
            ),
        ).hint(HINT_OUTPUT_MODE@)
    }
}

pub fn report_output_mode(r: &mut Report, cfg: &FileConfig, name: &str, w: i64, h: i64)
    requires
        old(r)@.room(1),
    ensures
        final(r)@ == output_mode_spec(old(r)@, *cfg, name@, w, h),
{
    let mut size: Vec<char> = Vec::new();
    push_signed(&mut size, w);
    push_str(&mut size, "x");
    push_signed(&mut size, h);
    let mut d = chars_of(name);
    if cfg.auto_resolution || (w as u32 == cfg.width && h as u32 == cfg.height) {
        push_str(&mut d, " at ");
        push_chars(&mut d, size.as_slice());
        r.line(Level::Pass, chars_of("KDE output mode"), d);
    } else {
        push_str(&mut d, " is ");
        push_chars(&mut d, size.as_slice());
        push_str(&mut d, ", config says ");
        push_decimal(&mut d, cfg.width as u64);
        push_str(&mut d, "x");
        push_decimal(&mut d, cfg.height as u64);
        r.line(Level::Warn, chars_of("KDE output mode"), d);
        r.hint(chars_of(HINT_OUTPUT_MODE));
    }
}


/// The remedy for too few EVDI devices.
pub open spec fn capacity_hint(wanted: u32, cards: u32) -> Seq<char> {
    "for this boot: echo 1 | sudo tee /sys/devices/evdi/add   (repeat "@ + decimal(
        (wanted - cards) as nat,
    ) + " time(s)); for every boot: initial_device_count="@ + decimal(wanted as nat)
        + " in /etc/modprobe.d/uscreen-evdi.conf"@
}

/// Each tablet slot needs an EVDI device of its own.
pub open spec fn capacity_spec(r: ReportView, wanted: u32, cards: u32) -> ReportView {
    if cards >= wanted {
        r.line(
            Level::Pass,
            "tablet slots"@,
            decimal(wanted as nat) + " (EVDI devices: "@ + decimal(cards as nat) + ")"@,
        )
    } else {
        r.line(
            Level::Warn,
            "tablet slots"@,
            decimal(wanted as nat) + " wanted, but only "@ + decimal(cards as nat)
                + " EVDI device(s) exist"@,
        ).hint(capacity_hint(wanted, cards))
    }
}

pub fn report_tablet_capacity(r: &mut Report, wanted: u32, cards: u32)
    requires
        old(r)@.room(1),
    ensures
        final(r)@ == capacity_spec(old(r)@, wanted, cards),
{
    let mut d: Vec<char> = Vec::new();
    push_decimal(&mut d, wanted as u64);
    if cards >= wanted {
        push_str(&mut d, " (EVDI devices: ");
        push_decimal(&mut d, cards as u64);
        push_str(&mut d, ")");
        r.line(Level::Pass, chars_of("tablet slots"), d);
    } else {
        push_str(&mut d, " wanted, but only ");
        push_decimal(&mut d, cards as u64);
        push_str(&mut d, " EVDI device(s) exist");
        r.line(Level::Warn, chars_of("tablet slots"), d);
        let mut h = chars_of("for this boot: echo 1 | sudo tee /sys/devices/evdi/add   (repeat ");
        push_decimal(&mut h, (wanted - cards) as u64);
        push_str(&mut h, " time(s)); for every boot: initial_device_count=");
        push_decimal(&mut h, wanted as u64);
        push_str(&mut h, " in /etc/modprobe.d/uscreen-evdi.conf");
        r.hint(h);
    }
}

/// Slot capacity matters only with more than one tablet slot; `cards` is the
/// number of EVDI devices present.
pub fn check_tablet_capacity(r: &mut Report, cfg: &FileConfig, cards: u32)
    requires
        old(r)@.room(1),
    ensures
        final(r)@ == (if cfg.max_tablets > 1 {
            capacity_spec(old(r)@, cfg.max_tablets, cards)
        } else {
            old(r)@
        }),
{
    if cfg.max_tablets > 1 {
        report_tablet_capacity(r, cfg.max_tablets, cards);
    }
}

/// Where the virtual screen sits, as the settings describe it.
pub open spec fn position_text(position: Seq<char>) -> Seq<char> {
    if position == "left"@ {
        "left of the other screens"@
    } else if position == "above"@ {
        "above the other screens"@
    } else if position == "below"@ {
        "below the other screens"@
    } else {
        "right of the other screens"@
    }
}

pub open spec fn display_spec(r: ReportView, cfg: FileConfig) -> ReportView {
    r.line(Level::Pass, "screen position"@, position_text(cfg.position@)).line(
        Level::Pass,
        "mode"@,
        if cfg.pen_only {
            "graphics tablet \u{2014} no display is streamed (switchable from the tablet)"@
        } else {
            "second screen (switchable from the tablet)"@
        },
    ).line(
        Level::Pass,
        "resolution"@,
        decimal(cfg.width as nat) + "x"@ + decimal(cfg.height as nat) + if cfg.auto_resolution {
            " (auto, follows the tablet)"@
        } else {
            " (fixed)"@
        },
    )
}

/// The configured position, mode and resolution.
pub fn report_configured_display(r: &mut Report, cfg: &FileConfig)
    ensures
        final(r)@ == display_spec(old(r)@, *cfg),
{
    let p = cfg.position.as_str();
    let place = if str_eq(p, "left") {
        "left of the other screens"
    } else if str_eq(p, "above") {
        "above the other screens"
    } else if str_eq(p, "below") {
        "below the other screens"
    } else {
        "right of the other screens"
    };
    r.line(Level::Pass, chars_of("screen position"), chars_of(place));
    let mode = if cfg.pen_only {
        "graphics tablet \u{2014} no display is streamed (switchable from the tablet)"
    } else {
        "second screen (switchable from the tablet)"
    };
    r.line(Level::Pass, chars_of("mode"), chars_of(mode));
    let mut d: Vec<char> = Vec::new();
    push_decimal(&mut d, cfg.width as u64);
    push_str(&mut d, "x");
    push_decimal(&mut d, cfg.height as u64);
    if cfg.auto_resolution {
        push_str(&mut d, " (auto, follows the tablet)");
    } else {
        push_str(&mut d, " (fixed)");
    }
    r.line(Level::Pass, chars_of("resolution"), d);
}

/// The virtual input devices that will be created: the pointer exists only
/// together with the pen.
pub open spec fn input_devices(cfg: FileConfig) -> Seq<Seq<char>> {
    (if cfg.input_touch {
        seq!["touch"@]
    } else {
        Seq::empty()
    }) + (if cfg.input_pen {
        seq!["pen"@]
    } else {
        Seq::empty()
    }) + (if cfg.input_pen && cfg.input_pointer {
        seq!["pointer"@]
    } else {
        Seq::empty()
    })
}

pub open spec fn input_spec(r: ReportView, cfg: FileConfig) -> ReportView {
    let on = input_devices(cfg);
    if on.len() == 0 {
        r.line(
            Level::Pass,
            "input devices"@,
            "none \u{2014} the tablet is display-only (touch and pen are ignored)"@,
        )
    } else {
        r.line(
            Level::Pass,
            "input devices"@,
            crate::text::join(on, ", "@) + " (created while a tablet is attached)"@,
        )
    }
}

pub fn report_configured_input(r: &mut Report, cfg: &FileConfig)
    ensures
        final(r)@ == input_spec(old(r)@, *cfg),
{
    let mut on: Vec<&str> = Vec::new();
    if cfg.input_touch {
        on.push("touch");
    }
    if cfg.input_pen {
        on.push("pen");
    }
    if cfg.input_pen && cfg.input_pointer {
        on.push("pointer");
    }
    assert(crate::text::str_views(on@) =~= input_devices(*cfg)) by {
        reveal_strlit("touch");
        reveal_strlit("pen");
        reveal_strlit("pointer");
    }
    if on.len() == 0 {
        r.line(
            Level::Pass,
            chars_of("input devices"),
            chars_of("none \u{2014} the tablet is display-only (touch and pen are ignored)"),
        );
    } else {
        let mut d: Vec<char> = Vec::new();
        crate::text::push_joined(&mut d, on.as_slice(), ", ");
        push_str(&mut d, " (created while a tablet is attached)");
        r.line(Level::Pass, chars_of("input devices"), d);
    }
}

pub const HINT_ENABLE_PEN: &'static str = "enable the pen in the settings panel, or set input_pen = true in config.toml";
pub const HINT_POINTER_NEEDS_PEN: &'static str = "input_pointer only takes effect together with input_pen";

/// Settings that depend on the pen device.
pub open spec fn dependencies_spec(r: ReportView, cfg: FileConfig) -> ReportView {
    let r1 = if cfg.pen_only && !cfg.input_pen {
        r.line(
            Level::Warn,
            "input devices"@,
            "graphics-tablet mode needs the pen device \u{2014} the daemon will start as a second screen instead"@,
        ).hint(HINT_ENABLE_PEN@)
    } else {
        r
    };
    if cfg.input_pointer && !cfg.input_pen {
        r1.hint(HINT_POINTER_NEEDS_PEN@)
    } else {
        r1
    }
}

pub fn report_input_dependencies(r: &mut Report, cfg: &FileConfig)
    requires
        old(r)@.room(1),
    ensures
        final(r)@ == dependencies_spec(old(r)@, *cfg),
{
    if cfg.pen_only && !cfg.input_pen {
        r.line(
            Level::Warn,
            chars_of("input devices"),
            chars_of(
                "graphics-tablet mode needs the pen device \u{2014} the daemon will start as a second screen instead",
            ),
        );
        r.hint(chars_of(HINT_ENABLE_PEN));
    }
    if cfg.input_pointer && !cfg.input_pen {
        r.hint(chars_of(HINT_POINTER_NEEDS_PEN));
    }
}

/// A kbit/s figure in Mbit/s as `{}` prints `kbps as f64 / 1000.0`: the
/// exact decimal value, without trailing zeros.
pub open spec fn mbps(kbps: nat) -> Seq<char> {
    let frac = kbps % 1000;
    let d1 = frac / 100;
    let d2 = (frac / 10) % 10;
    let d3 = frac % 10;
    decimal(kbps / 1000) + if frac == 0 {
        Seq::empty()
    } else if d3 != 0 {
        seq!['.', crate::number::digit_char(d1), crate::number::digit_char(d2), crate::number::digit_char(d3)]
    } else if d2 != 0 {
        seq!['.', crate::number::digit_char(d1), crate::number::digit_char(d2)]
    } else {
        seq!['.', crate::number::digit_char(d1)]
    }
}

fn push_mbps(out: &mut Vec<char>, kbps: u32)
    ensures
        final(out)@ == old(out)@ + mbps(kbps as nat),
{
    push_decimal(out, (kbps / 1000) as u64);
    let frac = kbps % 1000;
    if frac != 0 {
        let d1 = frac / 100;
        let d2 = (frac / 10) % 10;
        let d3 = frac % 10;
        out.push('.');
        out.push(((d1 as u8) + 48) as char);
        if d2 != 0 || d3 != 0 {
            out.push(((d2 as u8) + 48) as char);
        }
        if d3 != 0 {
            out.push(((d3 as u8) + 48) as char);
        }
    }
}

pub const HINT_REWRITE_BITRATE: &'static str = "rewrite it via uscreen-gui (or the tablet settings) to make the file agree";

/// The saved bitrate, which may lie outside what runtime clamps it to.
pub open spec fn bitrate_spec(r: ReportView, cfg: FileConfig, on_disk: Option<FileConfig>) -> ReportView {
    let raw = match on_disk {
        Some(c) => c.bitrate,
        None => cfg.bitrate,
    };
    if !(crate::config::MIN_BITRATE_KBPS <= raw <= crate::config::MAX_BITRATE_KBPS) {
        r.line(
            Level::Warn,
            "bitrate on disk"@,
            mbps(raw as nat) + " Mbps \u{2014} clamped to "@ + mbps(cfg.bitrate as nat)
                + " Mbps at runtime"@,
        ).hint(HINT_REWRITE_BITRATE@)
    } else {
        r.line(Level::Pass, "bitrate"@, mbps(cfg.bitrate as nat) + " Mbps"@)
    }
}

/// `cfg` holds the values runtime acts on, `on_disk` the file as written.
pub fn report_configured_bitrate(r: &mut Report, cfg: &FileConfig, on_disk: Option<&FileConfig>)
    requires
        old(r)@.room(1),
    ensures
        final(r)@ == bitrate_spec(
            old(r)@,
            *cfg,
            match on_disk {
                Some(c) => Some(*c),
                None => None,
            },
        ),
{
    let raw = match on_disk {
        Some(c) => c.bitrate,
        None => cfg.bitrate,
    };
    if !(crate::config::MIN_BITRATE_KBPS <= raw && raw <= crate::config::MAX_BITRATE_KBPS) {
        let mut d: Vec<char> = Vec::new();
        push_mbps(&mut d, raw);
        push_str(&mut d, " Mbps \u{2014} clamped to ");
        push_mbps(&mut d, cfg.bitrate);
        push_str(&mut d, " Mbps at runtime");
        r.line(Level::Warn, chars_of("bitrate on disk"), d);
        r.hint(chars_of(HINT_REWRITE_BITRATE));
    } else {
        let mut d: Vec<char> = Vec::new();
        push_mbps(&mut d, cfg.bitrate);
        push_str(&mut d, " Mbps");
        r.line(Level::Pass, chars_of("bitrate"), d);
    }
}

pub const HINT_FPS_CAP: &'static str = "the generated EDID is capped at 90 Hz, so anything above is duplicate frames";

/// The saved frame rate, which may lie outside what runtime clamps it to.
pub open spec fn fps_spec(r: ReportView, cfg: FileConfig, on_disk: Option<FileConfig>) -> ReportView {
    let raw = match on_disk {
        Some(c) => c.fps,
        None => cfg.fps,
    };
    if !(crate::config::MIN_FPS <= raw <= crate::config::MAX_FPS) {
        r.line(
            Level::Warn,
            "fps on disk"@,
            decimal(raw as nat) + " \u{2014} clamped to "@ + decimal(cfg.fps as nat) + " at runtime"@,
        ).hint(
            if raw > crate::config::MAX_FPS {
                HINT_FPS_CAP@
            } else {
                "set fps to at least "@ + decimal(crate::config::MIN_FPS as nat)
                    + " in the settings panel or config.toml"@
            },
        )
    } else {
        r.line(Level::Pass, "fps"@, decimal(cfg.fps as nat))
    }
}

pub fn report_configured_fps(r: &mut Report, cfg: &FileConfig, on_disk: Option<&FileConfig>)
    requires
        old(r)@.room(1),
    ensures
        final(r)@ == fps_spec(
            old(r)@,
            *cfg,
            match on_disk {
                Some(c) => Some(*c),
                None => None,
            },
        ),
{
    let raw = match on_disk {
        Some(c) => c.fps,
        None => cfg.fps,
    };
    if !(crate::config::MIN_FPS <= raw && raw <= crate::config::MAX_FPS) {
        let mut d: Vec<char> = Vec::new();
        push_decimal(&mut d, raw as u64);
        push_str(&mut d, " \u{2014} clamped to ");
        push_decimal(&mut d, cfg.fps as u64);
        push_str(&mut d, " at runtime");
        r.line(Level::Warn, chars_of("fps on disk"), d);
        if raw > crate::config::MAX_FPS {
            r.hint(chars_of(HINT_FPS_CAP));
        } else {
            let mut h = chars_of("set fps to at least ");
            push_decimal(&mut h, crate::config::MIN_FPS as u64);
            push_str(&mut h, " in the settings panel or config.toml");
            r.hint(h);
        }
    } else {
        let mut d: Vec<char> = Vec::new();
        push_decimal(&mut d, cfg.fps as u64);
        r.line(Level::Pass, chars_of("fps"), d);
    }
}


/// The decoder inventory of the legacy report format.
pub fn codec_inventory_text(out: Option<&str>) -> (r: Option<Vec<char>>)
    ensures
        crate::codecs::opt_vec_view(r) == payload_spec(opt_view(out), "USCREEN_CODECS_V1:"@),
{
    crate::codecs::payload(out, "USCREEN_CODECS_V1:")
}

/// The configured stream is HEVC.
pub open spec fn hevc_stream(cfg: FileConfig) -> bool {
    contains_sub(cfg.encoder@, "hevc"@)
}

/// A decoder entry can decode the configured stream: anything but a 10-bit
/// HEVC stream needs no particular bit depth.
pub open spec fn matches_stream_spec(e: Seq<char>, cfg: FileConfig) -> bool {
    !hevc_stream(cfg) || !cfg.ten_bit || has_suffix(e, "10"@)
}

pub fn decoder_matches_stream(entry: &[char], cfg: &FileConfig) -> (r: bool)
    ensures
        r == matches_stream_spec(entry@, *cfg),
{
    let hevc = crate::text::str_contains(cfg.encoder.as_str(), "hevc");
    let ten = chars_of("10");
    !hevc || !cfg.ten_bit || ends_with(entry, ten.as_slice())
}

pub open spec fn usable_decoders_spec(r: ReportView, cfg: FileConfig, es: Seq<Seq<char>>) -> ReportView {
    if exists|i: int| 0 <= i < es.len() && matches_stream_spec(es[i], cfg) && has_prefix(es[i], "hw"@) {
        r.line(
            Level::Pass,
            "tablet codec"@,
            if exists|i: int| 0 <= i < es.len() && matches_stream_spec(es[i], cfg) && es[i] == "hw10"@ {
                "hardware HEVC Main10 reported by Android"@
            } else {
                "hardware HEVC reported by Android (8-bit)"@
            },
        )
    } else if exists|i: int|
        0 <= i < es.len() && matches_stream_spec(es[i], cfg) && has_prefix(es[i], "unknown"@) {
        r.line(Level::Warn, "tablet codec"@, "HEVC decoder reported; acceleration unknown"@)
    } else {
        r.line(
            Level::Warn,
            "tablet codec"@,
            "HEVC software decoder only; real-time performance is not guaranteed"@,
        )
    }
}

/// The HEVC decoders that can decode the configured stream: hardware first,
/// then decoders of unknown acceleration, then software only.
pub fn report_usable_decoders(r: &mut Report, cfg: &FileConfig, entries: &[&[char]])
    requires
        old(r)@.room(1),
    ensures
        final(r)@ == usable_decoders_spec(old(r)@, *cfg, entry_views(entries@)),
{
    let ghost es = entry_views(entries@);
    let hw = chars_of("hw");
    let hw10 = chars_of("hw10");
    let unknown = chars_of("unknown");
    let mut any_hw = false;
    let mut any_hw10 = false;
    let mut any_unknown = false;
    let mut i: usize = 0;
    while i < entries.len()
        invariant
            i <= entries@.len(),
            es == entry_views(entries@),
            hw@ == "hw"@,
            hw10@ == "hw10"@,
            unknown@ == "unknown"@,
            any_hw == exists|j: int|
                0 <= j < i && matches_stream_spec(es[j], *cfg) && has_prefix(es[j], "hw"@),
            any_hw10 == exists|j: int| 0 <= j < i && matches_stream_spec(es[j], *cfg) && es[j] == "hw10"@,
            any_unknown == exists|j: int|
                0 <= j < i && matches_stream_spec(es[j], *cfg) && has_prefix(es[j], "unknown"@),
        decreases entries@.len() - i,
    {
        let e = entries[i];
        assert(es[i as int] == e@);
        if decoder_matches_stream(e, cfg) {
            if starts_with(e, hw.as_slice()) {
                any_hw = true;
            }
            if chars_eq(e, hw10.as_slice()) {
                any_hw10 = true;
            }
            if starts_with(e, unknown.as_slice()) {
                any_unknown = true;
            }
        }
        i = i + 1;
    }
    if any_hw {
        let detail = if any_hw10 {
            "hardware HEVC Main10 reported by Android"
        } else {
            "hardware HEVC reported by Android (8-bit)"
        };
        r.line(Level::Pass, chars_of("tablet codec"), chars_of(detail));
    } else if any_unknown {
        r.line(
            Level::Warn,
            chars_of("tablet codec"),
            chars_of("HEVC decoder reported; acceleration unknown"),
        );
    } else {
        r.line(
            Level::Warn,
            chars_of("tablet codec"),
            chars_of("HEVC software decoder only; real-time performance is not guaranteed"),
        );
    }
}

pub const HINT_TABLET_APK: &'static str = "install the current tablet APK, then rerun doctor; host encoder selection does not prove tablet support";

/// The HEVC finding from the legacy inventory format: no decoder (a failure
/// only for an HEVC stream), an unreadable inventory, no Main10 decoder for a
/// 10-bit HEVC stream, or the usable decoders.
pub open spec fn codec_v1_spec(r: ReportView, cfg: FileConfig, out: Option<Seq<char>>) -> ReportView {
    let report = payload_spec(out, "USCREEN_CODECS_V1:"@);
    let es = entries_of(report);
    if report == Some("none"@) {
        r.line(
            if hevc_stream(cfg) {
                Level::Fail
            } else {
                Level::Pass
            },
            "tablet codec"@,
            "no HEVC decoder reported by MediaCodecList"@,
        )
    } else if !(forall|i: int| 0 <= i < es.len() ==> valid_entry_spec(Codec::Hevc, #[trigger] es[i])) {
        r.line(
            Level::Warn,
            "tablet codec"@,
            "HEVC capability unknown (no valid decoder inventory)"@,
        ).hint(HINT_TABLET_APK@)
    } else if hevc_stream(cfg) && cfg.ten_bit && !(exists|i: int|
        0 <= i < es.len() && has_suffix(#[trigger] es[i], "10"@)) {
        r.line(
            Level::Fail,
            "tablet codec"@,
            "HEVC Main10 not reported; 10-bit host stream is unsupported by this inventory"@,
        )
    } else {
        usable_decoders_spec(r, cfg, es)
    }
}

pub fn report_codec(r: &mut Report, cfg: &FileConfig, out: Option<&str>)
    requires
        old(r)@.room(1),
    ensures
        final(r)@ == codec_v1_spec(old(r)@, *cfg, opt_view(out)),
{
    let report = codec_inventory_text(out);
    let empty: Vec<char> = Vec::new();
    let text: &[char] = match &report {
        Some(t) => t.as_slice(),
        None => empty.as_slice(),
    };
    let entries = split_chars(text, ',');
    let ghost es = entries_of(crate::codecs::opt_vec_view(report));
    assert(entry_views(entries@) == es);
    let is_none = match &report {
        Some(t) => {
            let n = chars_of("none");
            chars_eq(t.as_slice(), n.as_slice())
        },
        None => false,
    };
    let hevc = crate::text::str_contains(cfg.encoder.as_str(), "hevc");
    if is_none {
        let level = if hevc {
            Level::Fail
        } else {
            Level::Pass
        };
        r.line(level, chars_of("tablet codec"), chars_of("no HEVC decoder reported by MediaCodecList"));
        return;
    }
    let ten = chars_of("10");
    let mut valid = true;
    let mut any_ten = false;
    let mut i: usize = 0;
    while i < entries.len()
        invariant
            i <= entries@.len(),
            es == entry_views(entries@),
            ten@ == "10"@,
            valid == forall|j: int| 0 <= j < i ==> valid_entry_spec(Codec::Hevc, #[trigger] es[j]),
            any_ten == exists|j: int| 0 <= j < i && has_suffix(#[trigger] es[j], "10"@),
        decreases entries@.len() - i,
    {
        let e = entries[i];
        assert(es[i as int] == e@);
        if !valid_entry(Codec::Hevc, e) {
            valid = false;
        }
        if ends_with(e, ten.as_slice()) {
            any_ten = true;
        }
        i = i + 1;
    }
    if !valid {
        r.line(
            Level::Warn,
            chars_of("tablet codec"),
            chars_of("HEVC capability unknown (no valid decoder inventory)"),
        );
        r.hint(chars_of(HINT_TABLET_APK));
    } else if hevc && cfg.ten_bit && !any_ten {
        r.line(
            Level::Fail,
            chars_of("tablet codec"),
            chars_of("HEVC Main10 not reported; 10-bit host stream is unsupported by this inventory"),
        );
    } else {
        report_usable_decoders(r, cfg, entries.as_slice());
    }
}


pub open spec fn word_views(ws: Seq<Vec<char>>) -> Seq<Seq<char>> {
    ws.map_values(|w: Vec<char>| w@)
}

/// Whether `name` is one of the words.
fn has_word(ws: &[Vec<char>], name: &[char]) -> (r: bool)
    ensures
        r == word_views(ws@).contains(name@),
{
    let mut i: usize = 0;
    while i < ws.len()
        invariant
            i <= ws@.len(),
            forall|j: int| 0 <= j < i ==> word_views(ws@)[j] != name@,
        decreases ws@.len() - i,
    {
        if chars_eq(ws[i].as_slice(), name) {
            assert(word_views(ws@)[i as int] == name@);
            return true;
        }
        i = i + 1;
    }
    false
}

/// The encoders offered instead of an unavailable one, those of them that
/// the encoder list names.
pub open spec fn alternatives(ws: Seq<Seq<char>>) -> Seq<Seq<char>> {
    (if ws.contains("h264_nvenc"@) {
        seq!["h264_nvenc"@]
    } else {
        Seq::empty()
    }) + (if ws.contains("h264_vaapi"@) {
        seq!["h264_vaapi"@]
    } else {
        Seq::empty()
    }) + (if ws.contains("libx264"@) {
        seq!["libx264"@]
    } else {
        Seq::empty()
    })
}

/// Whether FFmpeg's encoder list offers the configured encoder. An encoder
/// this build cannot use fails with the reason; one that the list (`ffmpeg
/// -encoders`) does not name as a word fails, with the usable alternatives
/// it does name.
pub open spec fn availability_spec(r: ReportView, cfg: FileConfig, list: Seq<char>) -> ReportView {
    let name = cfg.encoder@;
    let ws = words(list);
    if !(name == "auto"@ || crate::encoding::find_spec(name) is Some) {
        r.line(Level::Fail, "configured encoder"@, "Unknown encoder: "@ + name)
    } else if ws.contains(crate::encoding::ffmpeg_name_spec(name)) {
        r.line(Level::Pass, "configured encoder"@, name + " available"@)
    } else {
        r.line(Level::Fail, "configured encoder"@, name + " NOT available in ffmpeg"@).hint(
            "available instead: "@ + crate::text::join(alternatives(ws), ", "@),
        )
    }
}

pub fn report_encoder_availability(r: &mut Report, cfg: &FileConfig, list: &str)
    requires
        old(r)@.room(1),
    ensures
        final(r)@ == availability_spec(old(r)@, *cfg, list@),
{
    match crate::encoding::validate_encoder_for_build(cfg.encoder.as_str()) {
        Err(error) => {
            r.line(Level::Fail, chars_of("configured encoder"), chars_of(error.as_str()));
            return;
        },
        Ok(()) => {},
    }
    let text = chars_of(list);
    let ws = split_whitespace_chars(text.as_slice());
    let ghost wv = words(list@);
    assert(word_views(ws@) == wv);
    let ffmpeg = crate::encoding::ffmpeg_encoder_name(cfg.encoder.as_str());
    if has_word(ws.as_slice(), ffmpeg.as_slice()) {
        let mut d = chars_of(cfg.encoder.as_str());
        push_str(&mut d, " available");
        r.line(Level::Pass, chars_of("configured encoder"), d);
    } else {
        let mut d = chars_of(cfg.encoder.as_str());
        push_str(&mut d, " NOT available in ffmpeg");
        r.line(Level::Fail, chars_of("configured encoder"), d);
        let mut instead: Vec<&str> = Vec::new();
        let a = chars_of("h264_nvenc");
        if has_word(ws.as_slice(), a.as_slice()) {
            instead.push("h264_nvenc");
        }
        let b = chars_of("h264_vaapi");
        if has_word(ws.as_slice(), b.as_slice()) {
            instead.push("h264_vaapi");
        }
        let c = chars_of("libx264");
        if has_word(ws.as_slice(), c.as_slice()) {
            instead.push("libx264");
        }
        assert(crate::text::str_views(instead@) =~= alternatives(wv)) by {
            reveal_strlit("h264_nvenc");
            reveal_strlit("h264_vaapi");
            reveal_strlit("libx264");
        }
        let mut h = chars_of("available instead: ");
        crate::text::push_joined(&mut h, instead.as_slice(), ", ");
        r.hint(h);
    }
}

/// `adb reverse --list` forwards `remote` to `local` on some line: the two
/// appear as neighbouring words.
pub open spec fn forwarded(reverse: Seq<char>, remote: Seq<char>, local: Seq<char>) -> bool {
    let lines = split(reverse, '\n');
    exists|k: int, i: int|
        0 <= k < lines.len() && 0 <= i && i + 1 < words(lines[k]).len() && #[trigger] words(
            lines[k],
        )[i] == remote && words(lines[k])[i + 1] == local
}

pub open spec fn forward_spec(r: ReportView, app: u16, host: u16, serial: Seq<char>, reverse: Seq<char>) -> ReportView {
    let remote = "tcp:"@ + decimal(app as nat);
    let local = "tcp:"@ + decimal(host as nat);
    let label = "adb reverse "@ + decimal(app as nat);
    if forwarded(reverse, remote, local) {
        r.line(Level::Pass, label, "forwarded to "@ + decimal(host as nat))
    } else {
        r.line(Level::Warn, label, "not forwarded to "@ + decimal(host as nat)).hint(
            "adb -s "@ + serial + " reverse "@ + remote + " "@ + local,
        )
    }
}

/// Both app ports must be forwarded to the session's host ports; a missing
/// forward gets the exact `adb reverse` command for the selected tablet.
pub open spec fn forwarding_spec(r: ReportView, cfg: FileConfig, serial: Seq<char>, reverse: Seq<char>) -> ReportView {
    forward_spec(
        forward_spec(r, crate::config::APP_VIDEO_PORT, cfg.video_port, serial, reverse),
        crate::config::APP_INPUT_PORT,
        cfg.input_port,
        serial,
        reverse,
    )
}

pub open spec fn words_of_lines(ls: Seq<Seq<char>>) -> Seq<Seq<Seq<char>>> {
    ls.map_values(|l: Seq<char>| words(l))
}

pub open spec fn lines_words(ls: Seq<Vec<Vec<char>>>) -> Seq<Seq<Seq<char>>> {
    ls.map_values(|l: Vec<Vec<char>>| word_views(l@))
}

fn pair_in_lines(lines: &[Vec<Vec<char>>], remote: &[char], local: &[char]) -> (r: bool)
    ensures
        r == exists|k: int, i: int|
            0 <= k < lines@.len() && 0 <= i && i + 1 < lines_words(lines@)[k].len()
                && #[trigger] lines_words(lines@)[k][i] == remote@ && lines_words(lines@)[k][i + 1] == local@,
{
    let ghost lw = lines_words(lines@);
    let mut k: usize = 0;
    while k < lines.len()
        invariant
            k <= lines@.len(),
            lw == lines_words(lines@),
            forall|kk: int, i: int|
                0 <= kk < k && 0 <= i && i + 1 < lw[kk].len() ==> !(#[trigger] lw[kk][i] == remote@
                    && lw[kk][i + 1] == local@),
        decreases lines@.len() - k,
    {
        let ws = &lines[k];
        assert(lw[k as int] == word_views(ws@));
        let mut i: usize = 0;
        while ws.len() - i > 1
            invariant
                i <= ws@.len(),
                k < lines@.len(),
                lw == lines_words(lines@),
                lw[k as int] == word_views(ws@),
                forall|j: int|
                    0 <= j < i && j + 1 < lw[k as int].len() ==> !(#[trigger] lw[k as int][j] == remote@
                        && lw[k as int][j + 1] == local@),
            decreases ws@.len() - i,
        {
            if chars_eq(ws[i].as_slice(), remote) && chars_eq(ws[i + 1].as_slice(), local) {
                assert(lw[k as int][i as int] == remote@ && lw[k as int][i + 1] == local@);
                return true;
            }
            i = i + 1;
        }
        k = k + 1;
    }
    false
}

fn report_forward(r: &mut Report, app: u16, host: u16, serial: &str, lines: &[Vec<Vec<char>>], reverse: Ghost<Seq<char>>)
    requires
        old(r)@.room(1),
        lines_words(lines@) == words_of_lines(split(reverse@, '\n')),
    ensures
        final(r)@ == forward_spec(old(r)@, app, host, serial@, reverse@),
{
    let mut remote = chars_of("tcp:");
    push_decimal(&mut remote, app as u64);
    let mut local = chars_of("tcp:");
    push_decimal(&mut local, host as u64);
    let mut label = chars_of("adb reverse ");
    push_decimal(&mut label, app as u64);
    let found = pair_in_lines(lines, remote.as_slice(), local.as_slice());
    proof {
        let ls = split(reverse@, '\n');
        let lw = lines_words(lines@);
        if found {
            let (k, i) = choose|k: int, i: int|
                0 <= k < lines@.len() && 0 <= i && i + 1 < lw[k].len() && #[trigger] lw[k][i]
                    == remote@ && lw[k][i + 1] == local@;
            assert(lw.len() == ls.len());
            assert(0 <= k < ls.len());
            assert(lw[k] == words_of_lines(ls)[k]);
            assert(words_of_lines(ls)[k] == words(ls[k]));
            assert(lw[k] == words(ls[k]));
        } else {
            assert forall|k: int, i: int|
                0 <= k < ls.len() && 0 <= i && i + 1 < words(ls[k]).len() implies !(#[trigger] words(
                ls[k],
            )[i] == remote@ && words(ls[k])[i + 1] == local@) by {
                assert(lw.len() == ls.len());
                assert(lw[k] == words_of_lines(ls)[k]);
                assert(words_of_lines(ls)[k] == words(ls[k]));
                assert(!(lw[k][i] == remote@ && lw[k][i + 1] == local@));
            }
        }
    }
    if found {
        let mut d = chars_of("forwarded to ");
        push_decimal(&mut d, host as u64);
        r.line(Level::Pass, label, d);
    } else {
        let mut d = chars_of("not forwarded to ");
        push_decimal(&mut d, host as u64);
        r.line(Level::Warn, label, d);
        let mut h = chars_of("adb -s ");
        push_str(&mut h, serial);
        push_str(&mut h, " reverse ");
        push_chars(&mut h, remote.as_slice());
        push_str(&mut h, " ");
        push_chars(&mut h, local.as_slice());
        r.hint(h);
    }
}

pub fn report_forwarding(r: &mut Report, cfg: &FileConfig, serial: &str, reverse: &str)
    requires
        old(r)@.room(2),
    ensures
        final(r)@ == forwarding_spec(old(r)@, *cfg, serial@, reverse@),
{
    let text = chars_of(reverse);
    let pieces = split_chars(text.as_slice(), '\n');
    let ghost ls = split(reverse@, '\n');
    let mut lines: Vec<Vec<Vec<char>>> = Vec::new();
    let mut k: usize = 0;
    while k < pieces.len()
        invariant
            k <= pieces@.len(),
            pieces@.map_values(|p: &[char]| p@) == ls,
            lines_words(lines@) == words_of_lines(ls.subrange(0, k as int)),
        decreases pieces@.len() - k,
    {
        let ws = split_whitespace_chars(pieces[k]);
        let ghost before = lines_words(lines@);
        lines.push(ws);
        assert(lines_words(lines@) == before.push(words(ls[k as int])));
        assert(words_of_lines(ls.subrange(0, k + 1)) == words_of_lines(ls.subrange(0, k as int)).push(
            words(ls[k as int]),
        ));
        k = k + 1;
    }
    assert(ls.subrange(0, ls.len() as int) == ls);
    report_forward(
        r,
        crate::config::APP_VIDEO_PORT,
        cfg.video_port,
        serial,
        lines.as_slice(),
        Ghost(reverse@),
    );
    report_forward(
        r,
        crate::config::APP_INPUT_PORT,
        cfg.input_port,
        serial,
        lines.as_slice(),
        Ghost(reverse@),
    );
}


/// The number in the EVDI device count file: a 32-bit decimal integer after
/// trimming, or -1 when it is not one.
pub open spec fn evdi_count_value(text: Seq<char>) -> int {
    match crate::number::parse_i64_spec(trim(text)) {
        Some(v) => if -0x8000_0000 <= v < 0x8000_0000 {
            v
        } else {
            -1
        },
        None => -1,
    }
}

fn parse_evdi_count(text: &str) -> (r: i64)
    ensures
        r as int == evdi_count_value(text@),
{
    let chars = chars_of(text);
    let t = trim_chars(chars.as_slice());
    match crate::number::parse_i64(t) {
        Some(v) => if -0x8000_0000 <= v && v < 0x8000_0000 {
            v
        } else {
            -1
        },
        None => -1,
    }
}

/// What opening `/dev/uinput` for writing showed.
pub enum UinputState {
    Missing,
    Writable,
    NotWritable(String),
}

pub const HINT_EVDI_ADD: &'static str = "for this boot:   echo 1 | sudo tee /sys/devices/evdi/add";
pub const HINT_EVDI_BOOT: &'static str = "for every boot: echo 'options evdi initial_device_count=2' | sudo tee /etc/modprobe.d/uscreen-evdi.conf # takes effect after reboot; keep the live module loaded";
pub const HINT_EVDI_INSTALL: &'static str = "install evdi-dkms (on Arch it is in the AUR: yay -S evdi-dkms), then: sudo modprobe evdi";

/// The kernel side: the EVDI module with at least one device, and a
/// writable `/dev/uinput`, which only matters when touch or pen devices are
/// wanted. `evdi_count` is the content of the module's device count file,
/// `None` when the module is not loaded.
pub open spec fn modules_spec(r: ReportView, cfg: FileConfig, evdi_count: Option<Seq<char>>, uinput: UinputState, rule_installed: bool) -> ReportView {
    let r1 = match evdi_count {
        Some(text) => if evdi_count_value(text) > 0 {
            r.line(
                Level::Pass,
                "evdi module"@,
                decimal(evdi_count_value(text) as nat) + " device(s)"@,
            )
        } else {
            r.line(Level::Fail, "evdi module"@, "loaded, but no device created"@).hint(
                HINT_EVDI_ADD@,
            ).hint(HINT_EVDI_BOOT@)
        },
        None => r.line(Level::Fail, "evdi module"@, "not loaded"@).hint(HINT_EVDI_INSTALL@),
    };
    let level = if cfg.input_touch || cfg.input_pen {
        Level::Fail
    } else {
        Level::Warn
    };
    match uinput {
        UinputState::Missing => r1.line(level, "uinput device"@, "/dev/uinput missing"@).hint(
            "sudo modprobe uinput"@,
        ),
        UinputState::Writable => r1.line(Level::Pass, "uinput device"@, "writable"@),
        UinputState::NotWritable(e) => r1.line(level, "uinput device"@, "not writable: "@ + e@).hint(
            if rule_installed {
                HINT_UDEV_INSTALLED@
            } else {
                HINT_UDEV_MISSING@
            },
        ),
    }
}

pub fn report_modules(r: &mut Report, cfg: &FileConfig, evdi_count: Option<&str>, uinput: UinputState, rule_installed: bool)
    requires
        old(r)@.room(2),
    ensures
        final(r)@ == modules_spec(old(r)@, *cfg, opt_view(evdi_count), uinput, rule_installed),
{
    match evdi_count {
        Some(text) => {
            let count = parse_evdi_count(text);
            if count > 0 {
                let mut d: Vec<char> = Vec::new();
                push_decimal(&mut d, count as u64);
                push_str(&mut d, " device(s)");
                r.line(Level::Pass, chars_of("evdi module"), d);
            } else {
                r.line(Level::Fail, chars_of("evdi module"), chars_of("loaded, but no device created"));
                r.hint(chars_of(HINT_EVDI_ADD));
                r.hint(chars_of(HINT_EVDI_BOOT));
            }
        },
        None => {
            r.line(Level::Fail, chars_of("evdi module"), chars_of("not loaded"));
            r.hint(chars_of(HINT_EVDI_INSTALL));
        },
    }
    let level = if cfg.input_touch || cfg.input_pen {
        Level::Fail
    } else {
        Level::Warn
    };
    match uinput {
        UinputState::Missing => {
            r.line(level, chars_of("uinput device"), chars_of("/dev/uinput missing"));
            r.hint(chars_of("sudo modprobe uinput"));
        },
        UinputState::Writable => {
            r.line(Level::Pass, chars_of("uinput device"), chars_of("writable"));
        },
        UinputState::NotWritable(e) => {
            let mut d = chars_of("not writable: ");
            push_str(&mut d, e.as_str());
            r.line(level, chars_of("uinput device"), d);
            let h = uinput_hint(rule_installed);
            r.hint(chars_of(h.as_str()));
        },
    }
}

/// What the input-mapping check goes on to examine.
#[derive(Clone, Copy, Debug, PartialEq, Eq, Structural)]
pub enum MappingCheck {
    /// The X11 tools that map devices onto the output.
    X11Tools,
    /// KWin's D-Bus interface and its on-screen keyboard.
    Kwin,
}

pub const HINT_OTHER_COMPOSITOR: &'static str = "KWin automation applies to KDE Wayland; use your compositor's input/output settings on other desktops. Support depends on that compositor.";

pub const HINT_KWIN_UNREACHABLE: &'static str = "the daemon maps the tablet's input onto the virtual display over KWin's D-Bus interface, using busctl (systemd) or qdbus. Install systemd's busctl, or a qdbus package (qdbus-qt6 on Debian/Ubuntu, qt6-tools elsewhere).";

/// Input mapping: nothing to map without touch or pen devices; X11 and KDE
/// on Wayland are mapped automatically and checked further; other desktops
/// need mapping by hand.
pub open spec fn input_mapping_spec(r: ReportView, cfg: FileConfig, desktop: Desktop) -> (ReportView, Option<MappingCheck>) {
    if !cfg.input_touch && !cfg.input_pen {
        (
            r.line(
                Level::Pass,
                "input mapping"@,
                "disabled \u{2014} no virtual input devices requested"@,
            ),
            None,
        )
    } else {
        match desktop {
            Desktop::X11 => (r, Some(MappingCheck::X11Tools)),
            Desktop::KdeWayland => (r, Some(MappingCheck::Kwin)),
            Desktop::Other => (
                r.line(
                    Level::Warn,
                    "input mapping"@,
                    "manual compositor-specific mapping may be required"@,
                ).hint(HINT_OTHER_COMPOSITOR@),
                None,
            ),
        }
    }
}

pub fn report_input_mapping(r: &mut Report, cfg: &FileConfig, desktop: Desktop) -> (next: Option<MappingCheck>)
    requires
        old(r)@.room(1),
    ensures
        (final(r)@, next) == input_mapping_spec(old(r)@, *cfg, desktop),
{
    if !cfg.input_touch && !cfg.input_pen {
        r.line(
            Level::Pass,
            chars_of("input mapping"),
            chars_of("disabled \u{2014} no virtual input devices requested"),
        );
        return None;
    }
    match desktop {
        Desktop::X11 => Some(MappingCheck::X11Tools),
        Desktop::KdeWayland => Some(MappingCheck::Kwin),
        Desktop::Other => {
            r.line(
                Level::Warn,
                chars_of("input mapping"),
                chars_of("manual compositor-specific mapping may be required"),
            );
            r.hint(chars_of(HINT_OTHER_COMPOSITOR));
            None
        },
    }
}

/// KWin's D-Bus interface, through the first client tool found (`backend`);
/// without it touch and pen land on the wrong screen.
pub open spec fn kwin_reach_spec(r: ReportView, backend: Option<Seq<char>>) -> ReportView {
    match backend {
        Some(name) => r.line(Level::Pass, "KWin D-Bus"@, "reachable via "@ + name),
        None => r.line(
            Level::Fail,
            "KWin D-Bus"@,
            "unreachable \u{2014} touch and pen will drive the wrong screen"@,
        ).hint(HINT_KWIN_UNREACHABLE@),
    }
}

/// Report whether KWin can be reached; the keyboard check follows only when
/// it can.
pub fn report_kwin_reachability(r: &mut Report, backend: Option<&str>) -> (reachable: bool)
    requires
        old(r)@.room(1),
    ensures
        final(r)@ == kwin_reach_spec(
            old(r)@,
            match backend {
                Some(b) => Some(b@),
                None => None,
            },
        ),
        reachable == backend is Some,
{
    match backend {
        Some(name) => {
            let mut d = chars_of("reachable via ");
            push_str(&mut d, name);
            r.line(Level::Pass, chars_of("KWin D-Bus"), d);
            true
        },
        None => {
            r.line(
                Level::Fail,
                chars_of("KWin D-Bus"),
                chars_of("unreachable \u{2014} touch and pen will drive the wrong screen"),
            );
            r.hint(chars_of(HINT_KWIN_UNREACHABLE));
            false
        },
    }
}

/// One X11 mapping tool: needed for automatic input mapping there.
pub open spec fn mapping_tool_spec(r: ReportView, tool: Seq<char>, found: bool) -> ReportView {
    if found {
        r.line(Level::Pass, tool, "available for X11 input mapping"@)
    } else {
        r.line(Level::Fail, tool, "not installed"@).hint(
            "install "@ + tool + " for automatic X11 input mapping"@,
        )
    }
}

/// `xinput` and `xrandr`, in that order.
pub fn report_x11_mapping_tools(r: &mut Report, xinput: bool, xrandr: bool)
    requires
        old(r)@.room(2),
    ensures
        final(r)@ == mapping_tool_spec(
            mapping_tool_spec(old(r)@, "xinput"@, xinput),
            "xrandr"@,
            xrandr,
        ),
{
    report_mapping_tool(r, "xinput", xinput);
    report_mapping_tool(r, "xrandr", xrandr);
}

fn report_mapping_tool(r: &mut Report, tool: &str, found: bool)
    requires
        old(r)@.room(1),
    ensures
        final(r)@ == mapping_tool_spec(old(r)@, tool@, found),
{
    if found {
        r.line(Level::Pass, chars_of(tool), chars_of("available for X11 input mapping"));
    } else {
        r.line(Level::Fail, chars_of(tool), chars_of("not installed"));
        let mut h = chars_of("install ");
        push_str(&mut h, tool);
        push_str(&mut h, " for automatic X11 input mapping");
        r.hint(h);
    }
}

/// A command the pipeline runs: `fatal` ones are required, the others
/// desktop-specific.
pub open spec fn command_spec(r: ReportView, tool: Seq<char>, fatal: bool, found: bool) -> ReportView {
    if found {
        r.line(Level::Pass, tool, "found"@)
    } else if fatal {
        r.line(Level::Fail, tool, "not installed"@).hint(
            "install "@ + tool + " with your package manager"@,
        )
    } else {
        r.line(Level::Warn, tool, "not installed (KDE only)"@)
    }
}

fn report_command(r: &mut Report, tool: &str, fatal: bool, found: bool)
    requires
        old(r)@.room(1),
    ensures
        final(r)@ == command_spec(old(r)@, tool@, fatal, found),
{
    if found {
        r.line(Level::Pass, chars_of(tool), chars_of("found"));
    } else if fatal {
        r.line(Level::Fail, chars_of(tool), chars_of("not installed"));
        let mut h = chars_of("install ");
        push_str(&mut h, tool);
        push_str(&mut h, " with your package manager");
        r.hint(h);
    } else {
        r.line(Level::Warn, chars_of(tool), chars_of("not installed (KDE only)"));
    }
}

/// `ffmpeg` and `adb` are required, `kscreen-doctor` only on KDE.
pub fn report_required_commands(r: &mut Report, ffmpeg: bool, adb: bool, kscreen_doctor: bool)
    requires
        old(r)@.room(3),
    ensures
        final(r)@ == command_spec(
            command_spec(command_spec(old(r)@, "ffmpeg"@, true, ffmpeg), "adb"@, true, adb),
            "kscreen-doctor"@,
            false,
            kscreen_doctor,
        ),
{
    report_command(r, "ffmpeg", true, ffmpeg);
    report_command(r, "adb", true, adb);
    report_command(r, "kscreen-doctor", false, kscreen_doctor);
}

/// Required-tools law: ffmpeg and adb are required, so each one missing
/// adds exactly one failure, reported first as `TOOL: not installed` and
/// then the hint to install it; kscreen-doctor is not required, so its
/// absence is a warning and never a failure; found tools add neither.
pub proof fn lemma_required_commands(r: ReportView, ffmpeg: bool, adb: bool, kscreen_doctor: bool)
    ensures
        ({
            let f = command_spec(
                command_spec(command_spec(r, "ffmpeg"@, true, ffmpeg), "adb"@, true, adb),
                "kscreen-doctor"@,
                false,
                kscreen_doctor,
            );
            let n = r.entries.len() as int;
            &&& f.failures == r.failures + (if ffmpeg { 0int } else { 1int }) + (if adb { 0int } else { 1int })
            &&& f.warnings == r.warnings + (if kscreen_doctor { 0int } else { 1int })
            &&& !ffmpeg ==> f.entries[n] == crate::report::EntryView::Line(
                Level::Fail,
                "ffmpeg"@,
                "not installed"@,
            ) && f.entries[n + 1] == crate::report::EntryView::Hint(
                "install ffmpeg with your package manager"@,
            )
            &&& ffmpeg ==> f.entries[n] == crate::report::EntryView::Line(
                Level::Pass,
                "ffmpeg"@,
                "found"@,
            )
        }),
{
    reveal_strlit("install ");
    reveal_strlit("ffmpeg");
    reveal_strlit(" with your package manager");
    reveal_strlit("install ffmpeg with your package manager");
    assert("install "@ + "ffmpeg"@ + " with your package manager"@ =~= "install ffmpeg with your package manager"@);
}

pub const HINT_KEYBOARD: &'static str = "the daemon suppresses this while its touch devices exist, then restores the saved setting";

/// KWin's on-screen keyboard mode: only an exact supported mode is reported.
pub open spec fn keyboard_spec(r: ReportView, mode: Seq<char>) -> ReportView {
    let m = trim(mode);
    if m == "1"@ || m == "2"@ {
        r.line(Level::Warn, "on-screen keyboard"@, "pops up on touch input"@).hint(HINT_KEYBOARD@)
    } else if m == "0"@ {
        r.line(Level::Pass, "on-screen keyboard"@, "only when asked for"@)
    } else {
        r
    }
}

pub fn report_keyboard_mode(r: &mut Report, mode: &str)
    requires
        old(r)@.room(1),
    ensures
        final(r)@ == keyboard_spec(old(r)@, mode@),
{
    let c = chars_of(mode);
    let m = trim_chars(c.as_slice());
    let one = chars_of("1");
    let two = chars_of("2");
    let zero = chars_of("0");
    if chars_eq(m, one.as_slice()) || chars_eq(m, two.as_slice()) {
        r.line(Level::Warn, chars_of("on-screen keyboard"), chars_of("pops up on touch input"));
        r.hint(chars_of(HINT_KEYBOARD));
    } else if chars_eq(m, zero.as_slice()) {
        r.line(Level::Pass, chars_of("on-screen keyboard"), chars_of("only when asked for"));
    }
}

fn trimmed_is(v: &str, s: &str) -> (r: bool)
    ensures
        r == (trim(v@) == s@),
{
    let c = chars_of(v);
    let t = trim_chars(c.as_slice());
    let w = chars_of(s);
    chars_eq(t, w.as_slice())
}

pub const HINT_BLUE_LIGHT: &'static str = "tablet: Settings \u{2192} Display \u{2192} Eye comfort shield \u{2192} off";

/// The tablet's blue light filter, which warms every colour.
pub open spec fn blue_light_spec(r: ReportView, value: Option<Seq<char>>) -> ReportView {
    match value {
        Some(v) => if trim(v) == "1"@ {
            r.line(Level::Fail, "blue light filter"@, "ON \u{2014} colours are warmed"@).hint(
                HINT_BLUE_LIGHT@,
            )
        } else if trim(v) == "0"@ {
            r.line(Level::Pass, "blue light filter"@, "off"@)
        } else {
            r
        },
        None => r,
    }
}

pub fn report_blue_light_filter(r: &mut Report, value: Option<&str>)
    requires
        old(r)@.room(1),
    ensures
        final(r)@ == blue_light_spec(old(r)@, opt_view(value)),
{
    match value {
        Some(v) => {
            if trimmed_is(v, "1") {
                r.line(
                    Level::Fail,
                    chars_of("blue light filter"),
                    chars_of("ON \u{2014} colours are warmed"),
                );
                r.hint(chars_of(HINT_BLUE_LIGHT));
            } else if trimmed_is(v, "0") {
                r.line(Level::Pass, chars_of("blue light filter"), chars_of("off"));
            }
        },
        None => {},
    }
}

pub const HINT_SCREEN_MODE: &'static str = "tablet: Settings \u{2192} Display \u{2192} Screen mode \u{2192} Natural";

/// The tablet's screen mode: "Natural" (2) is the sRGB-accurate one; an
/// empty or `null` setting says nothing.
pub open spec fn colour_mode_spec(r: ReportView, value: Option<Seq<char>>) -> ReportView {
    match value {
        Some(v) => {
            let t = trim(v);
            if t == "2"@ {
                r.line(Level::Pass, "tablet screen mode"@, "Natural (sRGB)"@)
            } else if t.len() > 0 && t != "null"@ {
                r.line(
                    Level::Warn,
                    "tablet screen mode"@,
                    t + " \u{2014} not the sRGB-accurate mode"@,
                ).hint(HINT_SCREEN_MODE@)
            } else {
                r
            }
        },
        None => r,
    }
}

pub fn report_tablet_colour_mode(r: &mut Report, value: Option<&str>)
    requires
        old(r)@.room(1),
    ensures
        final(r)@ == colour_mode_spec(old(r)@, opt_view(value)),
{
    match value {
        Some(v) => {
            let c = chars_of(v);
            let t = trim_chars(c.as_slice());
            let two = chars_of("2");
            let null = chars_of("null");
            if chars_eq(t, two.as_slice()) {
                r.line(Level::Pass, chars_of("tablet screen mode"), chars_of("Natural (sRGB)"));
            } else if t.len() > 0 && !chars_eq(t, null.as_slice()) {
                let mut d: Vec<char> = Vec::new();
                push_chars(&mut d, t);
                push_str(&mut d, " \u{2014} not the sRGB-accurate mode");
                r.line(Level::Warn, chars_of("tablet screen mode"), d);
                r.hint(chars_of(HINT_SCREEN_MODE));
            }
        },
        None => {},
    }
}

pub const HINT_MOTION: &'static str = "tablet: Settings \u{2192} Display \u{2192} Motion smoothness \u{2192} Adaptive (120 Hz)";

/// The tablet's motion smoothness: "Standard" (0) holds the panel at 60 Hz.
pub open spec fn refresh_mode_spec(r: ReportView, value: Option<Seq<char>>) -> ReportView {
    match value {
        Some(v) => {
            let t = trim(v);
            if t == "0"@ {
                r.line(
                    Level::Warn,
                    "tablet refresh rate"@,
                    "Motion smoothness is Standard \u{2014} the panel is held at 60 Hz"@,
                ).hint(HINT_MOTION@)
            } else if t.len() > 0 && t != "null"@ {
                r.line(Level::Pass, "tablet refresh rate"@, "Motion smoothness: adaptive"@)
            } else {
                r
            }
        },
        None => r,
    }
}

pub fn report_tablet_refresh_rate(r: &mut Report, value: Option<&str>)
    requires
        old(r)@.room(1),
    ensures
        final(r)@ == refresh_mode_spec(old(r)@, opt_view(value)),
{
    match value {
        Some(v) => {
            let c = chars_of(v);
            let t = trim_chars(c.as_slice());
            let zero = chars_of("0");
            let null = chars_of("null");
            if chars_eq(t, zero.as_slice()) {
                r.line(
                    Level::Warn,
                    chars_of("tablet refresh rate"),
                    chars_of("Motion smoothness is Standard \u{2014} the panel is held at 60 Hz"),
                );
                r.hint(chars_of(HINT_MOTION));
            } else if t.len() > 0 && !chars_eq(t, null.as_slice()) {
                r.line(
                    Level::Pass,
                    chars_of("tablet refresh rate"),
                    chars_of("Motion smoothness: adaptive"),
                );
            }
        },
        None => {},
    }
}


/// An output as the compositor's screen configuration lists it.
pub struct KscreenOutput {
    pub name: String,
    pub enabled: bool,
    pub width: i64,
    pub height: i64,
    pub icc_profile: String,
}

pub open spec fn string_views(s: Seq<String>) -> Seq<Seq<char>> {
    s.map_values(|x: String| x@)
}

fn holds_name(names: &[String], name: &str) -> (r: bool)
    ensures
        r == string_views(names@).contains(name@),
{
    let mut i: usize = 0;
    while i < names.len()
        invariant
            i <= names@.len(),
            forall|j: int| 0 <= j < i ==> string_views(names@)[j] != name@,
        decreases names@.len() - i,
    {
        if str_eq(names[i].as_str(), name) {
            assert(string_views(names@)[i as int] == name@);
            return true;
        }
        i = i + 1;
    }
    false
}

pub const HINT_OUTPUT_DISABLED: &'static str = "the daemon enables it while an attached tablet uses it as a screen; nothing is rendered while it is off";

/// One compositor output, if it is one of the EVDI outputs: disabled, or its
/// mode.
pub open spec fn display_output_spec(r: ReportView, cfg: FileConfig, names: Seq<Seq<char>>, out: KscreenOutput) -> ReportView {
    if !names.contains(out.name@) {
        r
    } else if !out.enabled {
        r.line(Level::Warn, "KDE output"@, out.name@ + " is disabled"@).hint(HINT_OUTPUT_DISABLED@)
    } else {
        output_mode_spec(r, cfg, out.name@, out.width, out.height)
    }
}

pub open spec fn display_outputs_spec(r: ReportView, cfg: FileConfig, names: Seq<Seq<char>>, outs: Seq<KscreenOutput>) -> ReportView
    decreases outs.len(),
{
    if outs.len() == 0 {
        r
    } else {
        display_output_spec(
            display_outputs_spec(r, cfg, names, outs.drop_last()),
            cfg,
            names,
            outs.last(),
        )
    }
}

/// The compositor's view of the EVDI outputs named `names`.
pub fn report_display_outputs(r: &mut Report, cfg: &FileConfig, names: &[String], outputs: &[KscreenOutput])
    requires
        old(r)@.room(outputs@.len()),
    ensures
        final(r)@ == display_outputs_spec(old(r)@, *cfg, string_views(names@), outputs@),
{
    let ghost start = r@;
    let ghost nv = string_views(names@);
    let mut i: usize = 0;
    while i < outputs.len()
        invariant
            i <= outputs@.len(),
            nv == string_views(names@),
            r@ == display_outputs_spec(start, *cfg, nv, outputs@.subrange(0, i as int)),
            r@.room((outputs@.len() - i) as nat),
        decreases outputs@.len() - i,
    {
        let out = &outputs[i];
        proof {
            let next = outputs@.subrange(0, i + 1);
            assert(next.drop_last() == outputs@.subrange(0, i as int));
            assert(next.last() == outputs@[i as int]);
        }
        if holds_name(names, out.name.as_str()) {
            if !out.enabled {
                let mut d = chars_of(out.name.as_str());
                push_str(&mut d, " is disabled");
                r.line(Level::Warn, chars_of("KDE output"), d);
                r.hint(chars_of(HINT_OUTPUT_DISABLED));
            } else {
                report_output_mode(r, cfg, out.name.as_str(), out.width, out.height);
            }
        }
        i = i + 1;
    }
    assert(outputs@.subrange(0, outputs@.len() as int) == outputs@);
}

pub const HINT_COLOUR_PROFILE: &'static str = "System Settings \u{2192} Display \u{2192} pick the UScreen display \u{2192} Color Profile. A generic sRGB profile is the right baseline; a measured one needs a colorimeter pointed at the tablet.";

/// The colour profile of one compositor output, if it is an EVDI output.
pub open spec fn colour_profile_spec(r: ReportView, names: Seq<Seq<char>>, out: KscreenOutput) -> ReportView {
    if !names.contains(out.name@) {
        r
    } else if out.icc_profile@.len() == 0 {
        r.line(Level::Warn, "colour profile"@, "none assigned to the virtual display"@).hint(
            HINT_COLOUR_PROFILE@,
        )
    } else {
        r.line(Level::Pass, "colour profile"@, out.icc_profile@)
    }
}

pub open spec fn colour_profiles_spec(r: ReportView, names: Seq<Seq<char>>, outs: Seq<KscreenOutput>) -> ReportView
    decreases outs.len(),
{
    if outs.len() == 0 {
        r
    } else {
        colour_profile_spec(colour_profiles_spec(r, names, outs.drop_last()), names, outs.last())
    }
}

/// Colour management applies to the EVDI outputs only, once a profile is
/// attached to them.
pub fn report_colour_profiles(r: &mut Report, names: &[String], outputs: &[KscreenOutput])
    requires
        old(r)@.room(outputs@.len()),
    ensures
        final(r)@ == colour_profiles_spec(old(r)@, string_views(names@), outputs@),
{
    let ghost start = r@;
    let ghost nv = string_views(names@);
    let mut i: usize = 0;
    while i < outputs.len()
        invariant
            i <= outputs@.len(),
            nv == string_views(names@),
            r@ == colour_profiles_spec(start, nv, outputs@.subrange(0, i as int)),
            r@.room((outputs@.len() - i) as nat),
        decreases outputs@.len() - i,
    {
        let out = &outputs[i];
        proof {
            let next = outputs@.subrange(0, i + 1);
            assert(next.drop_last() == outputs@.subrange(0, i as int));
            assert(next.last() == outputs@[i as int]);
        }
        if holds_name(names, out.name.as_str()) {
            if out.icc_profile.as_str().unicode_len() == 0 {
                r.line(
                    Level::Warn,
                    chars_of("colour profile"),
                    chars_of("none assigned to the virtual display"),
                );
                r.hint(chars_of(HINT_COLOUR_PROFILE));
            } else {
                r.line(Level::Pass, chars_of("colour profile"), chars_of(out.icc_profile.as_str()));
            }
        }
        i = i + 1;
    }
    assert(outputs@.subrange(0, outputs@.len() as int) == outputs@);
}

/// The serials `adb devices` lists as ready, in order: after the header
/// line, every line whose second word is `device`.
pub open spec fn ready_serials(lines: Seq<Seq<char>>) -> Seq<Seq<char>>
    decreases lines.len(),
{
    if lines.len() == 0 {
        Seq::empty()
    } else {
        let prev = ready_serials(lines.drop_last());
        let w = words(lines.last());
        if w.len() >= 2 && w[1] == "device"@ {
            prev.push(w[0])
        } else {
            prev
        }
    }
}

pub open spec fn attached_spec(list: Seq<char>) -> Seq<Seq<char>> {
    ready_serials(split(list, '\n').drop_first())
}

pub fn attached_devices(list: &str) -> (r: Vec<String>)
    ensures
        string_views(r@) == attached_spec(list@),
{
    let text = chars_of(list);
    let lines = split_chars(text.as_slice(), '\n');
    let ghost ls = split(list@, '\n');
    assert(lines@.map_values(|p: &[char]| p@) == ls);
    let mut out: Vec<String> = Vec::new();
    if lines.len() == 0 {
        return out;
    }
    let ghost body = ls.drop_first();
    let mut i: usize = 1;
    assert(body.subrange(0, 0) =~= Seq::<Seq<char>>::empty());
    assert(string_views(out@) =~= Seq::<Seq<char>>::empty());
    while i < lines.len()
        invariant
            1 <= i <= lines@.len(),
            lines@.map_values(|p: &[char]| p@) == ls,
            body == ls.drop_first(),
            string_views(out@) == ready_serials(body.subrange(0, i - 1)),
        decreases lines@.len() - i,
    {
        let ws = split_whitespace_chars(lines[i]);
        proof {
            let next = body.subrange(0, i as int);
            assert(next.drop_last() == body.subrange(0, i - 1));
            assert(next.last() == ls[i as int]);
            assert(ls[i as int] == lines@[i as int]@);
            assert(word_views(ws@) == words(next.last()));
        }
        if ws.len() >= 2 {
            let dev = chars_of("device");
            if chars_eq(ws[1].as_slice(), dev.as_slice()) {
                let ghost before = string_views(out@);
                out.push(crate::report::chars_to_string(ws[0].as_slice()));
                assert(string_views(out@) =~= before.push(word_views(ws@)[0]));
            }
        }
        i = i + 1;
    }
    assert(body.subrange(0, body.len() as int) == body);
    out
}

pub const HINT_ALLOW_DEBUGGING: &'static str = "accept the 'Allow USB debugging' prompt on the tablet";

/// No tablet session: an unauthorized device is the likely reason.
pub open spec fn no_session_spec(r: ReportView, list: Seq<char>) -> ReportView {
    if contains_sub(list, "unauthorized"@) {
        r.line(Level::Fail, "tablet"@, "attached but unauthorized"@).hint(HINT_ALLOW_DEBUGGING@)
    } else {
        r.line(Level::Warn, "tablet"@, "no active tablet session"@)
    }
}

pub fn report_no_session(r: &mut Report, list: &str)
    requires
        old(r)@.room(1),
    ensures
        final(r)@ == no_session_spec(old(r)@, list@),
{
    if crate::text::str_contains(list, "unauthorized") {
        r.line(Level::Fail, chars_of("tablet"), chars_of("attached but unauthorized"));
        r.hint(chars_of(HINT_ALLOW_DEBUGGING));
    } else {
        r.line(Level::Warn, chars_of("tablet"), chars_of("no active tablet session"));
    }
}

/// A tablet the daemon serves: its transport serial, slot and host ports.
pub struct TabletSession {
    pub serial: String,
    pub instance: u32,
    pub video_port: u16,
    pub input_port: u16,
}

/// An active session, numbered from one; a transport that `adb` no longer
/// lists is waited for.
pub open spec fn session_spec(r: ReportView, s: TabletSession, reachable: bool) -> ReportView {
    let r1 = r.line(
        Level::Pass,
        "tablet session"@,
        "slot "@ + decimal((s.instance + 1) as nat) + ": "@ + s.serial@ + " (video "@ + decimal(
            s.video_port as nat,
        ) + ", input "@ + decimal(s.input_port as nat) + ")"@,
    );
    if reachable {
        r1
    } else {
        r1.line(
            Level::Warn,
            "tablet"@,
            "active transport no longer reachable; waiting for daemon refresh"@,
        )
    }
}

pub fn report_session(r: &mut Report, session: &TabletSession, reachable: bool)
    requires
        old(r)@.room(1),
        session.instance < u32::MAX,
    ensures
        final(r)@ == session_spec(old(r)@, *session, reachable),
{
    let mut d = chars_of("slot ");
    push_decimal(&mut d, (session.instance + 1) as u64);
    push_str(&mut d, ": ");
    push_str(&mut d, session.serial.as_str());
    push_str(&mut d, " (video ");
    push_decimal(&mut d, session.video_port as u64);
    push_str(&mut d, ", input ");
    push_decimal(&mut d, session.input_port as u64);
    push_str(&mut d, ")");
    r.line(Level::Pass, chars_of("tablet session"), d);
    if !reachable {
        r.line(
            Level::Warn,
            chars_of("tablet"),
            chars_of("active transport no longer reachable; waiting for daemon refresh"),
        );
    }
}

/// How running the helper without arguments went.
pub enum HelperRun {
    Exited { success: bool, code: Option<i32>, stderr: String },
    Failed(String),
}

pub const HINT_HELPER_RUNTIME: &'static str = "reinstall UScreen and the libevdi runtime package for this distribution";
pub const HINT_HELPER_MISSING: &'static str = "reinstall UScreen (including evdi_helper) and its libevdi runtime dependency";

/// The helper runs: without arguments it prints its usage and exits before
/// opening EVDI, so success or exit code 1 with a usage message is healthy.
pub open spec fn helper_run_spec(r: ReportView, helper: Seq<char>, run: HelperRun) -> ReportView {
    match run {
        HelperRun::Exited { success, code, stderr } => if success || (code == Some(1i32)
            && contains_sub(stderr@, "Usage:"@)) {
            r.line(Level::Pass, "evdi_helper"@, helper)
        } else {
            r.line(Level::Fail, "evdi_helper"@, "could not execute normally: "@ + trim(stderr@)).hint(
                HINT_HELPER_RUNTIME@,
            )
        },
        HelperRun::Failed(e) => r.line(
            Level::Fail,
            "evdi_helper"@,
            "could not execute "@ + helper + ": "@ + e@,
        ).hint(HINT_HELPER_MISSING@),
    }
}

pub fn report_helper_execution(r: &mut Report, helper: &str, run: HelperRun)
    requires
        old(r)@.room(1),
    ensures
        final(r)@ == helper_run_spec(old(r)@, helper@, run),
{
    match run {
        HelperRun::Exited { success, code, stderr } => {
            let usage = code == Some(1i32) && crate::text::str_contains(stderr.as_str(), "Usage:");
            if success || usage {
                r.line(Level::Pass, chars_of("evdi_helper"), chars_of(helper));
            } else {
                let mut d = chars_of("could not execute normally: ");
                let e = chars_of(stderr.as_str());
                push_chars(&mut d, trim_chars(e.as_slice()));
                r.line(Level::Fail, chars_of("evdi_helper"), d);
                r.hint(chars_of(HINT_HELPER_RUNTIME));
            }
        },
        HelperRun::Failed(e) => {
            let mut d = chars_of("could not execute ");
            push_str(&mut d, helper);
            push_str(&mut d, ": ");
            push_str(&mut d, e.as_str());
            r.line(Level::Fail, chars_of("evdi_helper"), d);
            r.hint(chars_of(HINT_HELPER_MISSING));
        },
    }
}

/// What reading the configuration file gave: the settings as written, when
/// it could be read and parsed.
pub enum ConfigRead {
    Absent,
    Unreadable(String),
    Invalid(String),
    Valid(FileConfig),
}

pub const HINT_CONFIG_ACCESS: &'static str = "restore access to this file; runtime uses defaults until it can be read";
pub const HINT_CONFIG_REPAIR: &'static str = "repair the TOML; runtime uses defaults and partial updates preserve the invalid file";

/// The configuration file: a missing file means defaults, which is fine; an
/// unreadable or invalid one fails.
pub open spec fn config_file_spec(r: ReportView, path: Seq<char>, read: ConfigRead) -> ReportView {
    match read {
        ConfigRead::Absent => r.line(Level::Pass, "config file"@, path + " absent \u{2014} using defaults"@),
        ConfigRead::Unreadable(e) => r.line(
            Level::Fail,
            "config file"@,
            path + " unreadable: "@ + e@,
        ).hint(HINT_CONFIG_ACCESS@),
        ConfigRead::Invalid(e) => r.line(Level::Fail, "config file"@, path + " invalid: "@ + e@).hint(
            HINT_CONFIG_REPAIR@,
        ),
        ConfigRead::Valid(_) => r.line(Level::Pass, "config file"@, path),
    }
}

pub fn report_config_file(r: &mut Report, path: &str, read: &ConfigRead)
    requires
        old(r)@.room(1),
    ensures
        final(r)@ == config_file_spec(old(r)@, path@, *read),
{
    match read {
        ConfigRead::Absent => {
            let mut d = chars_of(path);
            push_str(&mut d, " absent \u{2014} using defaults");
            r.line(Level::Pass, chars_of("config file"), d);
        },
        ConfigRead::Unreadable(e) => {
            let mut d = chars_of(path);
            push_str(&mut d, " unreadable: ");
            push_str(&mut d, e.as_str());
            r.line(Level::Fail, chars_of("config file"), d);
            r.hint(chars_of(HINT_CONFIG_ACCESS));
        },
        ConfigRead::Invalid(e) => {
            let mut d = chars_of(path);
            push_str(&mut d, " invalid: ");
            push_str(&mut d, e.as_str());
            r.line(Level::Fail, chars_of("config file"), d);
            r.hint(chars_of(HINT_CONFIG_REPAIR));
        },
        ConfigRead::Valid(_) => {
            r.line(Level::Pass, chars_of("config file"), chars_of(path));
        },
    }
}

/// The settings as written on disk, when the file was read.
pub open spec fn on_disk(read: ConfigRead) -> Option<FileConfig> {
    match read {
        ConfigRead::Valid(c) => Some(c),
        _ => None,
    }
}

/// The configuration section: the file itself, then tablet capacity,
/// display, input devices and their dependencies, bitrate and frame rate.
/// `cfg` holds the values runtime acts on; the bitrate and frame rate are
/// also checked as written, since a stale value on disk is worth reporting
/// even though runtime clamps it.
pub open spec fn config_section_spec(r: ReportView, cfg: FileConfig, path: Seq<char>, read: ConfigRead, cards: u32) -> ReportView {
    let r1 = config_file_spec(r, path, read);
    let r2 = if cfg.max_tablets > 1 {
        capacity_spec(r1, cfg.max_tablets, cards)
    } else {
        r1
    };
    let r3 = dependencies_spec(input_spec(display_spec(r2, cfg), cfg), cfg);
    fps_spec(bitrate_spec(r3, cfg, on_disk(read)), cfg, on_disk(read))
}

pub fn check_config(r: &mut Report, cfg: &FileConfig, path: &str, read: ConfigRead, cards: u32)
    requires
        old(r)@.room(5),
    ensures
        final(r)@ == config_section_spec(old(r)@, *cfg, path@, read, cards),
{
    report_config_file(r, path, &read);
    check_tablet_capacity(r, cfg, cards);
    report_configured_display(r, cfg);
    report_configured_input(r, cfg);
    report_input_dependencies(r, cfg);
    let written = match &read {
        ConfigRead::Valid(c) => Some(c),
        _ => None,
    };
    report_configured_bitrate(r, cfg, written);
    report_configured_fps(r, cfg, written);
}

pub const EVDI_NOT_LOADED: &'static str = "The evdi kernel module is not loaded. Install it (evdi-dkms; on Arch it is in the AUR) and run: sudo modprobe evdi";
pub const EVDI_NO_DEVICE: &'static str = "No EVDI device exists and /sys/devices/evdi/add is root-only, so one cannot be created. Fix it for this boot with:\n    echo 1 | sudo tee /sys/devices/evdi/add\nand for every boot with:\n    echo 'options evdi initial_device_count=2' | sudo tee /etc/modprobe.d/blent-evdi.conf\nThis boot setting applies after reboot; preserve the loaded module.\nThen run: blent doctor";

/// Why the helper cannot get an EVDI device, in the words of someone who can
/// fix it: the module is not loaded, or it has no device (its count file,
/// trimmed, is not a positive 32-bit count). `None` when the state looks
/// fine and the failure was something else.
pub open spec fn evdi_problem_spec(module_loaded: bool, count: Option<Seq<char>>) -> Option<Seq<char>> {
    if !module_loaded {
        Some(EVDI_NOT_LOADED@)
    } else {
        let n = match count {
            Some(t) => match crate::number::parse_unsigned(trim(t), 10, u32::MAX as nat) {
                Some(v) => v,
                None => 0,
            },
            None => 0,
        };
        if n > 0 {
            None
        } else {
            Some(EVDI_NO_DEVICE@)
        }
    }
}

pub fn evdi_setup_problem(module_loaded: bool, count: Option<&str>) -> (r: Option<String>)
    ensures
        match evdi_problem_spec(module_loaded, opt_view(count)) {
            Some(t) => r matches Some(s) && s@ == t,
            None => r is None,
        },
{
    if !module_loaded {
        return Some(EVDI_NOT_LOADED.to_owned());
    }
    let n: u32 = match count {
        Some(t) => {
            let c = chars_of(t);
            match crate::number::parse_u32(trim_chars(c.as_slice())) {
                Some(v) => v,
                None => 0,
            }
        },
        None => 0,
    };
    if n > 0 {
        None
    } else {
        Some(EVDI_NO_DEVICE.to_owned())
    }
}

/// What `kscreen-doctor` gave for the compositor's outputs.
pub enum KscreenRead {
    /// It could not be run, or its report was not one to judge.
    Unavailable,
    /// It ran but printed something that is not JSON.
    InvalidJson,
    /// The outputs it reported.
    Outputs(Vec<KscreenOutput>),
}

pub const HINT_NO_CONNECTOR: &'static str = "the evdi module is loaded but exposes no DRM connector \u{2014} reboot or re-add";

pub open spec fn connector_names(cs: Seq<EvdiConnector>) -> Seq<Seq<char>> {
    cs.map_values(|c: EvdiConnector| c.name@)
}

/// The virtual display: no EVDI connector at all is a failure; otherwise
/// each connector, then the compositor's view of their outputs.
pub open spec fn virtual_display_spec(r: ReportView, cfg: FileConfig, cs: Seq<EvdiConnector>, read: KscreenRead) -> ReportView {
    if cs.len() == 0 {
        r.line(Level::Fail, "EVDI connector"@, "none found in sysfs"@).hint(HINT_NO_CONNECTOR@)
    } else {
        let with_connectors = connectors_spec(r, cs);
        match read {
            KscreenRead::Unavailable => with_connectors,
            KscreenRead::InvalidJson => with_connectors.line(
                Level::Warn,
                "kscreen-doctor"@,
                "unparseable JSON output"@,
            ),
            KscreenRead::Outputs(outs) => display_outputs_spec(
                with_connectors,
                cfg,
                connector_names(cs),
                outs@,
            ),
        }
    }
}

pub open spec fn kscreen_len(read: KscreenRead) -> nat {
    match read {
        KscreenRead::Outputs(outs) => outs@.len(),
        _ => 1,
    }
}

proof fn lemma_connectors_count(r: ReportView, cs: Seq<EvdiConnector>)
    ensures
        connectors_spec(r, cs).warnings <= r.warnings + cs.len(),
        connectors_spec(r, cs).failures == r.failures,
    decreases cs.len(),
{
    if cs.len() > 0 {
        lemma_connectors_count(r, cs.drop_last());
    }
}

pub fn check_virtual_display(r: &mut Report, cfg: &FileConfig, connectors: &[EvdiConnector], read: KscreenRead)
    requires
        old(r)@.room(connectors@.len() + kscreen_len(read) + 1),
    ensures
        final(r)@ == virtual_display_spec(old(r)@, *cfg, connectors@, read),
{
    if connectors.len() == 0 {
        r.line(Level::Fail, chars_of("EVDI connector"), chars_of("none found in sysfs"));
        r.hint(chars_of(HINT_NO_CONNECTOR));
        return;
    }
    proof {
        lemma_connectors_count(r@, connectors@);
    }
    report_connectors(r, connectors);
    match read {
        KscreenRead::Unavailable => {},
        KscreenRead::InvalidJson => {
            r.line(Level::Warn, chars_of("kscreen-doctor"), chars_of("unparseable JSON output"));
        },
        KscreenRead::Outputs(outs) => {
            let mut names: Vec<String> = Vec::new();
            let mut i: usize = 0;
            while i < connectors.len()
                invariant
                    i <= connectors@.len(),
                    string_views(names@) == connector_names(connectors@.subrange(0, i as int)),
                decreases connectors@.len() - i,
            {
                let ghost before = names@;
                names.push(connectors[i].name.clone());
                proof {
                    assert(string_views(names@) =~= string_views(before).push(connectors@[i as int].name@));
                    assert(connector_names(connectors@.subrange(0, i + 1)) =~= connector_names(
                        connectors@.subrange(0, i as int),
                    ).push(connectors@[i as int].name@));
                }
                i = i + 1;
            }
            assert(connectors@.subrange(0, connectors@.len() as int) == connectors@);
            report_display_outputs(r, cfg, names.as_slice(), outs.as_slice());
        },
    }
}

/// The session lines, in session order; a session is reachable when `adb`
/// lists its serial as ready.
pub open spec fn sessions_spec(r: ReportView, devices: Seq<Seq<char>>, ss: Seq<TabletSession>) -> ReportView
    decreases ss.len(),
{
    if ss.len() == 0 {
        r
    } else {
        session_spec(
            sessions_spec(r, devices, ss.drop_last()),
            ss.last(),
            devices.contains(ss.last().serial@),
        )
    }
}

/// The serials of the reachable sessions, in session order.
pub open spec fn selected_spec(devices: Seq<Seq<char>>, ss: Seq<TabletSession>) -> Seq<Seq<char>>
    decreases ss.len(),
{
    if ss.len() == 0 {
        Seq::empty()
    } else {
        let prev = selected_spec(devices, ss.drop_last());
        if devices.contains(ss.last().serial@) {
            prev.push(ss.last().serial@)
        } else {
            prev
        }
    }
}

/// Tablet selection: without any session, why (an unauthorized device, or
/// none); then each session's line, with a warning for one whose transport
/// `adb` (its device list `list`) no longer shows.
pub open spec fn selection_spec(r: ReportView, list: Seq<char>, ss: Seq<TabletSession>) -> ReportView {
    let r1 = if ss.len() == 0 {
        no_session_spec(r, list)
    } else {
        r
    };
    sessions_spec(r1, attached_spec(list), ss)
}

pub open spec fn slots_fit(ss: Seq<TabletSession>) -> bool {
    forall|i: int| 0 <= i < ss.len() ==> (#[trigger] ss[i]).instance < u32::MAX
}

/// One session's line against the serials `adb` lists as ready, and whether
/// its transport is still reachable (its per-session checks follow only
/// then).
pub fn select_session(r: &mut Report, devices: &[String], session: &TabletSession) -> (reachable: bool)
    requires
        old(r)@.room(1),
        session.instance < u32::MAX,
    ensures
        reachable == string_views(devices@).contains(session.serial@),
        final(r)@ == session_spec(old(r)@, *session, reachable),
{
    let reachable = holds_name(devices, session.serial.as_str());
    report_session(r, session, reachable);
    reachable
}

/// Report the tablet sessions against the device list and give the serials
/// of those still reachable, in session order, for the per-session checks.
pub fn select_sessions(r: &mut Report, list: &str, sessions: &[TabletSession]) -> (s: Vec<String>)
    requires
        old(r)@.room(sessions@.len() + 1),
        slots_fit(sessions@),
    ensures
        final(r)@ == selection_spec(old(r)@, list@, sessions@),
        string_views(s@) == selected_spec(attached_spec(list@), sessions@),
{
    let devices = attached_devices(list);
    let ghost dv = attached_spec(list@);
    if sessions.len() == 0 {
        report_no_session(r, list);
    }
    let ghost start = r@;
    let mut selected: Vec<String> = Vec::new();
    let mut i: usize = 0;
    assert(sessions@.subrange(0, 0) =~= Seq::<TabletSession>::empty());
    assert(string_views(selected@) =~= Seq::<Seq<char>>::empty());
    while i < sessions.len()
        invariant
            i <= sessions@.len(),
            string_views(devices@) == dv,
            dv == attached_spec(list@),
            slots_fit(sessions@),
            r@ == sessions_spec(start, dv, sessions@.subrange(0, i as int)),
            string_views(selected@) == selected_spec(dv, sessions@.subrange(0, i as int)),
            r@.room((sessions@.len() - i) as nat),
        decreases sessions@.len() - i,
    {
        let session = &sessions[i];
        assert(sessions@[i as int].instance < u32::MAX);
        let reachable = select_session(r, devices.as_slice(), session);
        let ghost before = string_views(selected@);
        if reachable {
            selected.push(session.serial.clone());
            assert(string_views(selected@) =~= before.push(session.serial@));
        }
        proof {
            let next = sessions@.subrange(0, i + 1);
            assert(next.drop_last() == sessions@.subrange(0, i as int));
            assert(next.last() == sessions@[i as int]);
        }
        i = i + 1;
    }
    assert(sessions@.subrange(0, sessions@.len() as int) == sessions@);
    selected
}

/// How a device is attached: over a USB cable, or over the network.
#[derive(Clone, Copy, Debug, PartialEq, Eq, Structural)]
pub enum Transport {
    Usb,
    Network,
}

/// The transport a serial names: a network endpoint (`host:port`) or an
/// mDNS wireless identifier is the network; any other serial is a cable.
pub open spec fn transport_spec(serial: Seq<char>) -> Transport {
    if contains_sub(serial, ":"@) || contains_sub(serial, "._adb-tls-connect._tcp"@) || contains_sub(
        serial,
        "._adb._tcp"@,
    ) {
        Transport::Network
    } else {
        Transport::Usb
    }
}

pub fn transport_of(serial: &str) -> (r: Transport)
    ensures
        r == transport_spec(serial@),
{
    if crate::text::str_contains(serial, ":") || crate::text::str_contains(
        serial,
        "._adb-tls-connect._tcp",
    ) || crate::text::str_contains(serial, "._adb._tcp") {
        Transport::Network
    } else {
        Transport::Usb
    }
}

/// Whether `pm path` for the app's package found it installed.
pub open spec fn installed_spec(pm_path: Option<Seq<char>>) -> bool {
    match pm_path {
        Some(out) => contains_sub(out, "package:"@),
        None => false,
    }
}

/// Whether the output of `pm path com.uscreen` (`None` when it could not run)
/// shows the app installed.
pub fn app_installed(pm_path: Option<&str>) -> (r: bool)
    ensures
        r == installed_spec(opt_view(pm_path)),
{
    match pm_path {
        Some(out) => crate::text::str_contains(out, "package:"),
        None => false,
    }
}

/// An attached device as a candidate tablet: its serial, the hardware
/// identity it reports (`None` when unknown), and whether the app is on it.
pub struct AttachedDevice {
    pub serial: String,
    pub identity: Option<String>,
    pub app_installed: bool,
}

pub struct DeviceView {
    pub serial: Seq<char>,
    pub identity: Option<Seq<char>>,
    pub installed: bool,
}

pub open spec fn device_view(d: AttachedDevice) -> DeviceView {
    DeviceView { serial: d.serial@, identity: opt_string_view(d.identity), installed: d.app_installed }
}

pub open spec fn opt_string_view(o: Option<String>) -> Option<Seq<char>> {
    match o {
        Some(s) => Some(s@),
        None => None,
    }
}

pub open spec fn device_views(ds: Seq<AttachedDevice>) -> Seq<DeviceView> {
    ds.map_values(|d: AttachedDevice| device_view(d))
}

pub open spec fn is_usb(d: DeviceView) -> bool {
    transport_spec(d.serial) == Transport::Usb
}

/// The devices of one transport kind, in the order `adb` lists them.
pub open spec fn of_kind(ds: Seq<DeviceView>, usb: bool) -> Seq<DeviceView>
    decreases ds.len(),
{
    if ds.len() == 0 {
        Seq::empty()
    } else {
        (if is_usb(ds[0]) == usb {
            seq![ds[0]]
        } else {
            Seq::<DeviceView>::empty()
        }) + of_kind(ds.drop_first(), usb)
    }
}

/// Cable-attached devices first, each kind in listed order.
pub open spec fn usb_first(ds: Seq<DeviceView>) -> Seq<DeviceView> {
    of_kind(ds, true) + of_kind(ds, false)
}

/// Going through `order`, a device whose identity was already seen is the
/// same tablet over another transport and is passed over; the first other
/// device with the app installed is the candidate.
pub open spec fn pick_from(order: Seq<DeviceView>, seen: Seq<Seq<char>>) -> Option<Seq<char>>
    decreases order.len(),
{
    if order.len() == 0 {
        None
    } else {
        let d = order[0];
        let rest = order.drop_first();
        match d.identity {
            Some(id) => if seen.contains(id) {
                pick_from(rest, seen)
            } else if d.installed {
                Some(d.serial)
            } else {
                pick_from(rest, seen.push(id))
            },
            None => if d.installed {
                Some(d.serial)
            } else {
                pick_from(rest, seen)
            },
        }
    }
}

/// The tablet to check when no daemon reports sessions.
pub open spec fn candidate_spec(ds: Seq<DeviceView>) -> Option<Seq<char>> {
    pick_from(usb_first(ds), Seq::empty())
}

proof fn lemma_of_kind_step(ds: Seq<DeviceView>, i: int, usb: bool)
    requires
        0 <= i < ds.len(),
    ensures
        of_kind(ds.subrange(i, ds.len() as int), usb) == (if is_usb(ds[i]) == usb {
            seq![ds[i]]
        } else {
            Seq::<DeviceView>::empty()
        }) + of_kind(ds.subrange(i + 1, ds.len() as int), usb),
{
    let s = ds.subrange(i, ds.len() as int);
    assert(s[0] == ds[i]);
    assert(s.drop_first() == ds.subrange(i + 1, ds.len() as int));
}

/// One pass of the candidate search over the devices of one kind, from
/// index 0, continuing with `tail` afterwards.
fn pick_pass(devices: &[AttachedDevice], usb: bool, seen: &mut Vec<String>, Ghost(tail): Ghost<Seq<DeviceView>>) -> (r: Option<usize>)
    ensures
        ({
            let ds = device_views(devices@);
            match r {
                Some(i) => i < devices@.len() && pick_from(of_kind(ds, usb) + tail, string_views(
                    old(seen)@,
                )) == Some(ds[i as int].serial),
                None => pick_from(of_kind(ds, usb) + tail, string_views(old(seen)@)) == pick_from(
                    tail,
                    string_views(final(seen)@),
                ),
            }
        }),
{
    let ghost ds = device_views(devices@);
    let ghost goal = pick_from(of_kind(ds, usb) + tail, string_views(seen@));
    let mut i: usize = 0;
    assert(ds.subrange(0, ds.len() as int) == ds);
    while i < devices.len()
        invariant
            i <= devices@.len(),
            ds == device_views(devices@),
            ds.len() == devices@.len(),
            goal == pick_from(of_kind(ds, usb) + tail, string_views(old(seen)@)),
            goal == pick_from(
                of_kind(ds.subrange(i as int, ds.len() as int), usb) + tail,
                string_views(seen@),
            ),
        decreases devices@.len() - i,
    {
        let d = &devices[i];
        let ghost dvi = ds[i as int];
        assert(dvi == device_view(devices@[i as int]));
        proof {
            lemma_of_kind_step(ds, i as int, usb);
        }
        let ghost rest = of_kind(ds.subrange(i + 1, ds.len() as int), usb) + tail;
        let kind = transport_of(d.serial.as_str());
        let d_usb = match kind {
            Transport::Usb => true,
            Transport::Network => false,
        };
        if d_usb == usb {
            let ghost order = seq![dvi] + rest;
            assert(of_kind(ds.subrange(i as int, ds.len() as int), usb) + tail == order);
            assert(order[0] == dvi);
            assert(order.drop_first() == rest);
            match &d.identity {
                Some(id) => {
                    if holds_name(seen.as_slice(), id.as_str()) {
                    } else if d.app_installed {
                        assert(dvi.identity == Some(id@));
                        assert(pick_from(order, string_views(seen@)) == Some(dvi.serial));
                        return Some(i);
                    } else {
                        let ghost before = string_views(seen@);
                        seen.push(id.clone());
                        assert(string_views(seen@) =~= before.push(id@));
                    }
                },
                None => {
                    if d.app_installed {
                        assert(dvi.identity is None);
                        assert(pick_from(order, string_views(seen@)) == Some(dvi.serial));
                        return Some(i);
                    }
                },
            }
        } else {
            assert(of_kind(ds.subrange(i as int, ds.len() as int), usb) + tail == rest);
        }
        i = i + 1;
    }
    assert(ds.subrange(i as int, ds.len() as int) =~= Seq::<DeviceView>::empty());
    assert(of_kind(Seq::<DeviceView>::empty(), usb) + tail == tail);
    None
}

/// The candidate tablet among the attached devices: cable-attached devices
/// first, one device per identity, the first with the app installed.
pub fn pick_candidate(devices: &[AttachedDevice]) -> (r: Option<String>)
    ensures
        opt_string_view(r) == candidate_spec(device_views(devices@)),
{
    let ghost ds = device_views(devices@);
    let mut seen: Vec<String> = Vec::new();
    assert(string_views(seen@) =~= Seq::<Seq<char>>::empty());
    match pick_pass(devices, true, &mut seen, Ghost(of_kind(ds, false))) {
        Some(i) => {
            return Some(devices[i].serial.clone());
        },
        None => {},
    }
    assert(of_kind(ds, false) + Seq::<DeviceView>::empty() == of_kind(ds, false));
    match pick_pass(devices, false, &mut seen, Ghost(Seq::<DeviceView>::empty())) {
        Some(i) => Some(devices[i].serial.clone()),
        None => {
            assert(pick_from(Seq::<DeviceView>::empty(), string_views(seen@)) is None);
            None
        },
    }
}

/// The sessions to check when no daemon reports any: a warning that a
/// candidate is being checked, and that candidate (if one is found) in slot
/// 0 on the configured ports.
pub fn candidate_sessions(r: &mut Report, cfg: &FileConfig, devices: &[AttachedDevice]) -> (s: Vec<TabletSession>)
    requires
        old(r)@.room(1),
    ensures
        final(r)@ == old(r)@.line(
            Level::Warn,
            "tablet selection"@,
            "no live daemon session report; checking a candidate"@,
        ),
        match candidate_spec(device_views(devices@)) {
            Some(serial) => s@.len() == 1 && s@[0].serial@ == serial && s@[0].instance == 0
                && s@[0].video_port == cfg.video_port && s@[0].input_port == cfg.input_port,
            None => s@.len() == 0,
        },
{
    r.line(
        Level::Warn,
        chars_of("tablet selection"),
        chars_of("no live daemon session report; checking a candidate"),
    );
    let mut out: Vec<TabletSession> = Vec::new();
    match pick_candidate(devices) {
        Some(serial) => {
            out.push(
                TabletSession {
                    serial,
                    instance: 0,
                    video_port: cfg.video_port,
                    input_port: cfg.input_port,
                },
            );
        },
        None => {},
    }
    out
}

/// Where the app's package is published: the fork's releases page.
pub const RELEASES_PAGE: &'static str = "https://github.com/geraldo-netto/UScreen/releases";

/// The tablet app, from `pm list packages com.uscreen` on the tablet
/// (`None` when that could not run, which reports nothing): installed, or
/// missing with the way to install it on this serial.
pub open spec fn tablet_app_spec(r: ReportView, serial: Seq<char>, packages: Option<Seq<char>>) -> ReportView {
    match packages {
        None => r,
        Some(out) => if contains_sub(out, "com.uscreen"@) {
            r.line(Level::Pass, "tablet app"@, "installed"@)
        } else {
            r.line(Level::Fail, "tablet app"@, "com.uscreen not installed"@).hint(
                "download uscreen.apk from "@ + RELEASES_PAGE@ + " then: adb -s "@ + serial
                    + " install -r uscreen.apk"@,
            )
        },
    }
}

pub fn report_tablet_app(r: &mut Report, serial: &str, packages: Option<&str>)
    requires
        old(r)@.room(1),
    ensures
        final(r)@ == tablet_app_spec(old(r)@, serial@, opt_view(packages)),
{
    match packages {
        None => {},
        Some(out) => {
            if crate::text::str_contains(out, "com.uscreen") {
                r.line(Level::Pass, chars_of("tablet app"), chars_of("installed"));
            } else {
                r.line(Level::Fail, chars_of("tablet app"), chars_of("com.uscreen not installed"));
                let mut h = chars_of("download uscreen.apk from ");
                push_str(&mut h, RELEASES_PAGE);
                push_str(&mut h, " then: adb -s ");
                push_str(&mut h, serial);
                push_str(&mut h, " install -r uscreen.apk");
                r.hint(h);
            }
        },
    }
}

} // verus!
