//! Codec diagnostics from read-only evidence: the requested encoder, the
//! encoder child seen running, and the decoder inventory the tablet app
//! reports. None of them establishes that the tablet decodes the stream.
use vstd::prelude::*;
use crate::annex_b::{wire_name_spec, Codec};
use crate::config::FileConfig;
use crate::encoding::{codec_of_spec, find, find_spec};
use crate::report::{Level, Report, ReportView};
use crate::text::{
    chars_eq, chars_of, ends_with, has_prefix, has_suffix, push_chars, push_str, split,
    split_chars, split_once, split_once_chars, split_once_str, split_once_sub, starts_with,
    str_eq, take_until, take_until_chars, trim, trim_chars,
};

verus! {

/// How the report names a codec.
pub open spec fn label_spec(codec: Codec) -> Seq<char> {
    match codec {
        Codec::H264 => "H.264"@,
        Codec::Hevc => "HEVC"@,
        Codec::Vp9 => "VP9"@,
        Codec::Av1 => "AV1"@,
    }
}

pub fn label(codec: Codec) -> (r: &'static str)
    ensures
        r@ == label_spec(codec),
{
    match codec {
        Codec::H264 => "H.264",
        Codec::Hevc => "HEVC",
        Codec::Vp9 => "VP9",
        Codec::Av1 => "AV1",
    }
}

/// Characters that end a report's payload.
pub open spec fn payload_stops() -> Seq<char> {
    seq!['"', '\r', '\n']
}

/// The text after `prefix` in the command output, up to the closing quote or
/// the end of the line, trimmed.
pub open spec fn payload_spec(output: Option<Seq<char>>, prefix: Seq<char>) -> Option<Seq<char>> {
    match output {
        None => None,
        Some(text) => match split_once_sub(text, prefix) {
            None => None,
            Some(parts) => Some(trim(take_until(parts.1, payload_stops()))),
        },
    }
}

pub fn payload(output: Option<&str>, prefix: &str) -> (r: Option<Vec<char>>)
    ensures
        r matches Some(v) ==> payload_spec(
            match output {
                Some(o) => Some(o@),
                None => None,
            },
            prefix@,
        ) == Some(v@),
        r is None <==> payload_spec(
            match output {
                Some(o) => Some(o@),
                None => None,
            },
            prefix@,
        ) is None,
{
    match output {
        None => None,
        Some(o) => {
            let text = chars_of(o);
            let p = chars_of(prefix);
            match split_once_str(text.as_slice(), p.as_slice()) {
                None => None,
                Some((_, tail)) => {
                    let stops = ['"', '\r', '\n'];
                    let head = take_until_chars(tail, stops.as_slice());
                    assert(stops@ == payload_stops());
                    let t = trim_chars(head);
                    let mut v: Vec<char> = Vec::new();
                    push_chars(&mut v, t);
                    Some(v)
                },
            }
        },
    }
}

/// The values given for `wire` among `name=value` entries, in order.
pub open spec fn matching_values(entries: Seq<Seq<char>>, wire: Seq<char>) -> Seq<Seq<char>>
    decreases entries.len(),
{
    if entries.len() == 0 {
        Seq::empty()
    } else {
        let prev = matching_values(entries.drop_last(), wire);
        match split_once(entries.last(), '=') {
            Some(pair) => if pair.0 == wire {
                prev.push(pair.1)
            } else {
                prev
            },
            None => prev,
        }
    }
}

/// The inventory for one codec: from the `;`-separated `codec=entries` list
/// of the current report format, where a codec listed twice is not guessed
/// at; for HEVC alone, the legacy report format is read too.
pub open spec fn inventory_spec(output: Option<Seq<char>>, codec: Codec) -> Option<Seq<char>> {
    match payload_spec(output, "BLENT_CODECS_V2:"@) {
        Some(text) => {
            let m = matching_values(split(text, ';'), wire_name_spec(codec));
            if m.len() == 1 {
                Some(m[0])
            } else {
                None
            }
        },
        None => if codec == Codec::Hevc {
            payload_spec(output, "BLENT_CODECS_V1:"@)
        } else {
            None
        },
    }
}

pub open spec fn opt_view(o: Option<&str>) -> Option<Seq<char>> {
    match o {
        Some(s) => Some(s@),
        None => None,
    }
}

pub open spec fn opt_vec_view(o: Option<Vec<char>>) -> Option<Seq<char>> {
    match o {
        Some(v) => Some(v@),
        None => None,
    }
}

pub fn inventory(output: Option<&str>, codec: Codec) -> (r: Option<Vec<char>>)
    ensures
        opt_vec_view(r) == inventory_spec(opt_view(output), codec),
{
    match payload(output, "BLENT_CODECS_V2:") {
        Some(text) => {
            let entries = split_chars(text.as_slice(), ';');
            let ghost es = split(text@, ';');
            let wire = codec.wire_name();
            let mut first: Option<&[char]> = None;
            let mut count: usize = 0;
            let mut i: usize = 0;
            while i < entries.len()
                invariant
                    i <= entries@.len(),
                    entries@.map_values(|p: &[char]| p@) == es,
                    wire@ == wire_name_spec(codec),
                    count == matching_values(es.subrange(0, i as int), wire@).len(),
                    count <= i,
                    count > 0 ==> (first matches Some(f) && f@ == matching_values(
                        es.subrange(0, i as int),
                        wire@,
                    )[0]),
                decreases entries@.len() - i,
            {
                let e = entries[i];
                proof {
                    let next = es.subrange(0, i + 1);
                    assert(next.drop_last() == es.subrange(0, i as int));
                    assert(next.last() == e@);
                }
                match split_once_chars(e, '=') {
                    Some((name, value)) => {
                        if chars_eq(name, wire.as_slice()) {
                            if count == 0 {
                                first = Some(value);
                            }
                            count = count + 1;
                        }
                    },
                    None => {},
                }
                i = i + 1;
            }
            assert(es.subrange(0, es.len() as int) == es);
            if count == 1 {
                match first {
                    Some(f) => {
                        let mut v: Vec<char> = Vec::new();
                        push_chars(&mut v, f);
                        Some(v)
                    },
                    None => None,
                }
            } else {
                None
            }
        },
        None => {
            if codec == Codec::Hevc {
                payload(output, "BLENT_CODECS_V1:")
            } else {
                None
            }
        },
    }
}


/// Whether the text equals a literal.
fn is_text(e: &[char], s: &str) -> (r: bool)
    ensures
        r == (e@ == s@),
{
    let t = chars_of(s);
    chars_eq(e, t.as_slice())
}

pub open spec fn valid_entry_spec(codec: Codec, entry: Seq<char>) -> bool {
    if codec == Codec::Hevc {
        entry == "hw8"@ || entry == "hw10"@ || entry == "sw8"@ || entry == "sw10"@ || entry
            == "unknown8"@ || entry == "unknown10"@
    } else {
        entry == "hw"@ || entry == "sw"@ || entry == "unclassified"@
    }
}

/// An inventory entry: HEVC entries carry the bit depth, the others do not.
pub fn valid_entry(codec: Codec, entry: &[char]) -> (r: bool)
    ensures
        r == valid_entry_spec(codec, entry@),
{
    if codec == Codec::Hevc {
        is_text(entry, "hw8") || is_text(entry, "hw10") || is_text(entry, "sw8") || is_text(
            entry,
            "sw10",
        ) || is_text(entry, "unknown8") || is_text(entry, "unknown10")
    } else {
        is_text(entry, "hw") || is_text(entry, "sw") || is_text(entry, "unclassified")
    }
}

pub open spec fn needs_main10_spec(cfg: FileConfig, codec: Codec) -> bool {
    codec == Codec::Hevc && cfg.ten_bit && cfg.encoder@ != "auto"@
}

/// A 10-bit HEVC stream was asked for explicitly.
pub fn needs_main10(cfg: &FileConfig, codec: Codec) -> (r: bool)
    ensures
        r == needs_main10_spec(*cfg, codec),
{
    codec == Codec::Hevc && cfg.ten_bit && !str_eq(cfg.encoder.as_str(), "auto")
}

/// An entry that can decode the requested stream.
pub open spec fn keeps(cfg: FileConfig, codec: Codec, e: Seq<char>) -> bool {
    !needs_main10_spec(cfg, codec) || has_suffix(e, "10"@)
}

pub open spec fn any_hw(cfg: FileConfig, codec: Codec, es: Seq<Seq<char>>) -> bool {
    exists|i: int| 0 <= i < es.len() && keeps(cfg, codec, es[i]) && has_prefix(es[i], "hw"@)
}

pub open spec fn any_hw10(cfg: FileConfig, codec: Codec, es: Seq<Seq<char>>) -> bool {
    exists|i: int| 0 <= i < es.len() && keeps(cfg, codec, es[i]) && es[i] == "hw10"@
}

pub open spec fn any_unknown(cfg: FileConfig, codec: Codec, es: Seq<Seq<char>>) -> bool {
    exists|i: int|
        0 <= i < es.len() && keeps(cfg, codec, es[i]) && (has_prefix(es[i], "unknown"@) || es[i]
            == "unclassified"@)
}

pub open spec fn hardware_label_spec(codec: Codec, hw10: bool) -> Seq<char> {
    "hardware "@ + label_spec(codec) + (if codec == Codec::Hevc && hw10 {
        " Main10"@
    } else {
        Seq::empty()
    }) + " reported by Android"@
}

pub open spec fn entry_views(es: Seq<&[char]>) -> Seq<Seq<char>> {
    es.map_values(|e: &[char]| e@)
}

/// The finding for a hardware decoder.
pub fn hardware_label(codec: Codec, entries: &[&[char]]) -> (r: String)
    ensures
        r@ == hardware_label_spec(
            codec,
            exists|i: int| 0 <= i < entries@.len() && entries@[i]@ == "hw10"@,
        ),
{
    let mut hw10 = false;
    let mut i: usize = 0;
    while i < entries.len()
        invariant
            i <= entries@.len(),
            hw10 == exists|j: int| 0 <= j < i && entries@[j]@ == "hw10"@,
        decreases entries@.len() - i,
    {
        if is_text(entries[i], "hw10") {
            hw10 = true;
        }
        i = i + 1;
    }
    let mut s = "hardware ".to_owned();
    s.append(label(codec));
    if codec == Codec::Hevc && hw10 {
        s.append(" Main10");
    }
    s.append(" reported by Android");
    s
}

/// The usable decoders, among those that can decode the requested stream:
/// hardware, then decoders of unknown acceleration, then software.
pub open spec fn usable_spec(r: ReportView, cfg: FileConfig, codec: Codec, es: Seq<Seq<char>>) -> ReportView {
    let name = label_spec(codec);
    if any_hw(cfg, codec, es) {
        r.line(
            Level::Pass,
            "tablet codec"@,
            hardware_label_spec(codec, any_hw10(cfg, codec, es)),
        )
    } else if any_unknown(cfg, codec, es) {
        r.line(Level::Warn, "tablet codec"@, name + " decoder reported; acceleration unknown"@)
    } else {
        r.line(
            Level::Warn,
            "tablet codec"@,
            name + " software decoder only; real-time performance is not guaranteed"@,
        )
    }
}

pub fn usable(r: &mut Report, cfg: &FileConfig, codec: Codec, entries: &[&[char]])
    requires
        old(r)@.room(1),
    ensures
        final(r)@ == usable_spec(old(r)@, *cfg, codec, entry_views(entries@)),
{
    let ghost es = entry_views(entries@);
    let main10 = needs_main10(cfg, codec);
    let ten = chars_of("10");
    let hw = chars_of("hw");
    let unknown = chars_of("unknown");
    let mut kept: Vec<&[char]> = Vec::new();
    let mut found_hw = false;
    let mut found_hw10 = false;
    let mut found_unknown = false;
    let mut i: usize = 0;
    while i < entries.len()
        invariant
            i <= entries@.len(),
            es == entry_views(entries@),
            main10 == needs_main10_spec(*cfg, codec),
            ten@ == "10"@,
            hw@ == "hw"@,
            unknown@ == "unknown"@,
            found_hw == exists|j: int|
                0 <= j < i && keeps(*cfg, codec, es[j]) && has_prefix(es[j], "hw"@),
            found_hw10 == exists|j: int| 0 <= j < i && keeps(*cfg, codec, es[j]) && es[j] == "hw10"@,
            found_unknown == exists|j: int|
                0 <= j < i && keeps(*cfg, codec, es[j]) && (has_prefix(es[j], "unknown"@) || es[j]
                    == "unclassified"@),
            forall|k: int| 0 <= k < kept@.len() ==> (#[trigger] kept@[k])@ != "hw10"@ || found_hw10,
            found_hw10 ==> exists|k: int| 0 <= k < kept@.len() && (#[trigger] kept@[k])@ == "hw10"@,
        decreases entries@.len() - i,
    {
        let e = entries[i];
        assert(es[i as int] == e@);
        if !main10 || ends_with(e, ten.as_slice()) {
            if starts_with(e, hw.as_slice()) {
                found_hw = true;
            }
            if is_text(e, "hw10") {
                found_hw10 = true;
            }
            if starts_with(e, unknown.as_slice()) || is_text(e, "unclassified") {
                found_unknown = true;
            }
            let ghost old_kept = kept@;
            kept.push(e);
            assert(kept@[kept@.len() - 1] == e);
            assert(forall|k: int| 0 <= k < old_kept.len() ==> kept@[k] == old_kept[k]);
        }
        i = i + 1;
    }
    let name = label(codec);
    if found_hw {
        let text = hardware_label(codec, kept.as_slice());
        r.line(Level::Pass, chars_of("tablet codec"), chars_of(text.as_str()));
    } else if found_unknown {
        let mut d = chars_of(name);
        push_str(&mut d, " decoder reported; acceleration unknown");
        r.line(Level::Warn, chars_of("tablet codec"), d);
    } else {
        let mut d = chars_of(name);
        push_str(&mut d, " software decoder only; real-time performance is not guaranteed");
        r.line(Level::Warn, chars_of("tablet codec"), d);
    }
}

/// The inventory's entries: the comma-separated list, empty when there is no
/// inventory.
pub open spec fn entries_of(report: Option<Seq<char>>) -> Seq<Seq<char>> {
    split(
        match report {
            Some(t) => t,
            None => Seq::empty(),
        },
        ',',
    )
}

pub const HINT_LEGACY_INVENTORY: &'static str = "install the current tablet APK, then rerun doctor; legacy inventories cannot establish support for this codec";

/// The finding for one codec family: no decoder (a failure only when the
/// family is required), an inventory that cannot be read, a missing Main10
/// decoder for a requested 10-bit stream, or the usable decoders.
pub open spec fn family_spec(r: ReportView, cfg: FileConfig, codec: Codec, report: Option<Seq<char>>, required: bool) -> ReportView {
    let name = label_spec(codec);
    let es = entries_of(report);
    if report == Some("none"@) {
        r.line(
            if required {
                Level::Fail
            } else {
                Level::Pass
            },
            "tablet codec"@,
            "no "@ + name + " decoder reported by MediaCodecList"@,
        )
    } else if !(forall|i: int| 0 <= i < es.len() ==> valid_entry_spec(codec, #[trigger] es[i])) {
        r.line(
            Level::Warn,
            "tablet codec"@,
            name + " capability unknown (no valid decoder inventory)"@,
        ).hint(HINT_LEGACY_INVENTORY@)
    } else if needs_main10_spec(cfg, codec) && !(exists|i: int|
        0 <= i < es.len() && has_suffix(#[trigger] es[i], "10"@)) {
        r.line(
            Level::Fail,
            "tablet codec"@,
            "HEVC Main10 not reported; requested 10-bit stream is unsupported by this inventory"@,
        )
    } else {
        usable_spec(r, cfg, codec, es)
    }
}

pub fn report_family(r: &mut Report, cfg: &FileConfig, codec: Codec, report: Option<&[char]>, required: bool)
    requires
        old(r)@.room(1),
    ensures
        final(r)@ == family_spec(
            old(r)@,
            *cfg,
            codec,
            match report {
                Some(t) => Some(t@),
                None => None,
            },
            required,
        ),
{
    let empty: [char; 0] = [];
    let text: &[char] = match report {
        Some(t) => t,
        None => empty.as_slice(),
    };
    assert(text@ == match report {
        Some(t) => t@,
        None => Seq::<char>::empty(),
    });
    let entries = split_chars(text, ',');
    let ghost es = entries_of(
        match report {
            Some(t) => Some(t@),
            None => None,
        },
    );
    assert(entry_views(entries@) == es);
    let name = label(codec);
    let is_none = match report {
        Some(t) => is_text(t, "none"),
        None => false,
    };
    if is_none {
        let level = if required {
            Level::Fail
        } else {
            Level::Pass
        };
        let mut d = chars_of("no ");
        push_str(&mut d, name);
        push_str(&mut d, " decoder reported by MediaCodecList");
        r.line(level, chars_of("tablet codec"), d);
        return;
    }
    let ten = chars_of("10");
    let mut valid = true;
    let mut any_ten = false;
    let mut i: usize = 0;
    while i < entries.len()
        invariant
            i <= entries@.len(),
            es == entry_views(entries@),
            ten@ == "10"@,
            valid == forall|j: int| 0 <= j < i ==> valid_entry_spec(codec, #[trigger] es[j]),
            any_ten == exists|j: int| 0 <= j < i && has_suffix(#[trigger] es[j], "10"@),
        decreases entries@.len() - i,
    {
        let e = entries[i];
        assert(es[i as int] == e@);
        if !valid_entry(codec, e) {
            valid = false;
        }
        if ends_with(e, ten.as_slice()) {
            any_ten = true;
        }
        i = i + 1;
    }
    if !valid {
        let mut d = chars_of(name);
        push_str(&mut d, " capability unknown (no valid decoder inventory)");
        r.line(Level::Warn, chars_of("tablet codec"), d);
        r.hint(chars_of(HINT_LEGACY_INVENTORY));
    } else if needs_main10(cfg, codec) && !any_ten {
        r.line(
            Level::Fail,
            chars_of("tablet codec"),
            chars_of(
                "HEVC Main10 not reported; requested 10-bit stream is unsupported by this inventory",
            ),
        );
    } else {
        usable(r, cfg, codec, entries.as_slice());
    }
}


pub const HINT_INVENTORY_IS_NOT_A_TEST: &'static str = "Decoder inventory is not a decode test or speed measurement; exact stream compatibility is negotiated by the connected app.";

/// One family of the codec report: with `auto` every family is listed and
/// only H.264 is required; otherwise only the requested family, which is.
pub open spec fn family_step_spec(r: ReportView, cfg: FileConfig, output: Option<Seq<char>>, codec: Codec) -> ReportView {
    let auto = cfg.encoder@ == "auto"@;
    if auto || codec == codec_of_spec(cfg.encoder@) {
        family_spec(
            r,
            cfg,
            codec,
            inventory_spec(output, codec),
            !auto || codec == Codec::H264,
        )
    } else {
        r
    }
}

/// The codec report: an unknown encoder names no codec family; otherwise
/// every relevant family in the order H.264, HEVC, VP9, AV1, then a note on
/// what an inventory proves.
pub open spec fn codec_report_spec(r: ReportView, cfg: FileConfig, output: Option<Seq<char>>) -> ReportView {
    if cfg.encoder@ != "auto"@ && find_spec(cfg.encoder@) is None {
        r.line(
            Level::Warn,
            "tablet codec"@,
            "unknown encoder; requested codec family cannot be determined"@,
        )
    } else {
        family_step_spec(
            family_step_spec(
                family_step_spec(family_step_spec(r, cfg, output, Codec::H264), cfg, output, Codec::Hevc),
                cfg,
                output,
                Codec::Vp9,
            ),
            cfg,
            output,
            Codec::Av1,
        ).hint(HINT_INVENTORY_IS_NOT_A_TEST@)
    }
}

fn family_step(r: &mut Report, cfg: &FileConfig, output: Option<&str>, codec: Codec, auto: bool, requested: Codec)
    requires
        old(r)@.room(1),
        auto == (cfg.encoder@ == "auto"@),
        requested == crate::encoding::codec_of_spec(cfg.encoder@),
    ensures
        final(r)@ == family_step_spec(old(r)@, *cfg, opt_view(output), codec),
{
    if auto || codec == requested {
        let required = !auto || codec == Codec::H264;
        let inv = inventory(output, codec);
        match inv {
            Some(v) => report_family(r, cfg, codec, Some(v.as_slice()), required),
            None => report_family(r, cfg, codec, None, required),
        }
    }
}

/// A family adds at most one finding to either count.
pub proof fn lemma_family_step_counts(r: ReportView, cfg: FileConfig, output: Option<Seq<char>>, codec: Codec)
    ensures
        family_step_spec(r, cfg, output, codec).warnings <= r.warnings + 1,
        family_step_spec(r, cfg, output, codec).failures <= r.failures + 1,
{
}

pub fn report_codec(r: &mut Report, cfg: &FileConfig, output: Option<&str>)
    requires
        old(r)@.room(4),
    ensures
        final(r)@ == codec_report_spec(old(r)@, *cfg, opt_view(output)),
{
    let auto = str_eq(cfg.encoder.as_str(), "auto");
    if !auto && find(cfg.encoder.as_str()).is_none() {
        r.line(
            Level::Warn,
            chars_of("tablet codec"),
            chars_of("unknown encoder; requested codec family cannot be determined"),
        );
        return;
    }
    let requested = crate::encoding::codec_from_encoder(cfg.encoder.as_str());
    let ghost o = opt_view(output);
    let ghost r0 = r@;
    family_step(r, cfg, output, Codec::H264, auto, requested);
    proof { lemma_family_step_counts(r0, *cfg, o, Codec::H264); }
    let ghost r1 = r@;
    family_step(r, cfg, output, Codec::Hevc, auto, requested);
    proof { lemma_family_step_counts(r1, *cfg, o, Codec::Hevc); }
    let ghost r2 = r@;
    family_step(r, cfg, output, Codec::Vp9, auto, requested);
    proof { lemma_family_step_counts(r2, *cfg, o, Codec::Vp9); }
    family_step(r, cfg, output, Codec::Av1, auto, requested);
    r.hint(chars_of(HINT_INVENTORY_IS_NOT_A_TEST));
}

/// The values that follow `key` in an argument list.
pub open spec fn values_after(args: Seq<Seq<char>>, key: Seq<char>) -> Seq<Seq<char>>
    decreases args.len(),
{
    if args.len() < 2 {
        Seq::empty()
    } else {
        (if args[0] == key {
            seq![args[1]]
        } else {
            Seq::empty()
        }) + values_after(args.drop_first(), key)
    }
}

pub open spec fn string_views(args: Seq<String>) -> Seq<Seq<char>> {
    args.map_values(|a: String| a@)
}

/// The value of an option given exactly once.
pub open spec fn argument_spec(args: Seq<Seq<char>>, key: Seq<char>) -> Option<Seq<char>> {
    let vs = values_after(args, key);
    if vs.len() == 1 {
        Some(vs[0])
    } else {
        None
    }
}

pub fn argument<'a>(args: &'a [String], key: &str) -> (r: Option<&'a str>)
    ensures
        r matches Some(v) ==> argument_spec(string_views(args@), key@) == Some(v@),
        r is None <==> argument_spec(string_views(args@), key@) is None,
{
    let ghost all = string_views(args@);
    let ghost mut got: Seq<Seq<char>> = Seq::empty();
    let mut found: Option<&'a str> = None;
    let mut count: usize = 0;
    let mut i: usize = 0;
    assert(all.subrange(0, all.len() as int) == all);
    while args.len() - i > 1
        invariant
            i <= args@.len(),
            all == string_views(args@),
            values_after(all, key@) == got + values_after(all.subrange(i as int, all.len() as int), key@),
            count == got.len(),
            count <= i,
            count > 0 ==> (found matches Some(f) && f@ == got[0]),
        decreases args@.len() - i,
    {
        let ghost rest = all.subrange(i as int, all.len() as int);
        assert(rest.drop_first() == all.subrange(i + 1, all.len() as int));
        assert(rest[0] == args@[i as int]@ && rest[1] == args@[i + 1]@);
        if str_eq(args[i].as_str(), key) {
            if count == 0 {
                found = Some(args[i + 1].as_str());
            }
            proof {
                got = got.push(args@[i + 1]@);
            }
            count = count + 1;
        }
        i = i + 1;
    }
    if count == 1 {
        found
    } else {
        None
    }
}


/// The encoder setting a running encoder child was started with: its `-c:v`
/// given once and known to the host, with the VAAPI baseline profile told
/// apart by its `-profile:v`.
pub open spec fn observed_profile_spec(args: Seq<Seq<char>>) -> Option<Seq<char>> {
    match argument_spec(args, "-c:v"@) {
        None => None,
        Some(name) => if find_spec(name) is None {
            None
        } else if name == "h264_vaapi"@ && argument_spec(args, "-profile:v"@) == Some(
            "constrained_baseline"@,
        ) {
            Some("h264_vaapi_baseline"@)
        } else {
            Some(name)
        },
    }
}

pub fn observed_profile<'a>(args: &'a [String]) -> (r: Option<&'a str>)
    ensures
        r matches Some(v) ==> observed_profile_spec(string_views(args@)) == Some(v@),
        r is None <==> observed_profile_spec(string_views(args@)) is None,
{
    let name = match argument(args, "-c:v") {
        Some(n) => n,
        None => return None,
    };
    if find(name).is_none() {
        return None;
    }
    if str_eq(name, "h264_vaapi") {
        match argument(args, "-profile:v") {
            Some(p) => {
                if str_eq(p, "constrained_baseline") {
                    return Some("h264_vaapi_baseline");
                }
            },
            None => {},
        }
    }
    Some(name)
}

/// The encoder finding: what was requested and which encoder child was seen
/// running, neither of which proves decoding.
pub open spec fn encoder_selection_spec(r: ReportView, cfg: FileConfig, observed: Option<Seq<char>>) -> ReportView {
    r.line(
        Level::Pass,
        "encoder selection"@,
        "requested "@ + cfg.encoder@ + "; observed running child "@ + (match observed {
            Some(o) => o,
            None => "unknown"@,
        }) + " (decoding unverified)"@,
    )
}

pub fn report_encoder_selection(r: &mut Report, cfg: &FileConfig, observed: Option<&str>)
    ensures
        final(r)@ == encoder_selection_spec(old(r)@, *cfg, opt_view(observed)),
{
    let mut d = chars_of("requested ");
    push_str(&mut d, cfg.encoder.as_str());
    push_str(&mut d, "; observed running child ");
    match observed {
        Some(o) => push_str(&mut d, o),
        None => push_str(&mut d, "unknown"),
    }
    push_str(&mut d, " (decoding unverified)");
    r.line(Level::Pass, chars_of("encoder selection"), d);
}

} // verus!
