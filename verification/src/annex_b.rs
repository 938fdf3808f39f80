//! Annex B start-code scanning and decoder-configuration extraction.
use vstd::prelude::*;
use vstd::slice::slice_subrange;

verus! {

/// Video codecs carried by the stream.
#[derive(Clone, Copy, Debug, PartialEq, Eq, Structural)]
pub enum Codec {
    H264,
    Hevc,
    Vp9,
    Av1,
}

/// Name of the codec in encoder reports and on the wire.
pub open spec fn wire_name_spec(codec: Codec) -> Seq<char> {
    match codec {
        Codec::H264 => seq!['h', '2', '6', '4'],
        Codec::Hevc => seq!['h', 'e', 'v', 'c'],
        Codec::Vp9 => seq!['v', 'p', '9'],
        Codec::Av1 => seq!['a', 'v', '1'],
    }
}

impl Codec {
    /// Name of the codec in encoder reports and on the wire.
    pub fn wire_name(&self) -> (r: Vec<char>)
        ensures
            r@ == wire_name_spec(*self),
    {
        let r = match self {
            Codec::H264 => vec!['h', '2', '6', '4'],
            Codec::Hevc => vec!['h', 'e', 'v', 'c'],
            Codec::Vp9 => vec!['v', 'p', '9'],
            Codec::Av1 => vec!['a', 'v', '1'],
        };
        assert(r@ == wire_name_spec(*self));
        r
    }

    /// Name of the codec in encoder reports and on the wire.
    pub fn wire_str(&self) -> (r: &'static str)
        ensures
            r@ == wire_name_spec(*self),
    {
        match self {
            Codec::H264 => {
                proof {
                    reveal_strlit("h264");
                }
                "h264"
            },
            Codec::Hevc => {
                proof {
                    reveal_strlit("hevc");
                }
                "hevc"
            },
            Codec::Vp9 => {
                proof {
                    reveal_strlit("vp9");
                }
                "vp9"
            },
            Codec::Av1 => {
                proof {
                    reveal_strlit("av1");
                }
                "av1"
            },
        }
    }
}

/// Length of the start code at byte `i` of `s`: four bytes `00 00 00 01`
/// or three bytes `00 00 01`.
pub open spec fn prefix_len_at(s: Seq<u8>, i: int) -> Option<nat> {
    if 0 <= i && i + 4 <= s.len() && s[i] == 0 && s[i + 1] == 0 && s[i + 2] == 0 && s[i + 3] == 1 {
        Some(4)
    } else if 0 <= i && i + 3 <= s.len() && s[i] == 0 && s[i + 1] == 0 && s[i + 2] == 1 {
        Some(3)
    } else {
        None
    }
}

/// The start codes found by a left-to-right scan from byte `i`: each match
/// yields its start offset and the offset just past the start code, and the
/// scan resumes after the match. Scanning stops when fewer than three bytes
/// remain.
pub open spec fn starts_from(s: Seq<u8>, i: int) -> Seq<(int, int)>
    decreases s.len() - i,
{
    if i + 3 > s.len() {
        seq![]
    } else {
        match prefix_len_at(s, i) {
            Some(n) => seq![(i, i + n)] + starts_from(s, i + n),
            None => starts_from(s, i + 1),
        }
    }
}

pub open spec fn starts_spec(s: Seq<u8>) -> Seq<(int, int)> {
    starts_from(s, 0)
}

pub open spec fn pairs_view(v: Seq<(usize, usize)>) -> Seq<(int, int)> {
    v.map_values(|p: (usize, usize)| (p.0 as int, p.1 as int))
}

/// Length of the Annex B prefix at the beginning of a slice.
pub fn annex_b_prefix_len(data: &[u8]) -> (r: Option<usize>)
    ensures
        r matches Some(n) ==> prefix_len_at(data@, 0) == Some(n as nat),
        r is None <==> prefix_len_at(data@, 0) is None,
{
    prefix_len_from(data, 0)
}

fn prefix_len_from(data: &[u8], i: usize) -> (r: Option<usize>)
    requires
        i <= data@.len(),
    ensures
        r matches Some(n) ==> prefix_len_at(data@, i as int) == Some(n as nat),
        r is None <==> prefix_len_at(data@, i as int) is None,
{
    let len = data.len();
    if len - i >= 4 && data[i] == 0 && data[i + 1] == 0 && data[i + 2] == 0 && data[i + 3] == 1 {
        Some(4)
    } else if len - i >= 3 && data[i] == 0 && data[i + 1] == 0 && data[i + 2] == 1 {
        Some(3)
    } else {
        None
    }
}

proof fn lemma_starts_from_bounds(s: Seq<u8>, i: int)
    requires
        0 <= i,
    ensures
        forall|k: int|
            0 <= k < starts_from(s, i).len() ==> {
                let p = #[trigger] starts_from(s, i)[k];
                &&& i <= p.0
                &&& p.0 < p.1 <= s.len()
                &&& prefix_len_at(s, p.0) == Some((p.1 - p.0) as nat)
            },
        forall|a: int, b: int|
            0 <= a < b < starts_from(s, i).len() ==> (#[trigger] starts_from(s, i)[a]).1
                <= (#[trigger] starts_from(s, i)[b]).0,
    decreases s.len() - i,
{
    if i + 3 > s.len() {
    } else {
        match prefix_len_at(s, i) {
            Some(n) => {
                lemma_starts_from_bounds(s, i + n);
                let rest = starts_from(s, i + n);
                assert(starts_from(s, i) == seq![(i, i + n)] + rest);
                assert forall|a: int, b: int|
                    0 <= a < b < starts_from(s, i).len() implies (#[trigger] starts_from(
                        s,
                        i,
                    )[a]).1 <= (#[trigger] starts_from(s, i)[b]).0 by {
                    if a == 0 {
                        assert(starts_from(s, i)[b] == rest[b - 1]);
                    } else {
                        assert(starts_from(s, i)[b] == rest[b - 1]);
                        assert(starts_from(s, i)[a] == rest[a - 1]);
                    }
                }
                assert forall|k: int| 0 <= k < starts_from(s, i).len() implies {
                    let p = #[trigger] starts_from(s, i)[k];
                    &&& i <= p.0
                    &&& p.0 < p.1 <= s.len()
                    &&& prefix_len_at(s, p.0) == Some((p.1 - p.0) as nat)
                } by {
                    if k > 0 {
                        assert(starts_from(s, i)[k] == rest[k - 1]);
                    }
                }
            },
            None => {
                lemma_starts_from_bounds(s, i + 1);
            },
        }
    }
}

/// Every reported start code is a real start code, the header offset is just
/// past it, and the matches appear in increasing, non-overlapping order.
pub proof fn lemma_starts_well_formed(s: Seq<u8>)
    ensures
        forall|k: int|
            0 <= k < starts_spec(s).len() ==> {
                let p = #[trigger] starts_spec(s)[k];
                &&& 0 <= p.0 < p.1 <= s.len()
                &&& prefix_len_at(s, p.0) == Some((p.1 - p.0) as nat)
            },
        forall|a: int, b: int|
            0 <= a < b < starts_spec(s).len() ==> (#[trigger] starts_spec(s)[a]).1 <= (
            #[trigger] starts_spec(s)[b]).0,
{
    lemma_starts_from_bounds(s, 0);
}

/// Start-code and NAL-header offsets, including an incomplete trailing prefix.
pub fn annex_b_starts(data: &[u8]) -> (r: Vec<(usize, usize)>)
    ensures
        pairs_view(r@) == starts_spec(data@),
{
    let mut out: Vec<(usize, usize)> = Vec::new();
    let mut offset: usize = 0;
    let len = data.len();
    while len >= 3 && offset <= len - 3
        invariant
            len == data@.len(),
            offset <= len,
            pairs_view(out@) + starts_from(data@, offset as int) == starts_spec(data@),
        decreases len - offset,
    {
        let ghost before = pairs_view(out@);
        match prefix_len_from(data, offset) {
            Some(n) => {
                out.push((offset, offset + n));
                assert(pairs_view(out@) == before + seq![(offset as int, (offset + n) as int)]);
                assert(starts_from(data@, offset as int) == seq![(offset as int, (offset + n) as int)]
                    + starts_from(data@, (offset + n) as int));
                offset = offset + n;
            },
            None => {
                offset = offset + 1;
            },
        }
    }
    assert(starts_from(data@, offset as int) == Seq::<(int, int)>::empty());
    assert(pairs_view(out@) + Seq::<(int, int)>::empty() == pairs_view(out@));
    out
}


/// Index of the parameter set that a NAL header announces: H.264 SPS and PPS
/// (types 7 and 8); HEVC VPS, SPS and PPS (types 32, 33 and 34).
pub open spec fn slot_of(header: u8, codec: Codec) -> Option<nat> {
    match codec {
        Codec::H264 => {
            let kind = header & 0x1f;
            if kind == 7 {
                Some(0)
            } else if kind == 8 {
                Some(1)
            } else {
                None
            }
        },
        Codec::Hevc => {
            let kind = (header >> 1) & 0x3f;
            if kind == 32 {
                Some(0)
            } else if kind == 33 {
                Some(1)
            } else if kind == 34 {
                Some(2)
            } else {
                None
            }
        },
        Codec::Vp9 | Codec::Av1 => None,
    }
}

/// Number of parameter sets a complete decoder configuration holds.
pub open spec fn set_count(codec: Codec) -> nat {
    if codec == Codec::Hevc { 3 } else { 2 }
}

/// NAL header length beyond its first byte that must be present (HEVC headers
/// are two bytes long).
pub open spec fn header_extra(codec: Codec) -> int {
    if codec == Codec::Hevc { 1 } else { 0 }
}

/// End of the `n`-th NAL unit: the next start code, or the end of the data.
pub open spec fn unit_end(s: Seq<u8>, st: Seq<(int, int)>, n: int) -> int {
    if n + 1 < st.len() { st[n + 1].0 } else { s.len() as int }
}

/// The `n`-th unit, start code included, when it is a complete parameter set
/// for slot `k`.
pub open spec fn unit_fills_slot(s: Seq<u8>, codec: Codec, st: Seq<(int, int)>, n: int, k: nat) -> bool {
    let header = st[n].1;
    &&& header + header_extra(codec) < unit_end(s, st, n)
    &&& slot_of(s[header], codec) == Some(k)
}

/// The last unit among the first `n` that fills slot `k`, as a byte range.
pub open spec fn chosen_range(s: Seq<u8>, codec: Codec, st: Seq<(int, int)>, k: nat, n: int) -> Option<(int, int)>
    decreases n,
{
    if n <= 0 {
        None
    } else if unit_fills_slot(s, codec, st, n - 1, k) {
        Some((st[n - 1].0, unit_end(s, st, n - 1)))
    } else {
        chosen_range(s, codec, st, k, n - 1)
    }
}

pub open spec fn chosen_set(s: Seq<u8>, codec: Codec, k: nat) -> Option<Seq<u8>> {
    let st = starts_spec(s);
    match chosen_range(s, codec, st, k, st.len() as int) {
        Some(r) => Some(s.subrange(r.0, r.1)),
        None => None,
    }
}

/// The decoder configuration of an access unit: the last complete parameter
/// set of each kind, concatenated in slot order, if every kind is present.
pub open spec fn parameter_sets_spec(s: Seq<u8>, codec: Codec) -> Option<Seq<u8>> {
    let count = set_count(codec);
    if chosen_set(s, codec, 0) is Some && chosen_set(s, codec, 1) is Some && (count == 2
        || chosen_set(s, codec, 2) is Some) {
        let two = chosen_set(s, codec, 0).unwrap() + chosen_set(s, codec, 1).unwrap();
        if count == 2 {
            Some(two)
        } else {
            Some(two + chosen_set(s, codec, 2).unwrap())
        }
    } else {
        None
    }
}

fn parameter_set_slot(header: u8, codec: Codec) -> (r: Option<usize>)
    ensures
        r matches Some(k) ==> slot_of(header, codec) == Some(k as nat),
        r is None <==> slot_of(header, codec) is None,
{
    match codec {
        Codec::H264 => {
            let kind = header & 0x1f;
            if kind == 7 {
                Some(0)
            } else if kind == 8 {
                Some(1)
            } else {
                None
            }
        },
        Codec::Hevc => {
            let kind = (header >> 1) & 0x3f;
            if kind == 32 {
                Some(0)
            } else if kind == 33 {
                Some(1)
            } else if kind == 34 {
                Some(2)
            } else {
                None
            }
        },
        Codec::Vp9 | Codec::Av1 => None,
    }
}

/// Collect the complete decoder configuration from an Annex B access unit.
/// AUD, SEI and slice units are ignored, and an incomplete configuration is
/// never returned.
pub fn extract_parameter_sets(au: &[u8], codec: Codec) -> (r: Option<Vec<u8>>)
    ensures
        r matches Some(v) ==> parameter_sets_spec(au@, codec) == Some(v@),
        r is None <==> parameter_sets_spec(au@, codec) is None,
{
    let starts = annex_b_starts(au);
    let ghost st = starts_spec(au@);
    proof {
        lemma_starts_well_formed(au@);
    }
    let extra: usize = if codec == Codec::Hevc { 1 } else { 0 };
    let mut sets: [Option<(usize, usize)>; 3] = [None, None, None];
    let mut n: usize = 0;
    while n < starts.len()
        invariant
            n <= starts@.len(),
            pairs_view(starts@) == st,
            st == starts_spec(au@),
            extra as int == header_extra(codec),
            forall|k: int|
                0 <= k < st.len() ==> {
                    let p = #[trigger] st[k];
                    &&& 0 <= p.0 < p.1 <= au@.len()
                },
            forall|a: int, b: int| 0 <= a < b < st.len() ==> (#[trigger] st[a]).1 <= (#[trigger] st[b]).0,
            forall|k: int|
                0 <= k < 3 ==> match #[trigger] sets@[k] {
                    Some(r) => chosen_range(au@, codec, st, k as nat, n as int) == Some(
                        (r.0 as int, r.1 as int),
                    ),
                    None => chosen_range(au@, codec, st, k as nat, n as int) is None,
                },
        decreases starts@.len() - n,
    {
        let (start, header) = starts[n];
        assert(st[n as int] == (start as int, header as int));
        let end = if n + 1 < starts.len() {
            let next = starts[n + 1].0;
            assert(st[n + 1] == (next as int, starts@[n + 1].1 as int));
            next
        } else {
            au.len()
        };
        assert(end as int == unit_end(au@, st, n as int));
        if header < end && end - header > extra {
            let slot = parameter_set_slot(au[header], codec);
            match slot {
                Some(k) => {
                    proof {
                        if codec == Codec::H264 {
                            assert(k < 2);
                        }
                        assert(k < 3);
                    }
                    sets[k] = Some((start, end));
                },
                None => {},
            }
        }
        n = n + 1;
    }
    let count: usize = if codec == Codec::Hevc { 3 } else { 2 };
    let mut config: Vec<u8> = Vec::new();
    let mut i: usize = 0;
    while i < count
        invariant
            n == starts@.len(),
            st == starts_spec(au@),
            st.len() == n,
            count as nat == set_count(codec),
            i <= count,
            forall|k: int|
                0 <= k < st.len() ==> {
                    let p = #[trigger] st[k];
                    &&& 0 <= p.0 < p.1 <= au@.len()
                },
            forall|a: int, b: int| 0 <= a < b < st.len() ==> (#[trigger] st[a]).1 <= (#[trigger] st[b]).0,
            forall|k: int|
                0 <= k < 3 ==> match #[trigger] sets@[k] {
                    Some(r) => chosen_range(au@, codec, st, k as nat, n as int) == Some(
                        (r.0 as int, r.1 as int),
                    ),
                    None => chosen_range(au@, codec, st, k as nat, n as int) is None,
                },
            forall|k: nat| k < i ==> (#[trigger] chosen_set(au@, codec, k)) is Some,
            config@ == concat_sets(au@, codec, i as nat),
        decreases count - i,
    {
        match sets[i] {
            Some((start, end)) => {
                proof {
                    lemma_chosen_range_bounds(au@, codec, st, i as nat, n as int);
                }
                let piece = slice_subrange(au, start, end);
                config.extend_from_slice(piece);
                proof {
                    assert(chosen_set(au@, codec, i as nat) == Some(au@.subrange(start as int, end as int)));
                    assert(config@ == concat_sets(au@, codec, (i + 1) as nat));
                }
            },
            None => {
                return None;
            },
        }
        i = i + 1;
    }
    proof {
        let c0 = chosen_set(au@, codec, 0);
        let c1 = chosen_set(au@, codec, 1);
        assert(c0 is Some);
        assert(c1 is Some);
        reveal_with_fuel(concat_sets, 4);
        assert(concat_sets(au@, codec, 1) == Seq::<u8>::empty() + c0.unwrap());
        assert(Seq::<u8>::empty() + c0.unwrap() == c0.unwrap());
        if count == 3 {
            assert(chosen_set(au@, codec, 2) is Some);
        }
    }
    Some(config)
}

pub open spec fn concat_sets(s: Seq<u8>, codec: Codec, i: nat) -> Seq<u8>
    decreases i,
{
    if i == 0 {
        seq![]
    } else {
        concat_sets(s, codec, (i - 1) as nat) + chosen_set(s, codec, (i - 1) as nat).unwrap()
    }
}

proof fn lemma_chosen_range_bounds(s: Seq<u8>, codec: Codec, st: Seq<(int, int)>, k: nat, n: int)
    requires
        n <= st.len(),
        forall|j: int|
            0 <= j < st.len() ==> {
                let p = #[trigger] st[j];
                &&& 0 <= p.0 < p.1 <= s.len()
            },
        forall|a: int, b: int| 0 <= a < b < st.len() ==> (#[trigger] st[a]).1 <= (#[trigger] st[b]).0,
    ensures
        chosen_range(s, codec, st, k, n) matches Some(r) ==> 0 <= r.0 <= r.1 <= s.len(),
    decreases n,
{
    if n > 0 {
        if !unit_fills_slot(s, codec, st, n - 1, k) {
            lemma_chosen_range_bounds(s, codec, st, k, n - 1);
        } else {
            if n < st.len() {
                assert(st[n - 1].1 <= st[n].0);
            }
        }
    }
}


/// The `k`-th start code of `s` is followed by an HEVC SPS header.
pub open spec fn is_sps_unit(s: Seq<u8>, k: int) -> bool {
    let offset = starts_spec(s)[k].1;
    offset < s.len() && (s[offset] >> 1) & 63 == 33
}

/// Main tier: at least one HEVC SPS is present, and each SPS has the byte
/// holding general_tier_flag (header + 3) with that flag clear.
pub open spec fn main_tier_spec(s: Seq<u8>) -> bool {
    let st = starts_spec(s);
    &&& exists|k: int| 0 <= k < st.len() && #[trigger] is_sps_unit(s, k)
    &&& forall|k: int|
        0 <= k < st.len() && #[trigger] is_sps_unit(s, k) ==> st[k].1 + 3 < s.len() && s[st[k].1
            + 3] & 0x20 == 0
}

/// Whether every HEVC SPS in the sample declares the Main tier.
pub fn hevc_main_tier(bytes: &[u8]) -> (r: bool)
    ensures
        r == main_tier_spec(bytes@),
{
    let starts = annex_b_starts(bytes);
    let ghost st = starts_spec(bytes@);
    proof {
        lemma_starts_well_formed(bytes@);
    }
    let mut seen = false;
    let mut n: usize = 0;
    while n < starts.len()
        invariant
            n <= starts@.len(),
            pairs_view(starts@) == st,
            st == starts_spec(bytes@),
            forall|k: int|
                0 <= k < st.len() ==> {
                    let p = #[trigger] st[k];
                    &&& 0 <= p.0 < p.1 <= bytes@.len()
                },
            seen == exists|k: int| 0 <= k < n && #[trigger] is_sps_unit(bytes@, k),
            forall|k: int|
                0 <= k < n && #[trigger] is_sps_unit(bytes@, k) ==> st[k].1 + 3 < bytes@.len()
                    && bytes@[st[k].1 + 3] & 0x20 == 0,
        decreases starts@.len() - n,
    {
        let offset = starts[n].1;
        assert(st[n as int].1 == offset as int);
        if offset < bytes.len() && (bytes[offset] >> 1) & 63 == 33 {
            assert(is_sps_unit(bytes@, n as int));
            if bytes.len() - offset <= 3 {
                return false;
            }
            if bytes[offset + 3] & 0x20 != 0 {
                return false;
            }
            seen = true;
        } else {
            assert(!is_sps_unit(bytes@, n as int));
        }
        n = n + 1;
    }
    seen
}

} // verus!
