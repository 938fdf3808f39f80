//! Inputs and bookkeeping of the encoder probe: the deterministic reference
//! picture it encodes, the summary of its packet timings, and the byte ranges
//! of its packet storage.
use vstd::prelude::*;
use vstd::relations::{sorted_by, total_ordering};
use vstd::seq_lib::{lemma_sorted_unique, group_to_multiset_ensures};

verus! {

/// Luma of the reference picture at pixel `i` of a `w`-wide frame: 8x8
/// blocks whose value mixes the block column and row, so the picture has
/// detail in both directions.
pub open spec fn reference_luma(i: nat, w: nat) -> u8 {
    let x = (i % w) as u64;
    let y = (i / w) as u64;
    (16 + ((((x / 8) ^ (y / 8)) as int) * 37) % 220) as u8
}

/// The reference NV12 picture: mixed-detail luma with a flat first row, and
/// neutral chroma.
pub open spec fn reference_byte(k: nat, w: nat, h: nat) -> u8 {
    if k < w * h {
        if k < w {
            16
        } else {
            reference_luma(k, w)
        }
    } else {
        128
    }
}

pub fn reference(width: u32, height: u32) -> (r: Vec<u8>)
    requires
        height > 0 || width == 0,
        (width as nat) * (height as nat) * 3 / 2 <= usize::MAX,
    ensures
        r@.len() == (width as nat) * (height as nat) * 3 / 2,
        forall|k: int| 0 <= k < r@.len() ==> #[trigger] r@[k] == reference_byte(
            k as nat,
            width as nat,
            height as nat,
        ),
{
    let ghost wn = width as nat;
    let ghost hn = height as nat;
    assert(wn * hn <= wn * hn * 3 / 2) by (nonlinear_arith);
    let pixels: usize = (width as usize) * (height as usize);
    let total: usize = pixels / 2 * 3 + (pixels % 2) * 3 / 2;
    assert(total == wn * hn * 3 / 2) by (nonlinear_arith)
        requires
            pixels == wn * hn,
            total == pixels / 2 * 3 + (pixels % 2) * 3 / 2,
    ;
    let mut frame: Vec<u8> = Vec::new();
    let mut k: usize = 0;
    while k < total
        invariant
            k <= total,
            total == wn * hn * 3 / 2,
            pixels == wn * hn,
            pixels <= total,
            wn == width,
            hn == height,
            hn > 0 || wn == 0,
            frame@.len() == k,
            forall|j: int| 0 <= j < k ==> #[trigger] frame@[j] == reference_byte(j as nat, wn, hn),
        decreases total - k,
    {
        let b: u8 = if k < pixels {
            if k < width as usize {
                16
            } else {
                assert(width > 0);
                let x = (k % (width as usize)) as u64;
                let y = (k / (width as usize)) as u64;
                let mix = (x / 8) ^ (y / 8);
                assert(mix <= u64::MAX);
                let v = (mix % 220) * 37 % 220;
                assert(((mix as int) * 37) % 220 == ((mix % 220) as int * 37) % 220) by (nonlinear_arith);
                (16 + v) as u8
            }
        } else {
            128
        };
        frame.push(b);
        k = k + 1;
    }
    frame
}

/// Luma of the stripe drawn into probe frame `index`.
pub open spec fn stripe_value(index: nat) -> u8 {
    ((16 + index * 3) % 256) as u8
}

/// The luma row that frame `index` redraws.
pub open spec fn stripe_row(index: usize, height: u32) -> nat {
    (index as nat) % (height as nat)
}

/// Move the probe's moving stripe for frame `index`: the luma row
/// `index % height` is filled with `stripe_value(index)`, so consecutive frames
/// differ and a temporal encoder cannot benchmark repeats only.
pub fn draw_stripe(frame: &mut Vec<u8>, width: u32, height: u32, index: usize)
    requires
        height > 0,
        (width as nat) * (height as nat) <= old(frame)@.len(),
        index <= (usize::MAX - 16) / 3,
    ensures
        final(frame)@.len() == old(frame)@.len(),
        forall|k: int|
            0 <= k < old(frame)@.len() ==> #[trigger] final(frame)@[k] == if stripe_row(index, height)
                * width <= k < (stripe_row(index, height) + 1) * width {
                stripe_value(index as nat)
            } else {
                old(frame)@[k]
            },
{
    let row: usize = index % (height as usize);
    let w = width as usize;
    assert(row < height);
    assert((row + 1) * (width as nat) <= (width as nat) * (height as nat)) by (nonlinear_arith)
        requires
            row < height,
    ;
    assert(row * (width as nat) + (width as nat) == (row + 1) * (width as nat)) by (nonlinear_arith);
    let len = frame.len();
    assert((row + 1) * (width as nat) <= len);
    let start: usize = row * w;
    let end: usize = start + w;
    let value: u8 = ((16 + index * 3) % 256) as u8;
    let mut k: usize = start;
    while k < end
        invariant
            start <= k <= end,
            end <= old(frame)@.len(),
            start == stripe_row(index, height) * width,
            end == (stripe_row(index, height) + 1) * width,
            value == stripe_value(index as nat),
            frame@.len() == old(frame)@.len(),
            forall|j: int|
                0 <= j < old(frame)@.len() ==> #[trigger] frame@[j] == if start <= j < k {
                    value
                } else {
                    old(frame)@[j]
                },
        decreases end - k,
    {
        frame.set(k, value);
        k = k + 1;
    }
}

/// A byte range lies within an allocation of `capacity` bytes at `base`,
/// with neither end overflowing.
pub open spec fn contains_spec(base: usize, capacity: usize, start: usize, length: usize) -> bool {
    start >= base && start + length <= usize::MAX && base + capacity <= usize::MAX && start + length
        <= base + capacity
}

pub fn contains(base: usize, capacity: usize, start: usize, length: usize) -> (r: bool)
    ensures
        r == contains_spec(base, capacity, start, length),
{
    if start < base {
        return false;
    }
    match (start.checked_add(length), base.checked_add(capacity)) {
        (Some(end), Some(limit)) => end <= limit,
        _ => false,
    }
}

/// Fewest packets a probe must yield to be measured at all.
pub const MIN_PROBE_PACKETS: usize = 60;
/// Leading packets left out of the cadence measurement (encoder warm-up).
pub const WARMUP_PACKETS: usize = 8;

/// Why a probe's timings could not be summarised.
#[derive(Clone, Copy, Debug, PartialEq, Eq, Structural)]
pub enum SummaryError {
    /// Fewer packets arrived than the probe fed frames for.
    LostFrames,
}

/// A probe's packet cadence: when the first packet came, the 95th-percentile
/// gap between measured packets, and how many gaps over how long a span were
/// measured (the frame rate is `intervals * 1_000_000 / elapsed_us`).
#[derive(Clone, Copy, Debug, PartialEq, Eq, Structural)]
pub struct ProbeSummary {
    pub first_us: u64,
    pub p95_us: u64,
    pub intervals: usize,
    pub elapsed_us: u64,
}

/// Ascending order of gaps.
pub open spec fn ascending() -> spec_fn(u64, u64) -> bool {
    |a: u64, b: u64| a <= b
}

/// The gaps between consecutive arrival times.
pub open spec fn gaps(m: Seq<u64>) -> Seq<u64> {
    Seq::new((m.len() - 1) as nat, |k: int| (m[k + 1] - m[k]) as u64)
}

/// Position of the 95th percentile among `n` sorted gaps.
pub open spec fn p95_position(n: nat) -> int {
    if n * 95 / 100 < n - 1 {
        (n * 95 / 100) as int
    } else {
        n - 1
    }
}

/// Arrival times in microseconds, in order.
pub open spec fn nondecreasing(t: Seq<u64>) -> bool {
    forall|i: int, j: int| 0 <= i <= j < t.len() ==> t[i] <= t[j]
}

pub open spec fn summary_spec(times: Seq<u64>) -> Result<ProbeSummary, SummaryError> {
    if times.len() < MIN_PROBE_PACKETS {
        Err(SummaryError::LostFrames)
    } else {
        let m = times.subrange(WARMUP_PACKETS as int, times.len() as int);
        let g = gaps(m);
        let span = (m.last() - m[0]) as u64;
        Ok(
            ProbeSummary {
                first_us: times[0],
                p95_us: g.sort_by(ascending())[p95_position(g.len())],
                intervals: g.len() as usize,
                elapsed_us: if span > 1 { span } else { 1 },
            },
        )
    }
}

proof fn lemma_ascending_total()
    ensures
        total_ordering(ascending()),
{
}

/// Summarise a probe from the arrival time of each packet.
pub fn summarize(times: &[u64]) -> (r: Result<ProbeSummary, SummaryError>)
    requires
        nondecreasing(times@),
        times@.len() <= usize::MAX / 95,
    ensures
        r == summary_spec(times@),
{
    if times.len() < MIN_PROBE_PACKETS {
        return Err(SummaryError::LostFrames);
    }
    let ghost m = times@.subrange(WARMUP_PACKETS as int, times@.len() as int);
    let ghost g = gaps(m);
    let n: usize = times.len() - WARMUP_PACKETS - 1;
    assert(g.len() == n);
    let mut sorted: Vec<u64> = Vec::new();
    let mut k: usize = 0;
    assert(sorted@ =~= g.subrange(0, 0));
    while k < n
        invariant
            k <= n,
            times@.len() <= usize::MAX / 95,
            n == g.len(),
            n + WARMUP_PACKETS + 1 == times@.len(),
            m == times@.subrange(WARMUP_PACKETS as int, times@.len() as int),
            g == gaps(m),
            nondecreasing(times@),
            sorted_by(sorted@, ascending()),
            sorted@.to_multiset() == g.subrange(0, k as int).to_multiset(),
        decreases n - k,
    {
        let a = times[WARMUP_PACKETS + k];
        let b = times[WARMUP_PACKETS + k + 1];
        let x = b - a;
        assert(x == g[k as int]);
        let mut p: usize = 0;
        while p < sorted.len() && sorted[p] <= x
            invariant
                p <= sorted@.len(),
                forall|q: int| 0 <= q < p ==> sorted@[q] <= x,
            decreases sorted@.len() - p,
        {
            p = p + 1;
        }
        let ghost before = sorted@;
        proof {
            if p < before.len() {
                assert(before[p as int] > x);
                assert forall|q: int| p <= q < before.len() implies before[q] > x by {
                    if q > p {
                        assert(ascending()(before[p as int], before[q]));
                    }
                }
            }
        }
        sorted.insert(p, x);
        proof {
            broadcast use group_to_multiset_ensures;
            let after = sorted@;
            assert(after == before.insert(p as int, x));
            assert forall|i: int, j: int| 0 <= i < j < after.len() implies #[trigger] ascending()(
                after[i],
                after[j],
            ) by {
                if j < p {
                    assert(ascending()(before[i], before[j]));
                } else if j == p {
                    assert(after[i] == before[i]);
                } else if i < p {
                    assert(after[j] == before[j - 1]);
                } else if i == p {
                    assert(after[j] == before[j - 1]);
                } else {
                    assert(ascending()(before[i - 1], before[j - 1]));
                }
            }
            assert(g.subrange(0, k + 1) == g.subrange(0, k as int).push(x));
        }
        k = k + 1;
    }
    proof {
        broadcast use group_to_multiset_ensures;
        assert(g.subrange(0, n as int) == g);
        assert(sorted@.to_multiset().len() == g.to_multiset().len());
        assert(sorted@.len() == n);
        lemma_ascending_total();
        g.lemma_sort_by_ensures(ascending());
        lemma_sorted_unique(sorted@, g.sort_by(ascending()), ascending());
    }
    let position: usize = if n * 95 / 100 < n - 1 {
        n * 95 / 100
    } else {
        n - 1
    };
    let first = times[WARMUP_PACKETS];
    let last = times[times.len() - 1];
    let span = last - first;
    Ok(
        ProbeSummary {
            first_us: times[0],
            p95_us: sorted[position],
            intervals: n,
            elapsed_us: if span > 1 {
                span
            } else {
                1
            },
        },
    )
}

} // verus!
