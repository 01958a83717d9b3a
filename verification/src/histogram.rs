//! The counting behind the frame-time histogram: tallying frames into bins and
//! finding the peak bin.
//!
//! Which bin a frame time falls into is decided from the frame time itself (a
//! floating-point computation done by the caller); here each frame arrives as a
//! `BinSlot`.
use vstd::prelude::*;

use vstd::view::View as _;

verus! {

/// The number of histogram bins.
pub const BIN_N: usize = 60;

/// Where one frame time falls on the histogram's axis.
#[derive(Clone, Copy, PartialEq, Eq, Debug, Structural)]
pub enum BinSlot {
    /// Below the axis range: one of the fastest frames, folded into the first bin.
    Below,
    /// Inside the axis range, in this bin.
    Bin(usize),
    /// At or beyond the top of the range: counted in the overflow bar.
    Overflow,
}

/// How many entries of `slots` equal `s`.
pub open spec fn slot_count(slots: Seq<BinSlot>, s: BinSlot) -> nat
    decreases slots.len(),
{
    if slots.len() == 0 {
        0
    } else {
        slot_count(slots.drop_last(), s) + if slots.last() == s {
            1nat
        } else {
            0nat
        }
    }
}

/// The count of bin `k`: the frames in it, and for the first bin also the
/// frames below the range.
pub open spec fn bin_count(slots: Seq<BinSlot>, k: nat) -> nat {
    slot_count(slots, BinSlot::Bin(k as usize)) + if k == 0 {
        slot_count(slots, BinSlot::Below)
    } else {
        0nat
    }
}

/// Every in-range slot names one of the `BIN_N` bins.
pub open spec fn slots_in_range(slots: Seq<BinSlot>) -> bool {
    forall|i: int|
        0 <= i < slots.len() ==> (#[trigger] slots[i] matches BinSlot::Bin(k) ==> k < BIN_N)
}

/// The sum of a sequence of counts.
pub open spec fn total(s: Seq<u64>) -> int
    decreases s.len(),
{
    if s.len() == 0 {
        0
    } else {
        total(s.drop_last()) + s.last()
    }
}

proof fn lemma_total_update(s: Seq<u64>, k: int, v: u64)
    requires
        0 <= k < s.len(),
    ensures
        total(s.update(k, v)) == total(s) - s[k] + v,
    decreases s.len(),
{
    if k == s.len() - 1 {
        assert(s.update(k, v).drop_last() =~= s.drop_last());
    } else {
        assert(s.update(k, v).drop_last() =~= s.drop_last().update(k, v));
        lemma_total_update(s.drop_last(), k, v);
    }
}

proof fn lemma_total_bounds(s: Seq<u64>)
    ensures
        total(s) >= 0,
        forall|k: int| 0 <= k < s.len() ==> #[trigger] s[k] <= total(s),
    decreases s.len(),
{
    if s.len() > 0 {
        lemma_total_bounds(s.drop_last());
        assert forall|k: int| 0 <= k < s.len() implies #[trigger] s[k] <= total(s) by {
            if k < s.len() - 1 {
                assert(s[k] == s.drop_last()[k]);
            }
        }
    }
}

proof fn lemma_total_zeros(n: nat)
    ensures
        total(Seq::new(n, |i: int| 0u64)) == 0,
    decreases n,
{
    if n > 0 {
        assert(Seq::new(n, |i: int| 0u64).drop_last() =~= Seq::new((n - 1) as nat, |i: int| 0u64));
        lemma_total_zeros((n - 1) as nat);
    }
}

/// Tallies frames into the `BIN_N` bins and the overflow bar. Every frame is
/// counted exactly once: the bins and the overflow bar together hold as many
/// frames as there are slots.
pub fn tally_bins(slots: &Vec<BinSlot>) -> (r: (Vec<u64>, u64))
    requires
        slots_in_range(slots@),
    ensures
        r.0.len() == BIN_N,
        forall|k: int| 0 <= k < BIN_N ==> #[trigger] r.0@[k] == bin_count(slots@, k as nat),
        r.1 == slot_count(slots@, BinSlot::Overflow),
        total(r.0@) + r.1 == slots.len(),
{
    let mut bins: Vec<u64> = Vec::new();
    let mut k: usize = 0;
    while k < BIN_N
        invariant
            k <= BIN_N,
            bins@ == Seq::new(k as nat, |i: int| 0u64),
        decreases BIN_N - k,
    {
        bins.push(0);
        k = k + 1;
        assert(bins@ =~= Seq::new(k as nat, |i: int| 0u64));
    }
    proof {
        lemma_total_zeros(BIN_N as nat);
    }
    let mut overflow: u64 = 0;
    let mut i: usize = 0;
    while i < slots.len()
        invariant
            i <= slots.len(),
            slots_in_range(slots@),
            bins.len() == BIN_N,
            forall|k: int|
                0 <= k < BIN_N ==> #[trigger] bins@[k] == bin_count(
                    slots@.take(i as int),
                    k as nat,
                ),
            overflow == slot_count(slots@.take(i as int), BinSlot::Overflow),
            total(bins@) + overflow == i,
        decreases slots.len() - i,
    {
        let ghost pre = slots@.take(i as int);
        let ghost post = slots@.take(i + 1);
        assert(post.drop_last() =~= pre);
        assert(post.last() == slots@[i as int]);
        let ghost old_bins = bins@;
        proof {
            lemma_total_bounds(bins@);
        }
        match slots[i] {
            BinSlot::Overflow => {
                overflow = overflow + 1;
            },
            BinSlot::Bin(b) => {
                let c = bins[b];
                bins.set(b, c + 1);
                proof {
                    lemma_total_update(old_bins, b as int, (c + 1) as u64);
                }
            },
            BinSlot::Below => {
                let c = bins[0];
                bins.set(0, c + 1);
                proof {
                    lemma_total_update(old_bins, 0, (c + 1) as u64);
                }
            },
        }
        i = i + 1;
    }
    assert(slots@.take(slots.len() as int) =~= slots@);
    (bins, overflow)
}

/// The tallest bar and the peak bin of a histogram.
#[derive(Clone, Copy, PartialEq, Eq, Debug, Structural)]
pub struct HistPeak {
    /// The largest count among the bins and the overflow bar, at least 1: the
    /// top of the count axis.
    pub max_count: u64,
    /// The first bin with the largest count (0 when every bin is empty).
    pub peak_idx: usize,
    /// The largest bin count.
    pub peak_count: u64,
}

/// Finds the histogram's peak bin and the tallest bar.
pub fn histogram_peak(bins: &Vec<u64>, overflow: u64) -> (r: HistPeak)
    ensures
        forall|i: int| 0 <= i < bins.len() ==> #[trigger] bins@[i] <= r.peak_count,
        bins.len() > 0 ==> r.peak_idx < bins.len() && bins@[r.peak_idx as int] == r.peak_count,
        forall|j: int| 0 <= j < r.peak_idx ==> #[trigger] bins@[j] < r.peak_count,
        bins.len() == 0 ==> r.peak_idx == 0 && r.peak_count == 0,
        r.max_count >= 1,
        r.max_count >= r.peak_count,
        r.max_count >= overflow,
        r.max_count == 1 || r.max_count == r.peak_count || r.max_count == overflow,
{
    let mut maxc: u64 = 1;
    let mut peak_idx: usize = 0;
    let mut peak_count: u64 = 0;
    let mut i: usize = 0;
    while i < bins.len()
        invariant
            i <= bins.len(),
            forall|k: int| 0 <= k < i ==> #[trigger] bins@[k] <= peak_count,
            i > 0 ==> peak_idx < i && bins@[peak_idx as int] == peak_count,
            i == 0 ==> peak_idx == 0 && peak_count == 0,
            forall|j: int| 0 <= j < peak_idx ==> #[trigger] bins@[j] < peak_count,
            maxc >= 1,
            maxc >= peak_count,
            maxc == 1 || maxc == peak_count,
        decreases bins.len() - i,
    {
        let b = bins[i];
        if b > maxc {
            maxc = b;
        }
        if b > peak_count {
            peak_count = b;
            peak_idx = i;
        }
        i = i + 1;
    }
    if overflow > maxc {
        maxc = overflow;
    }
    HistPeak { max_count: maxc, peak_idx, peak_count }
}

} // verus!
