//! Per-bin pair counts and the rule that ends a sampled scan.

use crate::bins::Bins;
use crate::params::HyperParameters;
use vstd::prelude::*;

verus! {

/// How many pair estimates each bin has received.
#[derive(Clone, Debug)]
pub struct SufficientSummaryStats {
    pub counts: Vec<u32>,
}

/// Bin `bin` has enough loci, at least two of them, and an interval no wider than asked for.
pub open spec fn bin_is_settled(
    counts: Seq<u32>,
    within_tolerance: Seq<bool>,
    min_loci: u32,
    bin: int,
) -> bool {
    counts[bin] >= min_loci && counts[bin] >= 2 && within_tolerance[bin]
}

/// The number of pairs in all bins together.
pub open spec fn count_total(counts: Seq<u32>) -> int
    decreases counts.len(),
{
    if counts.len() == 0 {
        0
    } else {
        count_total(counts.drop_last()) + counts.last()
    }
}

/// Every bin holds at least `min_loci` pairs, and at least the two that an interval needs.
pub open spec fn has_enough_loci(counts: Seq<u32>, min_loci: u32) -> bool {
    forall|bin: int| 0 <= bin < counts.len() ==> #[trigger] counts[bin] >= min_loci && counts[bin] >= 2
}

impl SufficientSummaryStats {
    /// Empty statistics: one count of zero for each bin.
    pub fn new(bins: &Bins) -> (stats: Self)
        ensures
            stats.counts.len() == bins.nbins,
            forall|i: int| 0 <= i < bins.nbins ==> #[trigger] stats.counts[i] == 0,
    {
        let mut counts: Vec<u32> = Vec::new();
        let mut i: usize = 0;
        while i < bins.nbins
            invariant
                i <= bins.nbins,
                counts.len() == i,
                forall|j: int| 0 <= j < i ==> #[trigger] counts[j] == 0,
            decreases bins.nbins - i,
        {
            counts.push(0);
            i += 1;
        }
        SufficientSummaryStats { counts }
    }

    /// Bin `bin` can take one more pair.
    pub open spec fn has_room(&self, bin: int) -> bool {
        0 <= bin < self.counts.len() && self.counts[bin] < u32::MAX
    }

    /// There is one count for each of `nbins` bins, and every bin can take one more pair.
    pub open spec fn has_room_everywhere(&self, nbins: int) -> bool {
        &&& self.counts.len() == nbins
        &&& forall|bin: int| 0 <= bin < nbins ==> #[trigger] self.counts[bin] < u32::MAX
    }

    /// Decides `has_room_everywhere`.
    pub fn is_room_everywhere(&self, nbins: usize) -> (r: bool)
        ensures
            r == self.has_room_everywhere(nbins as int),
    {
        if self.counts.len() != nbins {
            return false;
        }
        let mut bin: usize = 0;
        while bin < nbins
            invariant
                bin <= nbins,
                self.counts.len() == nbins,
                forall|j: int| 0 <= j < bin ==> #[trigger] self.counts[j] < u32::MAX,
            decreases nbins - bin,
        {
            if self.counts[bin] == u32::MAX {
                return false;
            }
            bin += 1;
        }
        true
    }

    /// Counts one more pair in bin `bin`; the other bins keep their counts.
    pub fn record(&mut self, bin: usize)
        requires
            old(self).has_room(bin as int),
        ensures
            final(self).counts@ == old(self).counts@.update(
                bin as int,
                (old(self).counts[bin as int] + 1) as u32,
            ),
    {
        let count: u32 = self.counts[bin];
        self.counts.set(bin, count + 1);
    }

    /// Decides `has_enough_loci`: the part of the stopping rule that depends on the counts
    /// alone.
    pub fn is_enough_loci(&self, parameters: &HyperParameters) -> (r: bool)
        ensures
            r == has_enough_loci(self.counts@, parameters.min_loci_per_bin),
    {
        let mut bin: usize = 0;
        while bin < self.counts.len()
            invariant
                bin <= self.counts.len(),
                forall|j: int|
                    0 <= j < bin ==> #[trigger] self.counts[j] >= parameters.min_loci_per_bin
                        && self.counts[j] >= 2,
            decreases self.counts.len() - bin,
        {
            let count: u32 = self.counts[bin];
            if count < parameters.min_loci_per_bin || count < 2 {
                return false;
            }
            bin += 1;
        }
        true
    }

    /// Decides whether a sampled scan may stop: every bin must hold at least
    /// `min_loci_per_bin` pairs and at least two, and the confidence interval of its mean
    /// must be within tolerance.
    ///
    /// `within_tolerance[bin]` says whether the half width of the interval of bin `bin` is at
    /// most `epsilon`. With fewer than two pairs a bin has no interval, and what is passed
    /// for it is not looked at.
    pub fn should_stop(&self, parameters: &HyperParameters, within_tolerance: &Vec<bool>) -> (stop:
        bool)
        requires
            within_tolerance.len() == self.counts.len(),
        ensures
            stop <==> forall|bin: int|
                0 <= bin < self.counts.len() ==> bin_is_settled(
                    self.counts@,
                    within_tolerance@,
                    parameters.min_loci_per_bin,
                    bin,
                ),
            (exists|bin: int|
                0 <= bin < self.counts.len() && #[trigger] self.counts[bin]
                    < parameters.min_loci_per_bin) ==> !stop,
            stop ==> has_enough_loci(self.counts@, parameters.min_loci_per_bin),
    {
        let mut bin: usize = 0;
        while bin < self.counts.len()
            invariant
                bin <= self.counts.len(),
                within_tolerance.len() == self.counts.len(),
                forall|j: int|
                    0 <= j < bin ==> bin_is_settled(
                        self.counts@,
                        within_tolerance@,
                        parameters.min_loci_per_bin,
                        j,
                    ),
            decreases self.counts.len() - bin,
        {
            let count: u32 = self.counts[bin];
            if count < parameters.min_loci_per_bin || count < 2 || !within_tolerance[bin] {
                assert(!bin_is_settled(
                    self.counts@,
                    within_tolerance@,
                    parameters.min_loci_per_bin,
                    bin as int,
                ));
                return false;
            }
            bin += 1;
        }
        assert forall|b: int| 0 <= b < self.counts.len() implies #[trigger] self.counts[b]
            >= parameters.min_loci_per_bin && self.counts[b] >= 2 by {
            assert(bin_is_settled(
                self.counts@,
                within_tolerance@,
                parameters.min_loci_per_bin,
                b,
            ));
        }
        true
    }
}

} // verus!
