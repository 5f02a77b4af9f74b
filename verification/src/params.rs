//! The parameters of one run.

use crate::ratio::Ratio;
use vstd::prelude::*;

verus! {

/// What a run is configured with. The values are fixed before scanning starts.
#[derive(Clone, Copy, Debug)]
pub struct HyperParameters {
    /// Expected crossovers per base pair and generation; converts centimorgans to base pairs.
    pub recombination_rate: Ratio,
    /// Sites whose minor allele frequency lies below this are left out of every pair.
    pub maf_threshold: Ratio,
    /// The sampled scan does not stop before every bin holds this many pairs.
    pub min_loci_per_bin: u32,
    /// The half width of the confidence interval that the sampled scan aims for.
    pub epsilon: Ratio,
    /// The seed of the generator that draws anchor positions.
    pub seed: u64,
}

impl HyperParameters {
    /// The ranges in which the parameters are meaningful: a positive recombination rate,
    /// a frequency threshold between zero and one half, at least one locus per bin and a
    /// positive interval half width.
    pub open spec fn valid(&self) -> bool {
        &&& self.recombination_rate.is_positive()
        &&& self.maf_threshold.wf()
        &&& 2 * self.maf_threshold.num <= self.maf_threshold.den
        &&& self.min_loci_per_bin > 0
        &&& self.epsilon.is_positive()
    }

    /// Decides `valid`.
    pub fn is_valid(&self) -> (r: bool)
        ensures
            r == self.valid(),
    {
        let half: Ratio = Ratio { num: 1, den: 2 };
        self.recombination_rate.num > 0 && self.recombination_rate.den > 0
            && self.maf_threshold.den > 0 && self.maf_threshold.at_most(&half)
            && self.min_loci_per_bin > 0 && self.epsilon.num > 0 && self.epsilon.den > 0
    }
}

impl Default for HyperParameters {
    /// One crossover per hundred million base pairs, a frequency threshold of one quarter,
    /// two thousand loci per bin, a half width of one ten-thousandth and the seed 1234.
    fn default() -> (r: Self)
        ensures
            r.recombination_rate == (Ratio { num: 1, den: 100_000_000 }),
            r.maf_threshold == (Ratio { num: 1, den: 4 }),
            r.min_loci_per_bin == 2000,
            r.epsilon == (Ratio { num: 1, den: 10_000 }),
            r.seed == 1234,
            r.valid(),
    {
        HyperParameters {
            recombination_rate: Ratio { num: 1, den: 100_000_000 },
            maf_threshold: Ratio { num: 1, den: 4 },
            min_loci_per_bin: 2000,
            epsilon: Ratio { num: 1, den: 10_000 },
            seed: 1234,
        }
    }
}

} // verus!
