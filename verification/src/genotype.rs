//! Genotype calls and their standardization.
//!
//! With `n` samples, dosages `d[i]` and total `t`, the allele frequency is `p = t / (2n)` and
//! the standardized dosage of sample `i` is `(d[i] - 2p) / sqrt(2p(1 - p))`. Multiplying
//! numerator and denominator by `n` gives `(n * d[i] - t) / sqrt(t * (2n - t) / 2)`: an integer
//! over the square root of half an integer. A standardized vector is held in that form, the
//! integers `n * d[i] - t` beside the one integer `t * (2n - t)`, and nothing is rounded.

use crate::bins::MAX_POSITION;
use crate::params::HyperParameters;
use crate::ratio::wide_product;
use crate::ratio::Ratio;
use vstd::prelude::*;

verus! {

/// The largest number of samples that a record may hold.
pub const MAX_SAMPLES: usize = 1_048_576;

/// The largest magnitude of a centered dosage for which pair statistics fit in 128 bits.
pub const CENTERED_LIMIT: i64 = 2_097_152;

/// The largest scale for which pair statistics fit in 128 bits: `MAX_SAMPLES` squared.
pub const SCALE_LIMIT: u64 = 1_099_511_627_776;

/// What was called for one sample at one site: two allele indices, `None` where an allele
/// could not be read.
#[derive(Clone, Copy, Debug, PartialEq, Eq, Structural)]
pub struct DiploidCall {
    pub first: Option<u32>,
    pub second: Option<u32>,
}

impl DiploidCall {
    /// One of the two alleles could not be read.
    pub open spec fn is_missing(&self) -> bool {
        self.first is None || self.second is None
    }

    /// The sum of the two allele indices; zero for a call with a missing allele.
    pub open spec fn dosage(&self) -> int {
        match (self.first, self.second) {
            (Some(a), Some(b)) => a + b,
            _ => 0,
        }
    }

    /// Both alleles are the reference or the first alternate allele, so the dosage is 0, 1 or 2.
    pub open spec fn is_biallelic(&self) -> bool {
        match (self.first, self.second) {
            (Some(a), Some(b)) => a <= 1 && b <= 1,
            _ => true,
        }
    }
}

/// One site of the contig: its position, counted from zero, and one call per sample.
#[derive(Clone, Debug)]
pub struct GenotypeRecord {
    pub position: u64,
    pub calls: Vec<DiploidCall>,
}

impl GenotypeRecord {
    /// The record can take part in a scan over `sample_count` samples: it has one call per
    /// sample, every call is biallelic, and its position is one that a contig can have.
    pub open spec fn fits(&self, sample_count: int) -> bool {
        &&& self.calls.len() == sample_count
        &&& self.position <= MAX_POSITION
        &&& all_biallelic(self.calls@)
    }

    /// Decides `all_biallelic` of the calls.
    pub fn is_biallelic(&self) -> (r: bool)
        ensures
            r == all_biallelic(self.calls@),
    {
        let mut i: usize = 0;
        while i < self.calls.len()
            invariant
                i <= self.calls.len(),
                forall|j: int| 0 <= j < i ==> (#[trigger] self.calls[j]).is_biallelic(),
            decreases self.calls.len() - i,
        {
            let call: DiploidCall = self.calls[i];
            let biallelic: bool = match (call.first, call.second) {
                (Some(a), Some(b)) => a <= 1 && b <= 1,
                _ => true,
            };
            if !biallelic {
                return false;
            }
            i += 1;
        }
        true
    }

    /// Decides `fits`.
    pub fn is_fit(&self, sample_count: usize) -> (r: bool)
        ensures
            r == self.fits(sample_count as int),
    {
        self.calls.len() == sample_count && self.position <= MAX_POSITION && self.is_biallelic()
    }
}

/// Some call of the record has a missing allele.
pub open spec fn has_missing(calls: Seq<DiploidCall>) -> bool {
    exists|i: int| 0 <= i < calls.len() && (#[trigger] calls[i]).is_missing()
}

/// Every call of the record is biallelic.
pub open spec fn all_biallelic(calls: Seq<DiploidCall>) -> bool {
    forall|i: int| 0 <= i < calls.len() ==> (#[trigger] calls[i]).is_biallelic()
}

/// The sum of the dosages of all samples.
pub open spec fn dosage_total(calls: Seq<DiploidCall>) -> int
    decreases calls.len(),
{
    if calls.len() == 0 {
        0
    } else {
        dosage_total(calls.drop_last()) + calls.last().dosage()
    }
}

/// Twice the sample count times the minor allele frequency: the smaller of the dosage total
/// and its complement to twice the sample count. It is negative where the total exceeds
/// twice the sample count.
pub open spec fn minor_allele_count(calls: Seq<DiploidCall>) -> int {
    let t = dosage_total(calls);
    let rest = 2 * calls.len() - t;
    if t <= rest {
        t
    } else {
        rest
    }
}

/// The minor allele frequency `minor_allele_count / (2n)` lies strictly below the threshold.
/// A record without samples has no frequency and is not filtered.
pub open spec fn is_filtered(calls: Seq<DiploidCall>, threshold: Ratio) -> bool {
    minor_allele_count(calls) * threshold.den < threshold.num * (2 * calls.len())
}

/// The numerator of the standardized dosage of sample `i`: `n * d[i] - t`.
pub open spec fn centered_dosage(calls: Seq<DiploidCall>, i: int) -> int {
    calls.len() * calls[i].dosage() - dosage_total(calls)
}

/// The numerators of all standardized dosages, in sample order.
pub open spec fn centered_dosages(calls: Seq<DiploidCall>) -> Seq<i64> {
    Seq::new(calls.len(), |i: int| centered_dosage(calls, i) as i64)
}

/// Twice the square of the denominator shared by all standardized dosages: `t * (2n - t)`.
pub open spec fn standardization_scale(calls: Seq<DiploidCall>) -> int {
    dosage_total(calls) * (2 * calls.len() - dosage_total(calls))
}

/// A standardized dosage vector. Entry `i` stands for the real number
/// `centered[i] * sqrt(2 / scale)`; with a scale of zero, which comes from a site where
/// every allele is the same, it stands for no number.
#[derive(Clone, Debug)]
pub struct StandardizedGenotypes {
    pub centered: Vec<i64>,
    pub scale: u64,
}

impl StandardizedGenotypes {
    /// This vector is the standardization of `calls`.
    pub open spec fn represents(&self, calls: Seq<DiploidCall>) -> bool {
        &&& self.centered.len() == calls.len()
        &&& forall|i: int|
            0 <= i < calls.len() ==> #[trigger] self.centered[i] == centered_dosage(calls, i)
        &&& self.scale == standardization_scale(calls)
    }

    /// A vector that is the standardization of `calls` holds exactly the centered dosages
    /// of `calls`.
    pub proof fn lemma_represents(&self, calls: Seq<DiploidCall>)
        requires
            self.represents(calls),
        ensures
            self.centered@ == centered_dosages(calls),
    {
        assert(self.centered@ =~= centered_dosages(calls));
    }

    /// The vector is small enough for pair statistics to be computed in 128 bits.
    pub open spec fn within_limits(&self) -> bool {
        &&& self.centered.len() <= MAX_SAMPLES
        &&& self.scale <= SCALE_LIMIT
        &&& forall|i: int|
            0 <= i < self.centered.len() ==> -CENTERED_LIMIT <= #[trigger] self.centered[i]
                <= CENTERED_LIMIT
    }

    /// Decides `within_limits`.
    pub fn is_within_limits(&self) -> (r: bool)
        ensures
            r == self.within_limits(),
    {
        if self.centered.len() > MAX_SAMPLES || self.scale > SCALE_LIMIT {
            return false;
        }
        let mut i: usize = 0;
        while i < self.centered.len()
            invariant
                i <= self.centered.len(),
                forall|j: int|
                    0 <= j < i ==> -CENTERED_LIMIT <= #[trigger] self.centered[j]
                        <= CENTERED_LIMIT,
            decreases self.centered.len() - i,
        {
            let c: i64 = self.centered[i];
            if c < -CENTERED_LIMIT || c > CENTERED_LIMIT {
                return false;
            }
            i += 1;
        }
        true
    }
}

/// The sum of the entries of a vector.
pub open spec fn sum_of(values: Seq<i64>) -> int
    decreases values.len(),
{
    if values.len() == 0 {
        0
    } else {
        sum_of(values.drop_last()) + values.last()
    }
}

/// The sum of the squares of the entries of a vector.
pub open spec fn square_sum_of(values: Seq<i64>) -> int
    decreases values.len(),
{
    if values.len() == 0 {
        0
    } else {
        square_sum_of(values.drop_last()) + values.last() * values.last()
    }
}

/// The sum of the squared dosages of all samples.
pub open spec fn dosage_square_total(calls: Seq<DiploidCall>) -> int
    decreases calls.len(),
{
    if calls.len() == 0 {
        0
    } else {
        dosage_square_total(calls.drop_last()) + calls.last().dosage() * calls.last().dosage()
    }
}

proof fn lemma_centered_prefix_sums(genotypes: StandardizedGenotypes, calls: Seq<DiploidCall>, k: int)
    requires
        genotypes.represents(calls),
        0 <= k <= calls.len(),
    ensures
        sum_of(genotypes.centered@.take(k)) == calls.len() * dosage_total(calls.take(k)) - k
            * dosage_total(calls),
        square_sum_of(genotypes.centered@.take(k)) == calls.len() * calls.len()
            * dosage_square_total(calls.take(k)) - 2 * calls.len() * dosage_total(calls)
            * dosage_total(calls.take(k)) + k * dosage_total(calls) * dosage_total(calls),
    decreases k,
{
    let n = calls.len() as int;
    let t = dosage_total(calls);
    if k == 0 {
        assert(n * 0 == 0) by (nonlinear_arith);
        assert(n * n * 0 - 2 * n * t * 0 + 0 * t * t == 0) by (nonlinear_arith);
    } else {
        lemma_centered_prefix_sums(genotypes, calls, k - 1);
        let d = calls[k - 1].dosage();
        let c = genotypes.centered[k - 1] as int;
        let sum = dosage_total(calls.take(k - 1));
        let squares = dosage_square_total(calls.take(k - 1));
        assert(genotypes.centered@.take(k).drop_last() == genotypes.centered@.take(k - 1));
        assert(genotypes.centered@.take(k).last() == c);
        assert(calls.take(k).drop_last() == calls.take(k - 1));
        assert(calls.take(k).last() == calls[k - 1]);
        assert(c == n * d - t);
        assert(n * sum - (k - 1) * t + (n * d - t) == n * (sum + d) - k * t) by (nonlinear_arith);
        assert(n * n * squares - 2 * n * t * sum + (k - 1) * t * t + (n * d - t) * (n * d - t) == n
            * n * (squares + d * d) - 2 * n * t * (sum + d) + k * t * t) by (nonlinear_arith);
    }
}

/// The standardized dosages of a record sum to zero, and so their mean is zero wherever
/// the scale is not.
pub proof fn lemma_standardized_mean_is_zero(
    genotypes: StandardizedGenotypes,
    calls: Seq<DiploidCall>,
)
    requires
        genotypes.represents(calls),
    ensures
        sum_of(genotypes.centered@) == 0,
{
    lemma_centered_prefix_sums(genotypes, calls, calls.len() as int);
    assert(genotypes.centered@.take(calls.len() as int) == genotypes.centered@);
    assert(calls.take(calls.len() as int) == calls);
}

/// The squares of the standardized dosages `centered[i]^2 * 2 / scale` sum to the sample
/// count, which is to say that their variance about the mean of zero is one, exactly when
/// the record is in Hardy-Weinberg proportions: with `n` samples, dosages `d[i]` and total
/// `t`, when `2n` times the sum of `d[i](d[i] - 1)` equals `t^2`.
pub proof fn lemma_standardized_variance(genotypes: StandardizedGenotypes, calls: Seq<DiploidCall>)
    requires
        genotypes.represents(calls),
        calls.len() > 0,
    ensures
        2 * square_sum_of(genotypes.centered@) == calls.len() * genotypes.scale <==> 2
            * calls.len() * (dosage_square_total(calls) - dosage_total(calls)) == dosage_total(calls)
            * dosage_total(calls),
{
    let n = calls.len() as int;
    let t = dosage_total(calls);
    let q = dosage_square_total(calls);
    lemma_centered_prefix_sums(genotypes, calls, n);
    assert(genotypes.centered@.take(n) == genotypes.centered@);
    assert(calls.take(n) == calls);
    let squares = square_sum_of(genotypes.centered@);
    assert(squares == n * n * q - 2 * n * t * t + n * t * t);
    assert(genotypes.scale == t * (2 * n - t));
    assert((2 * (n * n * q - 2 * n * t * t + n * t * t) == n * (t * (2 * n - t))) <==> (2 * n * (q
        - t) == t * t)) by (nonlinear_arith)
        requires
            n > 0,
    ;
}

/// The three outcomes of standardizing one record.
#[derive(Clone, Debug)]
pub enum Standardization {
    /// The record passed the frequency filter.
    Standardized(StandardizedGenotypes),
    /// The minor allele frequency lies below the threshold: the record takes part in no pair.
    Filtered,
    /// A call has a missing allele: the record cannot be used, and the scan cannot go on.
    MissingGenotype,
}

/// Standardizes the calls of one record, or says why it cannot take part in a pair.
///
/// A missing allele anywhere in the record takes precedence over the frequency filter.
pub fn standardize_genotypes(record: &GenotypeRecord, parameters: &HyperParameters) -> (r:
    Standardization)
    requires
        record.calls.len() <= MAX_SAMPLES,
        parameters.maf_threshold.wf(),
    ensures
        has_missing(record.calls@) ==> r is MissingGenotype,
        !has_missing(record.calls@) && is_filtered(record.calls@, parameters.maf_threshold)
            ==> r is Filtered,
        !has_missing(record.calls@) && !is_filtered(record.calls@, parameters.maf_threshold)
            ==> (r matches Standardization::Standardized(g) && g.represents(record.calls@) && (
        all_biallelic(record.calls@) ==> g.within_limits())),
{
    let n: usize = record.calls.len();
    let ghost calls = record.calls@;
    let mut total: u64 = 0;
    let mut i: usize = 0;
    while i < n
        invariant
            i <= n,
            n == record.calls.len(),
            n <= MAX_SAMPLES,
            calls == record.calls@,
            forall|j: int| 0 <= j < i ==> !(#[trigger] calls[j]).is_missing(),
            total == dosage_total(calls.take(i as int)),
            total <= i * 0x1_ffff_fffe,
        decreases n - i,
    {
        let call: DiploidCall = record.calls[i];
        proof {
            assert(calls.take(i + 1).drop_last() == calls.take(i as int));
            assert(calls.take(i + 1).last() == calls[i as int]);
        }
        match (call.first, call.second) {
            (Some(a), Some(b)) => {
                total = total + (a as u64 + b as u64);
            },
            _ => {
                assert(calls[i as int].is_missing());
                return Standardization::MissingGenotype;
            },
        }
        i += 1;
    }
    proof {
        assert(calls.take(n as int) == calls);
    }
    let two_n: u64 = 2 * (n as u64);
    let threshold: Ratio = parameters.maf_threshold;
    let filtered: bool = if total > two_n {
        proof {
            let rest = 2 * n - total;
            assert(minor_allele_count(calls) == rest);
            assert(rest * threshold.den < 0) by (nonlinear_arith)
                requires
                    rest < 0,
                    threshold.den > 0,
            ;
            assert(threshold.num * (2 * n) >= 0) by (nonlinear_arith)
                requires
                    threshold.num >= 0,
                    n >= 0,
            ;
        }
        true
    } else {
        let rest: u64 = two_n - total;
        let minor: u64 = if total <= rest {
            total
        } else {
            rest
        };
        wide_product(minor, threshold.den) < wide_product(threshold.num, two_n)
    };
    if filtered {
        return Standardization::Filtered;
    }
    let mut centered: Vec<i64> = Vec::new();
    i = 0;
    while i < n
        invariant
            i <= n,
            n == record.calls.len(),
            n <= MAX_SAMPLES,
            calls == record.calls@,
            total == dosage_total(calls),
            total <= two_n,
            two_n == 2 * n,
            centered.len() == i,
            forall|j: int| 0 <= j < n ==> !(#[trigger] calls[j]).is_missing(),
            forall|j: int| 0 <= j < i ==> #[trigger] centered[j] == centered_dosage(calls, j),
            all_biallelic(calls) ==> forall|j: int|
                0 <= j < i ==> -CENTERED_LIMIT <= #[trigger] centered[j] <= CENTERED_LIMIT,
        decreases n - i,
    {
        let call: DiploidCall = record.calls[i];
        let dosage: u64 = match (call.first, call.second) {
            (Some(a), Some(b)) => a as u64 + b as u64,
            _ => 0,
        };
        assert(dosage == calls[i as int].dosage());
        assert(n * dosage <= 0x10_0000 * 0x1_ffff_fffe) by (nonlinear_arith)
            requires
                n <= 0x10_0000,
                dosage <= 0x1_ffff_fffe,
        ;
        let scaled: i64 = (n as i64) * (dosage as i64);
        let c: i64 = scaled - (total as i64);
        proof {
            if all_biallelic(calls) {
                assert(calls[i as int].is_biallelic());
                assert(dosage <= 2);
                assert(n * dosage <= 2 * n) by (nonlinear_arith)
                    requires
                        dosage <= 2,
                        n >= 0,
                ;
            }
        }
        centered.push(c);
        i += 1;
    }
    assert(total * (two_n - total) <= 0x20_0000 * 0x20_0000) by (nonlinear_arith)
        requires
            total <= two_n,
            two_n <= 0x20_0000,
    ;
    assert(total * (two_n - total) <= n * n) by (nonlinear_arith)
        requires
            total <= two_n,
            two_n == 2 * n,
    ;
    assert(n * n <= SCALE_LIMIT) by (nonlinear_arith)
        requires
            n <= 0x10_0000,
    ;
    let scale: u64 = total * (two_n - total);
    Standardization::Standardized(StandardizedGenotypes { centered, scale })
}

} // verus!
