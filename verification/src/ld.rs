//! The pairwise estimate of linkage disequilibrium.
//!
//! For standardized dosages `x[i]`, `y[i]` of `n` samples the estimate is
//! `((sum of x[i]y[i])^2 - sum of (x[i]y[i])^2) / (n(n - 1))`. With
//! `x[i] = a[i] * sqrt(2 / s)` and `y[i] = b[i] * sqrt(2 / t)` every product `x[i]y[i]` is
//! `a[i]b[i] * 2 / sqrt(st)`, the square roots cancel in both terms, and the estimate is the
//! fraction `4((sum of a[i]b[i])^2 - sum of (a[i]b[i])^2) / (st * n(n - 1))`.

use crate::genotype::StandardizedGenotypes;
use crate::genotype::CENTERED_LIMIT;
use crate::genotype::MAX_SAMPLES;
use crate::genotype::SCALE_LIMIT;
use vstd::prelude::*;

verus! {

/// An estimate of squared correlation, as an exact fraction. It may be negative. The
/// denominator is zero where fewer than two samples were compared or where one of the two
/// sites carries a single allele; the fraction then stands for no number.
#[derive(Clone, Copy, Debug, PartialEq, Eq, Structural)]
pub struct LdEstimate {
    pub numerator: i128,
    pub denominator: u128,
}

/// The sum of `a[i] * b[i]` over the first `n` samples.
pub open spec fn product_sum(a: Seq<i64>, b: Seq<i64>, n: nat) -> int
    decreases n,
{
    if n == 0 {
        0
    } else {
        product_sum(a, b, (n - 1) as nat) + a[n - 1] * b[n - 1]
    }
}

/// The sum of `(a[i] * b[i])^2` over the first `n` samples.
pub open spec fn product_square_sum(a: Seq<i64>, b: Seq<i64>, n: nat) -> int
    decreases n,
{
    if n == 0 {
        0
    } else {
        product_square_sum(a, b, (n - 1) as nat) + (a[n - 1] * b[n - 1]) * (a[n - 1] * b[n - 1])
    }
}

/// The numerator of the estimate over the first `n` samples.
pub open spec fn ld_numerator(a: Seq<i64>, b: Seq<i64>, n: nat) -> int {
    4 * (product_sum(a, b, n) * product_sum(a, b, n) - product_square_sum(a, b, n))
}

/// The denominator of the estimate for two vectors with the given scales.
pub open spec fn ld_denominator(scale_a: int, scale_b: int, n: nat) -> int {
    scale_a * scale_b * (n * (n - 1))
}

proof fn lemma_product_bounds(x: i64, y: i64)
    requires
        -CENTERED_LIMIT <= x <= CENTERED_LIMIT,
        -CENTERED_LIMIT <= y <= CENTERED_LIMIT,
    ensures
        -0x400_0000_0000 <= x * y <= 0x400_0000_0000,
        0 <= (x * y) * (x * y) <= 0x10_0000_0000_0000_0000_0000,
{
    let p = x * y;
    assert(-0x400_0000_0000 <= x * y <= 0x400_0000_0000) by (nonlinear_arith)
        requires
            -0x20_0000 <= x <= 0x20_0000,
            -0x20_0000 <= y <= 0x20_0000,
    ;
    assert(0 <= p * p <= 0x10_0000_0000_0000_0000_0000) by (nonlinear_arith)
        requires
            -0x400_0000_0000 <= p <= 0x400_0000_0000,
    ;
}

/// The estimate of squared correlation between two standardized dosage vectors over their
/// first `n_samples` entries. The result is not clamped: a negative estimate is a valid one.
pub fn linkage_disequilibrium(
    genotypes1: &StandardizedGenotypes,
    genotypes2: &StandardizedGenotypes,
    n_samples: usize,
) -> (r: LdEstimate)
    requires
        n_samples <= genotypes1.centered.len(),
        n_samples <= genotypes2.centered.len(),
        genotypes1.within_limits(),
        genotypes2.within_limits(),
    ensures
        r.numerator == ld_numerator(genotypes1.centered@, genotypes2.centered@, n_samples as nat),
        r.denominator == ld_denominator(
            genotypes1.scale as int,
            genotypes2.scale as int,
            n_samples as nat,
        ),
{
    let ghost a = genotypes1.centered@;
    let ghost b = genotypes2.centered@;
    let mut sum: i128 = 0;
    let mut square_sum: i128 = 0;
    let mut i: usize = 0;
    while i < n_samples
        invariant
            i <= n_samples,
            n_samples <= genotypes1.centered.len(),
            n_samples <= genotypes2.centered.len(),
            genotypes1.within_limits(),
            genotypes2.within_limits(),
            a == genotypes1.centered@,
            b == genotypes2.centered@,
            sum == product_sum(a, b, i as nat),
            square_sum == product_square_sum(a, b, i as nat),
            -0x400_0000_0000 * i <= sum <= 0x400_0000_0000 * i,
            0 <= square_sum <= 0x10_0000_0000_0000_0000_0000 * i,
        decreases n_samples - i,
    {
        let x: i64 = genotypes1.centered[i];
        let y: i64 = genotypes2.centered[i];
        proof {
            lemma_product_bounds(x, y);
        }
        let product: i128 = (x as i128) * (y as i128);
        sum = sum + product;
        square_sum = square_sum + product * product;
        i += 1;
    }
    let ghost s = sum as int;
    assert(0 <= s * s <= 0x4000_0000_0000_0000 * 0x4000_0000_0000_0000) by (nonlinear_arith)
        requires
            -0x4000_0000_0000_0000 <= s <= 0x4000_0000_0000_0000,
    ;
    let numerator: i128 = 4 * (sum * sum - square_sum);
    let pairs: u128 = if n_samples == 0 {
        0
    } else {
        assert(n_samples * (n_samples - 1) <= 0x10_0000 * 0x10_0000) by (nonlinear_arith)
            requires
                1 <= n_samples <= 0x10_0000,
        ;
        (n_samples as u128) * ((n_samples - 1) as u128)
    };
    let ghost sa = genotypes1.scale as int;
    let ghost sb = genotypes2.scale as int;
    assert(sa * sb <= 0x100_0000_0000 * 0x100_0000_0000) by (nonlinear_arith)
        requires
            0 <= sa <= 0x100_0000_0000,
            0 <= sb <= 0x100_0000_0000,
    ;
    let scales: u128 = (genotypes1.scale as u128) * (genotypes2.scale as u128);
    assert(scales * pairs <= 0x1_0000_0000_0000_0000_0000 * 0x100_0000_0000) by (nonlinear_arith)
        requires
            0 <= scales <= 0x1_0000_0000_0000_0000_0000,
            0 <= pairs <= 0x100_0000_0000,
    ;
    let denominator: u128 = scales * pairs;
    LdEstimate { numerator, denominator }
}

/// The sum of products does not depend on the order of the two vectors.
pub proof fn lemma_product_sum_symmetric(a: Seq<i64>, b: Seq<i64>, n: nat)
    ensures
        product_sum(a, b, n) == product_sum(b, a, n),
        product_square_sum(a, b, n) == product_square_sum(b, a, n),
    decreases n,
{
    if n > 0 {
        lemma_product_sum_symmetric(a, b, (n - 1) as nat);
        let x = a[n - 1] as int;
        let y = b[n - 1] as int;
        assert(x * y == y * x) by (nonlinear_arith);
    }
}

/// The estimate is symmetric: exchanging the two vectors, each with its scale, changes
/// neither the numerator nor the denominator.
pub proof fn lemma_linkage_disequilibrium_symmetric(
    a: Seq<i64>,
    b: Seq<i64>,
    scale_a: int,
    scale_b: int,
    n: nat,
)
    ensures
        ld_numerator(a, b, n) == ld_numerator(b, a, n),
        ld_denominator(scale_a, scale_b, n) == ld_denominator(scale_b, scale_a, n),
{
    lemma_product_sum_symmetric(a, b, n);
    assert(scale_a * scale_b == scale_b * scale_a) by (nonlinear_arith);
}

} // verus!
