use ld_binning::genotype::StandardizedGenotypes;
use ld_binning::ld::{linkage_disequilibrium, LdEstimate};

fn vector(centered: &[i64], scale: u64) -> StandardizedGenotypes {
    StandardizedGenotypes { centered: centered.to_vec(), scale }
}

fn value(estimate: LdEstimate) -> f64 {
    estimate.numerator as f64 / estimate.denominator as f64
}

#[test]
fn estimate_of_a_record_with_itself() {
    let a = vector(&[1, 1, 1, 1, -4], 24);
    let estimate = linkage_disequilibrium(&a, &a, 5);
    assert_eq!(estimate, LdEstimate { numerator: 560, denominator: 11520 });
    assert!((value(estimate) - 7.0 / 144.0).abs() < 1e-15);
}

#[test]
fn estimate_agrees_with_the_real_formula() {
    // Dosages 0, 1, 1, 2, 1, 0 and 2, 1, 0, 1, 1, 1 of six samples.
    let a = vector(&[-5, 1, 1, 7, 1, -5], 35);
    let b = vector(&[6, 0, -6, 0, 0, 0], 36);
    let x: Vec<f64> = a.centered.iter().map(|c| *c as f64 * (2.0 / 35.0f64).sqrt()).collect();
    let y: Vec<f64> = b.centered.iter().map(|c| *c as f64 * (2.0 / 36.0f64).sqrt()).collect();
    let mut sum = 0.0;
    let mut squares = 0.0;
    for i in 0..6 {
        let product = x[i] * y[i];
        sum += product;
        squares += product * product;
    }
    let expected = (sum * sum - squares) / (6.0 * 5.0);
    let estimate = linkage_disequilibrium(&a, &b, 6);
    assert!((value(estimate) - expected).abs() < 1e-12);
    assert!((value(estimate) - 0.038095238095238106).abs() < 1e-12);
}

#[test]
fn estimate_is_symmetric() {
    let a = vector(&[-5, 1, 1, 7, 1, -5], 35);
    let b = vector(&[6, 0, -6, 0, 0, 0], 36);
    assert_eq!(linkage_disequilibrium(&a, &b, 6), linkage_disequilibrium(&b, &a, 6));
    assert_eq!(linkage_disequilibrium(&a, &b, 4), linkage_disequilibrium(&b, &a, 4));
}

#[test]
fn estimate_may_be_negative() {
    let a = vector(&[1, -1], 2);
    let b = vector(&[1, 1], 3);
    let estimate = linkage_disequilibrium(&a, &b, 2);
    assert_eq!(estimate, LdEstimate { numerator: -8, denominator: 12 });
}

#[test]
fn estimate_uses_the_first_samples_only() {
    let a = vector(&[1, -1, 100], 2);
    let b = vector(&[1, 1, -100], 3);
    let estimate = linkage_disequilibrium(&a, &b, 2);
    assert_eq!(estimate, LdEstimate { numerator: -8, denominator: 12 });
}

#[test]
fn fewer_than_two_samples_give_a_zero_denominator() {
    let a = vector(&[3, -3], 2);
    let b = vector(&[2, -2], 3);
    assert_eq!(linkage_disequilibrium(&a, &b, 0), LdEstimate { numerator: 0, denominator: 0 });
    assert_eq!(linkage_disequilibrium(&a, &b, 1), LdEstimate { numerator: 0, denominator: 0 });
}

#[test]
fn largest_vectors_do_not_overflow() {
    let n: usize = 1 << 20;
    let limit: i64 = 1 << 21;
    let a = StandardizedGenotypes { centered: vec![limit; n], scale: 1 << 40 };
    let b = StandardizedGenotypes { centered: vec![-limit; n], scale: 1 << 40 };
    let estimate = linkage_disequilibrium(&a, &b, n);
    let sum: i128 = -((n as i128) << 42);
    let squares: i128 = (n as i128) << 84;
    assert_eq!(estimate.numerator, 4 * (sum * sum - squares));
    assert_eq!(estimate.denominator, (1u128 << 80) * (n as u128) * (n as u128 - 1));
}
