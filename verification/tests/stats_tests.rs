use ld_binning::bins::Bins;
use ld_binning::params::HyperParameters;
use ld_binning::ratio::{wide_product, Ratio};
use ld_binning::stats::SufficientSummaryStats;

fn with_min_loci(min_loci: u32) -> HyperParameters {
    let mut parameters = HyperParameters::default();
    parameters.min_loci_per_bin = min_loci;
    parameters
}

#[test]
fn new_statistics_are_empty() {
    let bins = Bins::hapne_default(HyperParameters::default().recombination_rate);
    let stats = SufficientSummaryStats::new(&bins);
    assert_eq!(stats.counts, vec![0u32; 19]);
}

#[test]
fn record_counts_one_pair_in_one_bin() {
    let mut stats = SufficientSummaryStats { counts: vec![0, 7, 2] };
    stats.record(1);
    assert_eq!(stats.counts, vec![0, 8, 2]);
    stats.record(0);
    stats.record(0);
    assert_eq!(stats.counts, vec![2, 8, 2]);
}

#[test]
fn stop_when_every_bin_is_settled() {
    let stats = SufficientSummaryStats { counts: vec![2000, 2500, 3000] };
    assert!(stats.should_stop(&with_min_loci(2000), &vec![true, true, true]));
}

#[test]
fn no_stop_while_a_bin_has_too_few_loci() {
    let stats = SufficientSummaryStats { counts: vec![5000, 1999, 5000] };
    assert!(!stats.should_stop(&with_min_loci(2000), &vec![true, true, true]));
    assert!(!stats.is_enough_loci(&with_min_loci(2000)));
}

#[test]
fn no_stop_while_an_interval_is_too_wide() {
    let stats = SufficientSummaryStats { counts: vec![5000, 5000, 5000] };
    assert!(!stats.should_stop(&with_min_loci(2000), &vec![true, true, false]));
    assert!(stats.is_enough_loci(&with_min_loci(2000)));
}

#[test]
fn no_stop_with_fewer_than_two_pairs_in_a_bin() {
    let one = SufficientSummaryStats { counts: vec![1, 5] };
    assert!(!one.should_stop(&with_min_loci(1), &vec![true, true]));
    assert!(!one.is_enough_loci(&with_min_loci(1)));
    let none = SufficientSummaryStats { counts: vec![0, 5] };
    assert!(!none.should_stop(&with_min_loci(0), &vec![true, true]));
    let two = SufficientSummaryStats { counts: vec![2, 5] };
    assert!(two.should_stop(&with_min_loci(1), &vec![true, true]));
}

#[test]
fn statistics_without_bins_are_settled() {
    let stats = SufficientSummaryStats { counts: vec![] };
    assert!(stats.should_stop(&with_min_loci(2000), &vec![]));
}

#[test]
fn room_is_decided() {
    let stats = SufficientSummaryStats { counts: vec![0, u32::MAX - 1] };
    assert!(stats.is_room_everywhere(2));
    assert!(!stats.is_room_everywhere(3));
    let full = SufficientSummaryStats { counts: vec![0, u32::MAX] };
    assert!(!full.is_room_everywhere(2));
}

#[test]
fn default_parameters() {
    let parameters = HyperParameters::default();
    assert_eq!(parameters.recombination_rate, Ratio { num: 1, den: 100_000_000 });
    assert_eq!(parameters.maf_threshold, Ratio { num: 1, den: 4 });
    assert_eq!(parameters.min_loci_per_bin, 2000);
    assert_eq!(parameters.epsilon, Ratio { num: 1, den: 10_000 });
    assert_eq!(parameters.seed, 1234);
    assert!(parameters.is_valid());
}

#[test]
fn parameter_ranges_are_decided() {
    let mut parameters = HyperParameters::default();
    parameters.maf_threshold = Ratio { num: 1, den: 2 };
    assert!(parameters.is_valid());
    parameters.maf_threshold = Ratio { num: 0, den: 1 };
    assert!(parameters.is_valid());
    parameters.maf_threshold = Ratio { num: 51, den: 100 };
    assert!(!parameters.is_valid());
    parameters.maf_threshold = Ratio { num: 0, den: 0 };
    assert!(!parameters.is_valid());
    let mut parameters = HyperParameters::default();
    parameters.recombination_rate = Ratio { num: 0, den: 1 };
    assert!(!parameters.is_valid());
    let mut parameters = HyperParameters::default();
    parameters.min_loci_per_bin = 0;
    assert!(!parameters.is_valid());
    let mut parameters = HyperParameters::default();
    parameters.epsilon = Ratio { num: 0, den: 5 };
    assert!(!parameters.is_valid());
}

#[test]
fn fractions_are_ordered_by_value() {
    let third = Ratio { num: 1, den: 3 };
    let two_sixths = Ratio { num: 2, den: 6 };
    let half = Ratio { num: 1, den: 2 };
    assert!(third.at_most(&half));
    assert!(!half.at_most(&third));
    assert!(third.at_most(&two_sixths));
    assert!(two_sixths.at_most(&third));
    let large = Ratio { num: u64::MAX, den: 1 };
    let larger = Ratio { num: u64::MAX, den: 1 };
    assert!(large.at_most(&larger));
    assert!(!large.at_most(&Ratio { num: u64::MAX - 1, den: 1 }));
}

#[test]
fn wide_product_does_not_wrap() {
    assert_eq!(wide_product(u64::MAX, u64::MAX), u64::MAX as u128 * u64::MAX as u128);
    assert_eq!(wide_product(0, 17), 0);
    assert_eq!(wide_product(6, 7), 42);
}
