use ld_binning::bins::{
    edge_in_bp_rounded, edge_in_bp_rounded_down, edge_in_bp_rounded_up, Bins, DEFAULT_BIN_COUNT,
    MAX_EDGE, MAX_POSITION,
};
use ld_binning::ratio::Ratio;

fn per_hundred_million(num: u64) -> Ratio {
    Ratio { num, den: 100_000_000 }
}

#[test]
fn default_scheme_has_nineteen_half_centimorgan_bins() {
    let bins = Bins::hapne_default(per_hundred_million(1));
    assert_eq!(bins.nbins, 19);
    assert_eq!(DEFAULT_BIN_COUNT, 19);
    for i in 0..19 {
        assert_eq!(bins.left_edges_in_cm[i], 500 + 500 * i as u32);
        assert_eq!(bins.right_edges_in_cm[i], 1000 + 500 * i as u32);
        assert_eq!(bins.left_edges_in_bp[i], 500_000 * (i as u64 + 1));
        assert_eq!(bins.right_edges_in_bp[i], 500_000 * (i as u64 + 2));
    }
    assert_eq!(bins.minimum, 500_000);
    assert_eq!(bins.maximum, 10_000_000);
    assert_eq!(bins.recombination_rate, per_hundred_million(1));
    assert!(bins.is_window_covered());
}

#[test]
fn default_scheme_agrees_with_the_real_conversion() {
    let bins = Bins::hapne_default(per_hundred_million(1));
    for i in 0..19 {
        let left = (0.5 + 0.5 * i as f64) / 100.0 / 1e-8;
        let right = (1.0 + 0.5 * i as f64) / 100.0 / 1e-8;
        assert!((bins.left_edges_in_bp[i] as f64 - left).abs() < 1e-6);
        assert!((bins.right_edges_in_bp[i] as f64 - right).abs() < 1e-6);
    }
}

#[test]
fn edges_that_are_not_whole_are_rounded_inwards() {
    let bins = Bins::hapne_default(per_hundred_million(3));
    // 0.5 cM lie at 166666.67 bp, 1 cM at 333333.33 bp, 10 cM at 3333333.33 bp.
    assert_eq!(bins.left_edges_in_bp[0], 166_667);
    assert_eq!(bins.right_edges_in_bp[0], 333_333);
    assert_eq!(bins.left_edges_in_bp[1], 333_334);
    assert_eq!(bins.minimum, 166_667);
    assert_eq!(bins.maximum, 3_333_333);
    assert_eq!(bins.right_edges_in_bp[18], 3_333_333);
    assert!(bins.is_window_covered());
}

#[test]
fn window_may_reach_beyond_the_bins() {
    let bins = Bins::hapne_default(per_hundred_million(6));
    // 0.5 cM lie at 83333.33 bp: rounded to the nearest it is 83333, rounded up 83334.
    assert_eq!(bins.minimum, 83_333);
    assert_eq!(bins.left_edges_in_bp[0], 83_334);
    assert!(!bins.is_window_covered());
    assert!(bins.is_in_window(83_333));
    assert!(!bins.is_covered(83_333));
    assert!(bins.is_covered(83_334));
}

#[test]
fn locate_finds_the_bin_of_a_distance() {
    let bins = Bins::hapne_default(per_hundred_million(1));
    assert_eq!(bins.locate(500_000, 0), 0);
    assert_eq!(bins.locate(1_000_000, 0), 0);
    assert_eq!(bins.locate(1_000_001, 0), 1);
    assert_eq!(bins.locate(6_000_000, 0), 10);
    assert_eq!(bins.locate(6_000_001, 0), 11);
    assert_eq!(bins.locate(10_000_000, 0), 18);
}

#[test]
fn locate_moves_forward_only_and_lands_in_the_bin() {
    let bins = Bins::hapne_default(per_hundred_million(1));
    let mut cursor: usize = 0;
    let mut distance: u64 = 500_000;
    while distance <= 10_000_000 {
        let found = bins.locate(distance, cursor);
        assert!(found >= cursor);
        assert!(bins.left_edges_in_bp[found] <= distance);
        assert!(distance <= bins.right_edges_in_bp[found]);
        cursor = found;
        distance += 123_457;
    }
    assert_eq!(cursor, 18);
}

#[test]
fn locate_from_a_later_cursor_agrees_with_locate_from_the_start() {
    let bins = Bins::hapne_default(per_hundred_million(1));
    assert_eq!(bins.locate(7_250_000, 5), bins.locate(7_250_000, 0));
    assert_eq!(bins.locate(7_250_000, 13), 13);
}

#[test]
fn window_is_decided() {
    let bins = Bins::hapne_default(per_hundred_million(1));
    assert!(!bins.is_in_window(0));
    assert!(!bins.is_in_window(499_999));
    assert!(bins.is_in_window(500_000));
    assert!(bins.is_in_window(10_000_000));
    assert!(!bins.is_in_window(10_000_001));
    assert!(bins.is_covered(500_000));
    assert!(!bins.is_covered(10_000_001));
}

#[test]
fn edges_are_converted_with_each_rounding() {
    // At one crossover per hundred base pairs, 0.5 cM lie at half a base pair.
    let rate = Ratio { num: 1, den: 100 };
    assert_eq!(edge_in_bp_rounded_down(500, rate), 0);
    assert_eq!(edge_in_bp_rounded_up(500, rate), 1);
    assert_eq!(edge_in_bp_rounded(500, rate), 1);
    assert_eq!(edge_in_bp_rounded(499, rate), 0);
    assert_eq!(edge_in_bp_rounded_down(1000, rate), 1);
    assert_eq!(edge_in_bp_rounded_up(1000, rate), 1);
    assert_eq!(edge_in_bp_rounded(1000, rate), 1);
    assert_eq!(edge_in_bp_rounded_up(0, rate), 0);
}

#[test]
fn largest_edge_at_the_smallest_rate_is_a_position() {
    let rate = Ratio { num: 1, den: u64::MAX };
    let expected: u64 = ((MAX_EDGE as u128 * u64::MAX as u128) / 100_000) as u64;
    assert_eq!(edge_in_bp_rounded_down(MAX_EDGE, rate), expected);
    assert!(edge_in_bp_rounded_up(MAX_EDGE, rate) <= MAX_POSITION);
    assert!(edge_in_bp_rounded(MAX_EDGE, rate) <= MAX_POSITION);
    let bins = Bins::hapne_default(rate);
    assert!(bins.maximum <= MAX_POSITION);
    assert!(bins.minimum <= bins.maximum);
}
