use ld_binning::bins::Bins;
use ld_binning::genotype::{DiploidCall, GenotypeRecord};
use ld_binning::ld::LdEstimate;
use ld_binning::params::HyperParameters;
use ld_binning::scan::{
    ExhaustiveScanner, PairUpdate, ScanError, ScanPhase, ScanRequest, ScanStep, SourceEvent,
};
use ld_binning::source::{GenotypeSource, MAX_RECORDS};
use ld_binning::stats::SufficientSummaryStats;

fn record(position: u64, dosages: &[u32]) -> GenotypeRecord {
    let calls = dosages
        .iter()
        .map(|d| match d {
            0 => DiploidCall { first: Some(0), second: Some(0) },
            1 => DiploidCall { first: Some(0), second: Some(1) },
            _ => DiploidCall { first: Some(1), second: Some(1) },
        })
        .collect();
    GenotypeRecord { position, calls }
}

fn default_bins() -> Bins {
    Bins::hapne_default(HyperParameters::default().recombination_rate)
}

/// Runs the exhaustive scan over records in memory, performing each read that it asks for.
fn drive(records: &[GenotypeRecord], samples: usize) -> Result<(Vec<u32>, Vec<PairUpdate>), ScanError> {
    let bins = default_bins();
    let parameters = HyperParameters::default();
    let mut stats = SufficientSummaryStats::new(&bins);
    let mut scanner = ExhaustiveScanner::new(samples);
    let mut updates = Vec::new();
    let mut anchor = 0;
    let mut partner = 0;
    let mut request = ScanRequest::NextAnchor;
    loop {
        let event = match request {
            ScanRequest::Finished => break,
            ScanRequest::NextAnchor => {
                anchor += 1;
                records.get(anchor - 1)
            }
            ScanRequest::SeekPartner { position } => {
                partner = records.partition_point(|r| r.position < position);
                records.get(partner)
            }
            ScanRequest::NextPartner => {
                partner += 1;
                records.get(partner)
            }
        };
        let event = match event {
            Some(found) => SourceEvent::Record(found),
            None => SourceEvent::Exhausted,
        };
        let step = scanner.step(&bins, &parameters, &mut stats, event)?;
        if let Some(update) = step.update {
            updates.push(update);
        }
        request = step.request;
    }
    assert_eq!(scanner.phase, ScanPhase::Done);
    Ok((stats.counts, updates))
}

fn in_memory(records: &[GenotypeRecord], samples: usize) -> Result<(Vec<u32>, Vec<PairUpdate>), ScanError> {
    let source = GenotypeSource { sample_count: samples, contig_length: 100_000_000, records: records.to_vec() };
    assert!(source.is_wf());
    let report = source.scan_exhaustive(&default_bins(), &HyperParameters::default())?;
    Ok((report.stats.counts, report.updates))
}

fn counts_with(bin: usize, count: u32) -> Vec<u32> {
    let mut counts = vec![0u32; 19];
    counts[bin] = count;
    counts
}

const SEVEN_OVER_144: LdEstimate = LdEstimate { numerator: 560, denominator: 11520 };

#[test]
fn three_sites_six_megabases_apart() {
    let records = vec![
        record(0, &[1, 1, 1, 1, 1]),
        record(6_000_000, &[1, 1, 1, 1, 0]),
        record(12_000_000, &[1, 1, 1, 1, 0]),
    ];
    let (counts, updates) = drive(&records, 5).unwrap();
    // Six megabases are six centimorgans, the right edge of the bin from 5.5 cM to 6 cM.
    let bins = default_bins();
    assert_eq!(bins.left_edges_in_cm[10], 5500);
    assert_eq!(bins.right_edges_in_cm[10], 6000);
    assert_eq!(counts, counts_with(10, 2));
    assert_eq!(
        updates,
        vec![
            PairUpdate { bin: 10, estimate: LdEstimate { numerator: 0, denominator: 12000 } },
            PairUpdate { bin: 10, estimate: SEVEN_OVER_144 },
        ]
    );
    assert_eq!(in_memory(&records, 5).unwrap(), (counts, updates));
}

#[test]
fn three_sites_of_which_the_first_is_filtered() {
    let records = vec![
        record(0, &[0, 0, 0, 0, 0]),
        record(6_000_000, &[1, 1, 1, 1, 0]),
        record(12_000_000, &[1, 1, 1, 1, 0]),
    ];
    let (counts, updates) = drive(&records, 5).unwrap();
    assert_eq!(counts, counts_with(10, 1));
    assert_eq!(updates, vec![PairUpdate { bin: 10, estimate: SEVEN_OVER_144 }]);
    let value = updates[0].estimate.numerator as f64 / updates[0].estimate.denominator as f64;
    assert!((value - 0.048611111111111105).abs() < 1e-15);
    assert_eq!(in_memory(&records, 5).unwrap(), (counts, updates));
}

#[test]
fn two_sites_give_one_pair_and_no_pair_of_a_site_with_itself() {
    let records = vec![record(1_000, &[1, 1, 1, 1, 0]), record(2_501_000, &[1, 0, 1, 2, 1])];
    let (counts, updates) = drive(&records, 5).unwrap();
    // Two and a half megabases are the right edge of the bin from 2 cM to 2.5 cM.
    assert_eq!(counts, counts_with(3, 1));
    assert_eq!(updates.len(), 1);
    assert_eq!(updates[0].bin, 3);
    assert_eq!(in_memory(&records, 5).unwrap(), (counts, updates));
}

#[test]
fn sites_at_one_position_are_not_paired() {
    let records = vec![
        record(5_000, &[1, 1, 1, 1, 0]),
        record(5_000, &[1, 0, 1, 2, 1]),
        record(5_000, &[2, 0, 1, 2, 1]),
    ];
    let (counts, updates) = drive(&records, 5).unwrap();
    assert_eq!(counts, vec![0u32; 19]);
    assert!(updates.is_empty());
    assert_eq!(in_memory(&records, 5).unwrap(), (counts, updates));
}

#[test]
fn sites_nearer_than_the_window_or_beyond_it_are_not_paired() {
    let records = vec![
        record(0, &[1, 1, 1, 1, 0]),
        record(499_999, &[1, 0, 1, 2, 1]),
        record(10_500_000, &[1, 0, 1, 2, 1]),
    ];
    let (counts, updates) = drive(&records, 5).unwrap();
    // Only the second and third site are a pair: 10 000 001 bp apart is beyond the window.
    assert_eq!(counts, vec![0u32; 19]);
    assert!(updates.is_empty());
    let records = vec![
        record(0, &[1, 1, 1, 1, 0]),
        record(500_000, &[1, 0, 1, 2, 1]),
        record(10_000_000, &[1, 0, 1, 2, 1]),
    ];
    let (counts, updates) = drive(&records, 5).unwrap();
    let mut expected = vec![0u32; 19];
    expected[0] = 1;
    expected[17] = 1;
    expected[18] = 1;
    assert_eq!(counts, expected);
    assert_eq!(updates.iter().map(|u| u.bin).collect::<Vec<usize>>(), vec![0, 18, 17]);
    assert_eq!(in_memory(&records, 5).unwrap(), (counts, updates));
}

#[test]
fn filtered_sites_take_part_in_no_pair() {
    let kept: [u32; 5] = [1, 1, 1, 1, 0];
    let rare: [u32; 5] = [0, 0, 0, 0, 1];
    let records = vec![
        record(0, &kept),
        record(1_200_000, &rare),
        record(2_400_000, &kept),
        record(3_600_000, &rare),
        record(4_800_000, &kept),
    ];
    let (counts, updates) = drive(&records, 5).unwrap();
    // Three sites are kept, and each two of them form a pair.
    assert_eq!(updates.len(), 3);
    assert_eq!(counts.iter().sum::<u32>(), 3);
    assert_eq!(updates.iter().map(|u| u.bin).collect::<Vec<usize>>(), vec![3, 8, 3]);
    for update in &updates {
        assert_eq!(update.estimate, SEVEN_OVER_144);
    }
    assert_eq!(in_memory(&records, 5).unwrap(), (counts, updates));
}

#[test]
fn every_pair_in_the_window_is_counted_once() {
    let dosages: [u32; 4] = [0, 1, 1, 2];
    let records: Vec<GenotypeRecord> = (0..60).map(|i| record(i * 250_000, &dosages)).collect();
    let (counts, updates) = drive(&records, 4).unwrap();
    let mut expected = vec![0u32; 19];
    let bins = default_bins();
    let mut pairs = 0;
    for i in 0..60u64 {
        for j in (i + 1)..60u64 {
            let distance = (j - i) * 250_000;
            if (500_000..=10_000_000).contains(&distance) {
                expected[bins.locate(distance, 0)] += 1;
                pairs += 1;
            }
        }
    }
    assert_eq!(counts, expected);
    assert_eq!(updates.len(), pairs);
    assert_eq!(counts.iter().sum::<u32>() as usize, updates.len());
    for bin in 0..19 {
        assert_eq!(counts[bin] as usize, updates.iter().filter(|u| u.bin == bin).count());
    }
    assert_eq!(in_memory(&records, 4).unwrap(), (counts, updates));
}

#[test]
fn missing_allele_in_an_anchor_ends_the_scan() {
    let mut records = vec![record(0, &[1, 1, 1, 1, 0]), record(20_000_000, &[1, 0, 1, 2, 1])];
    records[1].calls[3] = DiploidCall { first: Some(0), second: None };
    assert_eq!(drive(&records, 5), Err(ScanError::MissingGenotype));
    assert_eq!(in_memory(&records, 5), Err(ScanError::MissingGenotype));
}

#[test]
fn missing_allele_in_a_partner_ends_the_scan() {
    let mut records = vec![record(0, &[1, 1, 1, 1, 0]), record(2_000_000, &[1, 0, 1, 2, 1])];
    records[1].calls[0] = DiploidCall { first: None, second: Some(1) };
    assert_eq!(drive(&records, 5), Err(ScanError::MissingGenotype));
    assert_eq!(in_memory(&records, 5), Err(ScanError::MissingGenotype));
}

#[test]
fn scan_of_no_sites_finishes_at_once() {
    assert_eq!(drive(&[], 5).unwrap(), (vec![0u32; 19], vec![]));
    assert_eq!(in_memory(&[], 5).unwrap(), (vec![0u32; 19], vec![]));
}

#[test]
fn steps_of_one_window() {
    let bins = default_bins();
    let parameters = HyperParameters::default();
    let mut stats = SufficientSummaryStats::new(&bins);
    let mut scanner = ExhaustiveScanner::new(5);
    assert_eq!(scanner.phase, ScanPhase::AdvanceAnchor);
    let rare = record(10, &[0, 0, 0, 0, 1]);
    let step = scanner.step(&bins, &parameters, &mut stats, SourceEvent::Record(&rare)).unwrap();
    assert_eq!(step, ScanStep { update: None, request: ScanRequest::NextAnchor });
    assert_eq!(scanner.phase, ScanPhase::AdvanceAnchor);
    let anchor = record(1_000, &[1, 1, 1, 1, 0]);
    let step = scanner.step(&bins, &parameters, &mut stats, SourceEvent::Record(&anchor)).unwrap();
    assert_eq!(step, ScanStep { update: None, request: ScanRequest::SeekPartner { position: 501_000 } });
    assert_eq!(scanner.phase, ScanPhase::ScanWindow);
    assert_eq!(scanner.window.anchor_position, 1_000);
    assert_eq!(scanner.window.anchor.centered, vec![1, 1, 1, 1, -4]);
    assert_eq!(scanner.window.cursor, 0);
    let filtered = record(2_001_000, &[0, 0, 0, 0, 1]);
    let step = scanner.step(&bins, &parameters, &mut stats, SourceEvent::Record(&filtered)).unwrap();
    assert_eq!(step, ScanStep { update: None, request: ScanRequest::NextPartner });
    assert_eq!(scanner.window.cursor, 2);
    let partner = record(3_001_000, &[1, 1, 1, 1, 0]);
    let step = scanner.step(&bins, &parameters, &mut stats, SourceEvent::Record(&partner)).unwrap();
    assert_eq!(
        step,
        ScanStep {
            update: Some(PairUpdate { bin: 4, estimate: SEVEN_OVER_144 }),
            request: ScanRequest::NextPartner,
        }
    );
    assert_eq!(stats.counts, counts_with(4, 1));
    let beyond = record(10_001_001, &[1, 1, 1, 1, 0]);
    let step = scanner.step(&bins, &parameters, &mut stats, SourceEvent::Record(&beyond)).unwrap();
    assert_eq!(step, ScanStep { update: None, request: ScanRequest::NextAnchor });
    assert_eq!(scanner.phase, ScanPhase::AdvanceAnchor);
    let step = scanner.step(&bins, &parameters, &mut stats, SourceEvent::Exhausted).unwrap();
    assert_eq!(step, ScanStep { update: None, request: ScanRequest::Finished });
    assert_eq!(scanner.phase, ScanPhase::Done);
    assert_eq!(stats.counts, counts_with(4, 1));
}

#[test]
fn seek_finds_the_first_site_at_or_after_a_position() {
    let dosages: [u32; 3] = [0, 1, 2];
    let records: Vec<GenotypeRecord> =
        [10u64, 20, 20, 20, 35, 50].iter().map(|p| record(*p, &dosages)).collect();
    let source = GenotypeSource { sample_count: 3, contig_length: 100, records };
    assert_eq!(source.seek(0), 0);
    assert_eq!(source.seek(10), 0);
    assert_eq!(source.seek(11), 1);
    assert_eq!(source.seek(20), 1);
    assert_eq!(source.seek(21), 4);
    assert_eq!(source.seek(50), 5);
    assert_eq!(source.seek(51), 6);
    let empty = GenotypeSource { sample_count: 3, contig_length: 100, records: vec![] };
    assert_eq!(empty.seek(7), 0);
}

#[test]
fn source_validity_is_decided() {
    let dosages: [u32; 3] = [0, 1, 2];
    let ascending = GenotypeSource {
        sample_count: 3,
        contig_length: 100,
        records: vec![record(5, &dosages), record(5, &dosages), record(9, &dosages)],
    };
    assert!(ascending.is_wf());
    let descending = GenotypeSource {
        sample_count: 3,
        contig_length: 100,
        records: vec![record(5, &dosages), record(4, &dosages)],
    };
    assert!(!descending.is_wf());
    let uneven = GenotypeSource {
        sample_count: 3,
        contig_length: 100,
        records: vec![record(5, &dosages), record(6, &[0, 1])],
    };
    assert!(!uneven.is_wf());
    assert_eq!(MAX_RECORDS, 65_535);
}
