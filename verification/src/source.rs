//! A genotype source held in memory, and the exhaustive scan over it.
//!
//! The scan over a source in memory is the scan of `ExhaustiveScanner`, with the reads
//! performed on a vector of records. What it adds is the statement of the whole result: the
//! estimates are those of all pairs of records that pass the frequency filter and lie at a
//! distance inside the window, each pair once, in the order of the anchors and then of the
//! partners.

use crate::bins::Bins;
use crate::genotype::centered_dosages;
use crate::genotype::has_missing;
use crate::genotype::is_filtered;
use crate::genotype::standardization_scale;
use crate::genotype::GenotypeRecord;
use crate::genotype::MAX_SAMPLES;
use crate::params::HyperParameters;
use crate::ratio::Ratio;
use crate::scan::counts_after;
use crate::scan::pair_estimate;
use crate::scan::ExhaustiveScanner;
use crate::scan::PairUpdate;
use crate::scan::ScanError;
use crate::scan::ScanRequest;
use crate::scan::SourceEvent;
use crate::stats::count_total;
use crate::stats::SufficientSummaryStats;
use vstd::prelude::*;

verus! {

/// A number of records with which no bin can be filled, whatever the records are: there are
/// fewer pairs of so many records than a count can hold.
pub const MAX_RECORDS: usize = 65_535;

/// The records of one contig, in ascending order of position.
#[derive(Clone, Debug)]
pub struct GenotypeSource {
    pub sample_count: usize,
    pub contig_length: u64,
    pub records: Vec<GenotypeRecord>,
}

/// All that an exhaustive scan found.
#[derive(Clone, Debug)]
pub struct ScanReport {
    pub stats: SufficientSummaryStats,
    /// Every estimate, in the order in which the scan added them.
    pub updates: Vec<PairUpdate>,
}

/// Records `i` and `j` form a pair: both pass the frequency filter, and `j` lies behind `i`
/// at a distance inside the window.
pub open spec fn is_pair(
    records: Seq<GenotypeRecord>,
    bins: &Bins,
    threshold: Ratio,
    i: int,
    j: int,
) -> bool {
    &&& !is_filtered(records[i].calls@, threshold)
    &&& !is_filtered(records[j].calls@, threshold)
    &&& records[i].position <= records[j].position
    &&& bins.in_window((records[j].position - records[i].position) as u64)
}

/// The estimate of the pair of records `i` and `j`, for the bin of their distance.
pub open spec fn update_of(records: Seq<GenotypeRecord>, bins: &Bins, i: int, j: int) -> PairUpdate {
    PairUpdate {
        bin: bins.first_bin((records[j].position - records[i].position) as u64, 0) as usize,
        estimate: pair_estimate(
            centered_dosages(records[i].calls@),
            standardization_scale(records[i].calls@),
            records[j].calls@,
        ),
    }
}

/// The estimates of the pairs that anchor `i` forms with the records behind it and before
/// index `end`, in ascending order of the partner.
pub open spec fn pairs_of_anchor(
    records: Seq<GenotypeRecord>,
    bins: &Bins,
    threshold: Ratio,
    i: int,
    end: int,
) -> Seq<PairUpdate>
    decreases end - i,
{
    if end <= i + 1 {
        Seq::empty()
    } else {
        let before = pairs_of_anchor(records, bins, threshold, i, end - 1);
        if is_pair(records, bins, threshold, i, end - 1) {
            before.push(update_of(records, bins, i, end - 1))
        } else {
            before
        }
    }
}

/// The estimates of all pairs whose anchor lies before index `end`, in ascending order of
/// the anchor and then of the partner.
pub open spec fn pairs_upto(
    records: Seq<GenotypeRecord>,
    bins: &Bins,
    threshold: Ratio,
    end: int,
) -> Seq<PairUpdate>
    decreases end,
{
    if end <= 0 {
        Seq::empty()
    } else {
        pairs_upto(records, bins, threshold, end - 1) + pairs_of_anchor(
            records,
            bins,
            threshold,
            end - 1,
            records.len() as int,
        )
    }
}

/// The number of estimates of a sequence that went to bin `bin`.
pub open spec fn pairs_in_bin(updates: Seq<PairUpdate>, bin: int) -> nat
    decreases updates.len(),
{
    if updates.len() == 0 {
        0
    } else {
        pairs_in_bin(updates.drop_last(), bin) + if updates.last().bin == bin {
            1nat
        } else {
            0nat
        }
    }
}

/// The first sequence is the beginning of the second.
pub open spec fn is_prefix(s: Seq<PairUpdate>, t: Seq<PairUpdate>) -> bool {
    s.len() <= t.len() && forall|k: int| 0 <= k < s.len() ==> s[k] == t[k]
}

/// The scan fills no bin: the pairs of each bin are fewer than the largest number that a
/// count can hold.
pub open spec fn leaves_room(records: Seq<GenotypeRecord>, bins: &Bins, threshold: Ratio) -> bool {
    forall|bin: int|
        0 <= bin < bins.nbins ==> #[trigger] pairs_in_bin(
            pairs_upto(records, bins, threshold, records.len() as int),
            bin,
        ) < u32::MAX
}

/// A bin receives no more estimates from the beginning of a sequence than from all of it.
proof fn lemma_count_of_prefix(s: Seq<PairUpdate>, t: Seq<PairUpdate>, bin: int)
    requires
        is_prefix(s, t),
    ensures
        pairs_in_bin(s, bin) <= pairs_in_bin(t, bin),
    decreases t.len(),
{
    if s.len() == t.len() {
        assert(s =~= t);
    } else {
        assert(is_prefix(s, t.drop_last()));
        lemma_count_of_prefix(s, t.drop_last(), bin);
    }
}

/// A bin receives no more estimates than there are.
proof fn lemma_count_at_most_len(s: Seq<PairUpdate>, bin: int)
    ensures
        pairs_in_bin(s, bin) <= s.len(),
    decreases s.len(),
{
    if s.len() > 0 {
        lemma_count_at_most_len(s.drop_last(), bin);
    }
}

/// The estimates of an anchor with its nearer partners are the beginning of those with
/// all its partners.
proof fn lemma_anchor_prefix(
    records: Seq<GenotypeRecord>,
    bins: &Bins,
    threshold: Ratio,
    i: int,
    near: int,
    far: int,
)
    requires
        i < near <= far,
    ensures
        is_prefix(
            pairs_of_anchor(records, bins, threshold, i, near),
            pairs_of_anchor(records, bins, threshold, i, far),
        ),
    decreases far - near,
{
    if near < far {
        lemma_anchor_prefix(records, bins, threshold, i, near, far - 1);
    }
}

/// The estimates of the first anchors are the beginning of those of more anchors.
proof fn lemma_scan_prefix(
    records: Seq<GenotypeRecord>,
    bins: &Bins,
    threshold: Ratio,
    few: int,
    many: int,
)
    requires
        0 <= few <= many,
    ensures
        is_prefix(
            pairs_upto(records, bins, threshold, few),
            pairs_upto(records, bins, threshold, many),
        ),
    decreases many - few,
{
    if few < many {
        lemma_scan_prefix(records, bins, threshold, few, many - 1);
    }
}

/// What a scan has found when it stands at partner `j` of anchor `i` is the beginning of
/// what it finds in all.
proof fn lemma_scanned_prefix(
    records: Seq<GenotypeRecord>,
    bins: &Bins,
    threshold: Ratio,
    i: int,
    j: int,
)
    requires
        0 <= i < j <= records.len(),
    ensures
        is_prefix(
            pairs_upto(records, bins, threshold, i) + pairs_of_anchor(
                records,
                bins,
                threshold,
                i,
                j,
            ),
            pairs_upto(records, bins, threshold, records.len() as int),
        ),
{
    let n = records.len() as int;
    let before = pairs_upto(records, bins, threshold, i);
    let some = pairs_of_anchor(records, bins, threshold, i, j);
    let all = pairs_of_anchor(records, bins, threshold, i, n);
    lemma_anchor_prefix(records, bins, threshold, i, j, n);
    assert(pairs_upto(records, bins, threshold, i + 1) == before + all);
    assert forall|k: int| 0 <= k < (before + some).len() implies (before + some)[k] == (before
        + all)[k] by {
        if k >= before.len() {
            assert(some[k - before.len()] == all[k - before.len()]);
        }
    }
    assert(is_prefix(before + some, before + all));
    lemma_scan_prefix(records, bins, threshold, i + 1, n);
}

/// While the scan has found only a beginning of what it finds in all, and the counts
/// are those of what it has found, every bin has room.
proof fn lemma_room_left(
    records: Seq<GenotypeRecord>,
    bins: &Bins,
    threshold: Ratio,
    found: Seq<PairUpdate>,
    stats: SufficientSummaryStats,
)
    requires
        leaves_room(records, bins, threshold),
        is_prefix(found, pairs_upto(records, bins, threshold, records.len() as int)),
        stats.counts.len() == bins.nbins,
        forall|b: int| 0 <= b < bins.nbins ==> #[trigger] stats.counts[b] == pairs_in_bin(found, b),
    ensures
        stats.has_room_everywhere(bins.nbins as int),
{
    let all = pairs_upto(records, bins, threshold, records.len() as int);
    assert forall|b: int| 0 <= b < bins.nbins implies #[trigger] stats.counts[b] < u32::MAX by {
        lemma_count_of_prefix(found, all, b);
        assert(pairs_in_bin(all, b) < u32::MAX);
    }
}

proof fn lemma_anchor_len(
    records: Seq<GenotypeRecord>,
    bins: &Bins,
    threshold: Ratio,
    i: int,
    end: int,
)
    ensures
        pairs_of_anchor(records, bins, threshold, i, end).len() <= if end > i {
            end - i - 1
        } else {
            0
        },
    decreases end - i,
{
    if end > i + 1 {
        lemma_anchor_len(records, bins, threshold, i, end - 1);
    }
}

proof fn lemma_scan_len(records: Seq<GenotypeRecord>, bins: &Bins, threshold: Ratio, end: int)
    requires
        0 <= end <= records.len(),
    ensures
        pairs_upto(records, bins, threshold, end).len() <= end * records.len(),
    decreases end,
{
    let n = records.len() as int;
    if end > 0 {
        lemma_scan_len(records, bins, threshold, end - 1);
        lemma_anchor_len(records, bins, threshold, end - 1, n);
        assert((end - 1) * n + n == end * n) by (nonlinear_arith);
    } else {
        assert(0 * n == 0) by (nonlinear_arith);
    }
}

/// With no more than `MAX_RECORDS` records the scan fills no bin.
pub proof fn lemma_few_records_leave_room(
    records: Seq<GenotypeRecord>,
    bins: &Bins,
    threshold: Ratio,
)
    requires
        records.len() <= MAX_RECORDS,
    ensures
        leaves_room(records, bins, threshold),
{
    let n = records.len() as int;
    let all = pairs_upto(records, bins, threshold, n);
    lemma_scan_len(records, bins, threshold, n);
    assert(n * n <= 65_535 * 65_535) by (nonlinear_arith)
        requires
            0 <= n <= 65_535,
    ;
    assert forall|bin: int| 0 <= bin < bins.nbins implies #[trigger] pairs_in_bin(all, bin)
        < u32::MAX by {
        lemma_count_at_most_len(all, bin);
    }
}

/// Records that form no pair with the anchor add nothing to its estimates.
proof fn lemma_no_pairs(
    records: Seq<GenotypeRecord>,
    bins: &Bins,
    threshold: Ratio,
    i: int,
    from: int,
    to: int,
)
    requires
        i < from <= to,
        forall|k: int| from <= k < to ==> !is_pair(records, bins, threshold, i, k),
    ensures
        pairs_of_anchor(records, bins, threshold, i, to) == pairs_of_anchor(
            records,
            bins,
            threshold,
            i,
            from,
        ),
    decreases to - from,
{
    if from < to {
        assert(!is_pair(records, bins, threshold, i, to - 1));
        lemma_no_pairs(records, bins, threshold, i, from, to - 1);
    }
}

/// The number of partners before index `end` with which anchor `i` forms a pair.
pub open spec fn partners_of(
    records: Seq<GenotypeRecord>,
    bins: &Bins,
    threshold: Ratio,
    i: int,
    end: int,
) -> nat
    decreases end - i,
{
    if end <= i + 1 {
        0
    } else {
        partners_of(records, bins, threshold, i, end - 1) + if is_pair(
            records,
            bins,
            threshold,
            i,
            end - 1,
        ) {
            1nat
        } else {
            0nat
        }
    }
}

/// An anchor gives one estimate for each partner with which it forms a pair, and so one
/// for each partner that passes the frequency filter at a distance inside the window,
/// where it passes the filter itself.
pub proof fn lemma_one_estimate_for_each_partner(
    records: Seq<GenotypeRecord>,
    bins: &Bins,
    threshold: Ratio,
    i: int,
    end: int,
)
    ensures
        pairs_of_anchor(records, bins, threshold, i, end).len() == partners_of(
            records,
            bins,
            threshold,
            i,
            end,
        ),
    decreases end - i,
{
    if end > i + 1 {
        lemma_one_estimate_for_each_partner(records, bins, threshold, i, end - 1);
    }
}

/// An anchor below the frequency threshold gives no estimate.
pub proof fn lemma_filtered_anchor_has_no_pairs(
    records: Seq<GenotypeRecord>,
    bins: &Bins,
    threshold: Ratio,
    i: int,
    end: int,
)
    requires
        is_filtered(records[i].calls@, threshold),
    ensures
        pairs_of_anchor(records, bins, threshold, i, end) == Seq::<PairUpdate>::empty(),
{
    if end > i + 1 {
        lemma_no_pairs(records, bins, threshold, i, i + 1, end);
    }
}

/// Estimate `k` of an anchor is that of the anchor and a partner with which it forms a
/// pair; the partner is the result.
pub proof fn lemma_estimate_of_anchor(
    records: Seq<GenotypeRecord>,
    bins: &Bins,
    threshold: Ratio,
    i: int,
    end: int,
    k: int,
) -> (j: int)
    requires
        0 <= k < pairs_of_anchor(records, bins, threshold, i, end).len(),
    ensures
        i < j < end,
        is_pair(records, bins, threshold, i, j),
        pairs_of_anchor(records, bins, threshold, i, end)[k] == update_of(records, bins, i, j),
    decreases end - i,
{
    let before = pairs_of_anchor(records, bins, threshold, i, end - 1);
    if is_pair(records, bins, threshold, i, end - 1) && k == before.len() {
        end - 1
    } else {
        lemma_estimate_of_anchor(records, bins, threshold, i, end - 1, k)
    }
}

/// Every estimate of a scan is that of two records that form a pair: both pass the
/// frequency filter, and the second lies behind the first at a distance inside the window.
/// The two records are the result. No estimate is made of a record below the threshold,
/// nor of a record and itself.
pub proof fn lemma_estimate_is_of_a_pair(
    records: Seq<GenotypeRecord>,
    bins: &Bins,
    threshold: Ratio,
    end: int,
    k: int,
) -> (pair: (int, int))
    requires
        0 <= end <= records.len(),
        0 <= k < pairs_upto(records, bins, threshold, end).len(),
    ensures
        0 <= pair.0 < pair.1 < records.len(),
        pair.0 < end,
        is_pair(records, bins, threshold, pair.0, pair.1),
        pairs_upto(records, bins, threshold, end)[k] == update_of(records, bins, pair.0, pair.1),
    decreases end,
{
    let before = pairs_upto(records, bins, threshold, end - 1);
    if k < before.len() {
        lemma_estimate_is_of_a_pair(records, bins, threshold, end - 1, k)
    } else {
        let j = lemma_estimate_of_anchor(
            records,
            bins,
            threshold,
            end - 1,
            records.len() as int,
            k - before.len(),
        );
        (end - 1, j)
    }
}

/// Anchors without estimates add nothing to a scan.
proof fn lemma_no_estimates(
    records: Seq<GenotypeRecord>,
    bins: &Bins,
    threshold: Ratio,
    from: int,
    to: int,
)
    requires
        0 <= from <= to,
        forall|i: int|
            from <= i < to ==> #[trigger] pairs_of_anchor(
                records,
                bins,
                threshold,
                i,
                records.len() as int,
            ) == Seq::<PairUpdate>::empty(),
    ensures
        pairs_upto(records, bins, threshold, to) == pairs_upto(records, bins, threshold, from),
    decreases to - from,
{
    if from < to {
        lemma_no_estimates(records, bins, threshold, from, to - 1);
        let last = pairs_of_anchor(records, bins, threshold, to - 1, records.len() as int);
        assert(last == Seq::<PairUpdate>::empty());
        assert(pairs_upto(records, bins, threshold, to - 1) + last =~= pairs_upto(
            records,
            bins,
            threshold,
            to - 1,
        ));
    }
}

/// A scan over records of which only two pass the frequency filter, the second behind the
/// first at a distance inside the window, gives one estimate: that of the two, in the
/// first bin whose right edge their distance does not exceed. That bin receives one pair
/// and every other bin none.
pub proof fn lemma_two_kept_records(
    records: Seq<GenotypeRecord>,
    bins: &Bins,
    threshold: Ratio,
    first: int,
    second: int,
)
    requires
        0 <= first < second < records.len(),
        is_pair(records, bins, threshold, first, second),
        forall|k: int|
            0 <= k < records.len() && k != first && k != second ==> is_filtered(
                (#[trigger] records[k]).calls@,
                threshold,
            ),
    ensures
        pairs_upto(records, bins, threshold, records.len() as int) == seq![
            update_of(records, bins, first, second),
        ],
        forall|bin: int|
            pairs_in_bin(
                pairs_upto(records, bins, threshold, records.len() as int),
                bin,
            ) == if bin == update_of(records, bins, first, second).bin {
                1nat
            } else {
                0nat
            },
        bins.wf() && bins.covers((records[second].position - records[first].position) as u64)
            ==> bins.holds(
            update_of(records, bins, first, second).bin as int,
            (records[second].position - records[first].position) as u64,
        ),
{
    let n = records.len() as int;
    let update = update_of(records, bins, first, second);
    let distance = (records[second].position - records[first].position) as u64;
    if bins.wf() && bins.covers(distance) {
        bins.lemma_first_bin_holds(distance, 0);
    }
    let none = Seq::<PairUpdate>::empty();
    assert forall|i: int| 0 <= i < n && i != first implies #[trigger] pairs_of_anchor(
        records,
        bins,
        threshold,
        i,
        n,
    ) == none by {
        if n > i + 1 {
            assert forall|k: int| i + 1 <= k < n implies !is_pair(records, bins, threshold, i, k) by {
                if i == second {
                    assert(is_filtered(records[k].calls@, threshold));
                } else {
                    assert(is_filtered(records[i].calls@, threshold));
                }
            }
            lemma_no_pairs(records, bins, threshold, i, i + 1, n);
        }
    }
    assert forall|k: int| first + 1 <= k < second implies !is_pair(
        records,
        bins,
        threshold,
        first,
        k,
    ) by {
        assert(is_filtered(records[k].calls@, threshold));
    }
    lemma_no_pairs(records, bins, threshold, first, first + 1, second);
    assert forall|k: int| second + 1 <= k < n implies !is_pair(
        records,
        bins,
        threshold,
        first,
        k,
    ) by {
        assert(is_filtered(records[k].calls@, threshold));
    }
    lemma_no_pairs(records, bins, threshold, first, second + 1, n);
    assert(pairs_of_anchor(records, bins, threshold, first, second) == none);
    assert(pairs_of_anchor(records, bins, threshold, first, second + 1) == none.push(update));
    assert(pairs_of_anchor(records, bins, threshold, first, n) == none.push(update));
    lemma_no_estimates(records, bins, threshold, 0, first);
    assert(pairs_upto(records, bins, threshold, first) == none);
    assert(pairs_upto(records, bins, threshold, first + 1) =~= seq![update]);
    lemma_no_estimates(records, bins, threshold, first + 1, n);
    let all = pairs_upto(records, bins, threshold, n);
    assert(all == seq![update]);
    assert(all.drop_last() =~= none);
    assert(all.last() == update);
    assert forall|bin: int|
        pairs_in_bin(all, bin) == if bin == update.bin {
            1nat
        } else {
            0nat
        } by {
        assert(pairs_in_bin(none, bin) == 0);
    }
}

/// The estimates that went to the bins below `nbins`.
pub open spec fn pairs_in_bins_below(updates: Seq<PairUpdate>, nbins: int) -> nat
    decreases nbins,
{
    if nbins <= 0 {
        0
    } else {
        pairs_in_bins_below(updates, nbins - 1) + pairs_in_bin(updates, nbins - 1)
    }
}

proof fn lemma_one_more_below(updates: Seq<PairUpdate>, nbins: int)
    requires
        updates.len() > 0,
    ensures
        pairs_in_bins_below(updates, nbins) == pairs_in_bins_below(updates.drop_last(), nbins)
            + if updates.last().bin < nbins {
            1nat
        } else {
            0nat
        },
    decreases nbins,
{
    if nbins > 0 {
        lemma_one_more_below(updates, nbins - 1);
    }
}

proof fn lemma_all_below(updates: Seq<PairUpdate>, nbins: int)
    requires
        forall|k: int| 0 <= k < updates.len() ==> (#[trigger] updates[k]).bin < nbins,
    ensures
        pairs_in_bins_below(updates, nbins) == updates.len(),
    decreases updates.len(),
{
    if updates.len() > 0 {
        let rest = updates.drop_last();
        assert forall|k: int| 0 <= k < rest.len() implies (#[trigger] rest[k]).bin < nbins by {
            assert(rest[k] == updates[k]);
        }
        lemma_all_below(rest, nbins);
        lemma_one_more_below(updates, nbins);
        assert(updates.last() == updates[updates.len() - 1]);
    } else {
        lemma_none_below(updates, nbins);
    }
}

proof fn lemma_none_below(updates: Seq<PairUpdate>, nbins: int)
    requires
        updates.len() == 0,
    ensures
        pairs_in_bins_below(updates, nbins) == 0,
    decreases nbins,
{
    if nbins > 0 {
        lemma_none_below(updates, nbins - 1);
    }
}

proof fn lemma_counts_below(counts: Seq<u32>, updates: Seq<PairUpdate>, k: int)
    requires
        0 <= k <= counts.len(),
        forall|b: int| 0 <= b < counts.len() ==> #[trigger] counts[b] == pairs_in_bin(updates, b),
    ensures
        count_total(counts.take(k)) == pairs_in_bins_below(updates, k),
    decreases k,
{
    if k > 0 {
        lemma_counts_below(counts, updates, k - 1);
        assert(counts.take(k).drop_last() == counts.take(k - 1));
        assert(counts.take(k).last() == counts[k - 1]);
    }
}

/// Where the counts are those of a sequence of estimates, bin by bin, and every estimate
/// went to one of the bins, the counts of all bins together are the number of estimates.
pub proof fn lemma_counts_sum_to_estimates(counts: Seq<u32>, updates: Seq<PairUpdate>)
    requires
        forall|b: int| 0 <= b < counts.len() ==> #[trigger] counts[b] == pairs_in_bin(updates, b),
        forall|k: int| 0 <= k < updates.len() ==> (#[trigger] updates[k]).bin < counts.len(),
    ensures
        count_total(counts) == updates.len(),
{
    lemma_counts_below(counts, updates, counts.len() as int);
    assert(counts.take(counts.len() as int) == counts);
    lemma_all_below(updates, counts.len() as int);
}

impl GenotypeSource {
    /// Every record fits the sample count, and the positions ascend.
    pub open spec fn wf(&self) -> bool {
        &&& self.sample_count <= MAX_SAMPLES
        &&& forall|i: int|
            0 <= i < self.records.len() ==> (#[trigger] self.records[i]).fits(
                self.sample_count as int,
            )
        &&& forall|i: int, j: int|
            0 <= i <= j < self.records.len() ==> (#[trigger] self.records[i]).position <= (
            #[trigger] self.records[j]).position
    }

    /// Decides `wf`.
    pub fn is_wf(&self) -> (r: bool)
        ensures
            r == self.wf(),
    {
        if self.sample_count > MAX_SAMPLES {
            return false;
        }
        let mut i: usize = 0;
        while i < self.records.len()
            invariant
                i <= self.records.len(),
                forall|k: int|
                    0 <= k < i ==> (#[trigger] self.records[k]).fits(self.sample_count as int),
                forall|k: int, j: int|
                    0 <= k <= j < i ==> (#[trigger] self.records[k]).position <= (
                    #[trigger] self.records[j]).position,
            decreases self.records.len() - i,
        {
            if !self.records[i].is_fit(self.sample_count) {
                return false;
            }
            if i > 0 && self.records[i - 1].position > self.records[i].position {
                assert(!(self.records[i - 1].position <= self.records[i as int].position));
                return false;
            }
            assert forall|k: int, j: int| 0 <= k <= j < i + 1 implies (
            #[trigger] self.records[k]).position <= (#[trigger] self.records[j]).position by {
                if j == i && k < i {
                    assert(self.records[k].position <= self.records[i - 1].position);
                }
            }
            i += 1;
        }
        true
    }

    /// The index of the first record at or after a position; the number of records where
    /// there is none.
    pub fn seek(&self, position: u64) -> (index: usize)
        requires
            self.wf(),
        ensures
            index <= self.records.len(),
            forall|k: int| 0 <= k < index ==> (#[trigger] self.records[k]).position < position,
            forall|k: int|
                index <= k < self.records.len() ==> (#[trigger] self.records[k]).position
                    >= position,
    {
        let mut low: usize = 0;
        let mut high: usize = self.records.len();
        while low < high
            invariant
                self.wf(),
                low <= high <= self.records.len(),
                forall|k: int| 0 <= k < low ==> (#[trigger] self.records[k]).position < position,
                forall|k: int|
                    high <= k < self.records.len() ==> (#[trigger] self.records[k]).position
                        >= position,
            decreases high - low,
        {
            let middle: usize = low + (high - low) / 2;
            if self.records[middle].position < position {
                assert forall|k: int| 0 <= k < middle + 1 implies (
                #[trigger] self.records[k]).position < position by {
                    assert(self.records[k].position <= self.records[middle as int].position);
                }
                low = middle + 1;
            } else {
                assert forall|k: int| middle <= k < self.records.len() implies (
                #[trigger] self.records[k]).position >= position by {
                    assert(self.records[middle as int].position <= self.records[k].position);
                }
                high = middle;
            }
        }
        low
    }

    /// Scans every pair of the source.
    ///
    /// The scan fails exactly when some record has a call with a missing allele: every
    /// record is an anchor once, and is standardized then at the latest. The counts are
    /// those of the estimates, bin by bin. No bin may be filled by the scan; with no more
    /// than `MAX_RECORDS` records none is.
    pub fn scan_exhaustive(&self, bins: &Bins, parameters: &HyperParameters) -> (r: Result<
        ScanReport,
        ScanError,
    >)
        requires
            self.wf(),
            bins.wf(),
            bins.window_covered(),
            bins.minimum > 0,
            parameters.maf_threshold.wf(),
            leaves_room(self.records@, bins, parameters.maf_threshold),
        ensures
            r is Err <==> exists|i: int|
                0 <= i < self.records.len() && has_missing((#[trigger] self.records[i]).calls@),
            r matches Ok(report) ==> {
                &&& report.updates@ == pairs_upto(
                    self.records@,
                    bins,
                    parameters.maf_threshold,
                    self.records.len() as int,
                )
                &&& report.stats.counts.len() == bins.nbins
                &&& forall|bin: int|
                    0 <= bin < bins.nbins ==> #[trigger] report.stats.counts[bin] == pairs_in_bin(
                        report.updates@,
                        bin,
                    )
                &&& count_total(report.stats.counts@) == report.updates.len()
            },
    {
        let n: usize = self.records.len();
        let ghost records = self.records@;
        let ghost threshold = parameters.maf_threshold;
        let mut scanner: ExhaustiveScanner = ExhaustiveScanner::new(self.sample_count);
        let mut stats: SufficientSummaryStats = SufficientSummaryStats::new(bins);
        let mut updates: Vec<PairUpdate> = Vec::new();
        let mut i: usize = 0;
        while i < n
            invariant
                i <= n,
                n == self.records.len(),
                leaves_room(records, bins, threshold),
                records == self.records@,
                threshold == parameters.maf_threshold,
                self.wf(),
                bins.wf(),
                bins.window_covered(),
                bins.minimum > 0,
                threshold.wf(),
                scanner.wf(bins),
                scanner.phase is AdvanceAnchor,
                scanner.sample_count == self.sample_count,
                updates@ == pairs_upto(records, bins, threshold, i as int),
                stats.counts.len() == bins.nbins,
                forall|b: int|
                    0 <= b < bins.nbins ==> #[trigger] stats.counts[b] == pairs_in_bin(
                        updates@,
                        b,
                    ),
                forall|k: int| 0 <= k < updates.len() ==> (#[trigger] updates[k]).bin < bins.nbins,
                forall|k: int| 0 <= k < i ==> !has_missing((#[trigger] records[k]).calls@),
            decreases n - i,
        {
            let anchor: &GenotypeRecord = &self.records[i];
            let ghost before = updates@;
            proof {
                lemma_scan_prefix(records, bins, threshold, i as int, n as int);
                lemma_room_left(records, bins, threshold, updates@, stats);
            }
            let request: ScanRequest = match scanner.step(
                bins,
                parameters,
                &mut stats,
                SourceEvent::Record(anchor),
            ) {
                Err(e) => {
                    return Err(e);
                },
                Ok(step) => step.request,
            };
            match request {
                ScanRequest::SeekPartner { position } => {
                    let mut j: usize = self.seek(position);
                    let mut scanning: bool = true;
                    proof {
                        assert(records[i as int].position < position);
                        assert(j > i);
                        assert forall|k: int| i + 1 <= k < j implies !is_pair(
                            records,
                            bins,
                            threshold,
                            i as int,
                            k,
                        ) by {
                            assert(records[k].position < position);
                        }
                        lemma_no_pairs(records, bins, threshold, i as int, i + 1, j as int);
                        assert(before + pairs_of_anchor(records, bins, threshold, i as int, j as int)
                            =~= before);
                        scanner.window.anchor.lemma_represents(records[i as int].calls@);
                    }
                    while scanning
                        invariant
                            i < j <= n,
                            i < n,
                            n == self.records.len(),
                            leaves_room(records, bins, threshold),
                            records == self.records@,
                            threshold == parameters.maf_threshold,
                            self.wf(),
                            bins.wf(),
                            bins.window_covered(),
                            bins.minimum > 0,
                            threshold.wf(),
                            scanner.wf(bins),
                            scanner.sample_count == self.sample_count,
                            before == pairs_upto(records, bins, threshold, i as int),
                            !has_missing(records[i as int].calls@),
                            !is_filtered(records[i as int].calls@, threshold),
                            scanning ==> {
                                &&& scanner.phase is ScanWindow
                                &&& scanner.window.anchor_position == records[i as int].position
                                &&& scanner.window.anchor.centered@ == centered_dosages(
                                    records[i as int].calls@,
                                )
                                &&& scanner.window.anchor.scale == standardization_scale(
                                    records[i as int].calls@,
                                )
                                &&& updates@ == before + pairs_of_anchor(
                                    records,
                                    bins,
                                    threshold,
                                    i as int,
                                    j as int,
                                )
                                &&& j < n ==> records[j as int].position
                                    >= scanner.window.anchor_position
                                    + scanner.window.last_distance
                                &&& forall|b: int|
                                    0 <= b < scanner.window.cursor
                                        ==> #[trigger] bins.right_edges_in_bp[b]
                                        < scanner.window.last_distance
                            },
                            !scanning ==> {
                                &&& scanner.phase is AdvanceAnchor
                                &&& updates@ == before + pairs_of_anchor(
                                    records,
                                    bins,
                                    threshold,
                                    i as int,
                                    n as int,
                                )
                            },
                            stats.counts.len() == bins.nbins,
                            forall|b: int|
                                0 <= b < bins.nbins ==> #[trigger] stats.counts[b]
                                    == pairs_in_bin(updates@, b),
                            forall|k: int|
                                0 <= k < updates.len() ==> (#[trigger] updates[k]).bin
                                    < bins.nbins,
                        decreases
                                n - j + if scanning {
                                    1int
                                } else {
                                    0int
                                },
                    {
                        let ghost pre = scanner;
                        let ghost seen = updates@;
                        let ghost counts = stats.counts@;
                        let event: SourceEvent = if j < n {
                            SourceEvent::Record(&self.records[j])
                        } else {
                            SourceEvent::Exhausted
                        };
                        proof {
                            lemma_scanned_prefix(records, bins, threshold, i as int, j as int);
                            lemma_room_left(records, bins, threshold, updates@, stats);
                            if j < n {
                                let record = records[j as int];
                                assert(record.fits(self.sample_count as int));
                                let distance = pre.window.distance_to(record.position);
                                if record.position - pre.window.anchor_position <= bins.maximum {
                                    assert(bins.covers(distance));
                                }
                            }
                        }
                        match scanner.step(bins, parameters, &mut stats, event) {
                            Err(e) => {
                                return Err(e);
                            },
                            Ok(step) => {
                                match step.update {
                                    Some(update) => {
                                        updates.push(update);
                                    },
                                    None => {},
                                }
                                proof {
                                    assert(stats.counts@ == counts_after(counts, step.update));
                                    if step.update is Some {
                                        assert(updates@.drop_last() == seen);
                                        assert(updates@.last() == step.update->0);
                                        assert(step.update->0.bin < bins.nbins);
                                    }
                                    assert forall|b: int| 0 <= b < bins.nbins implies
                                        #[trigger] stats.counts[b] == pairs_in_bin(updates@, b) by {
                                        assert(counts[b] == pairs_in_bin(seen, b));
                                    }
                                    assert forall|k: int| 0 <= k < updates.len() implies (
                                    #[trigger] updates[k]).bin < bins.nbins by {
                                        if k < seen.len() {
                                            assert(updates[k] == seen[k]);
                                        }
                                    }
                                }
                                match step.request {
                                    ScanRequest::NextPartner => {
                                        proof {
                                            let record = records[j as int];
                                            let distance = pre.window.distance_to(record.position);
                                            assert(distance <= bins.maximum);
                                            assert(bins.in_window(distance));
                                            assert(bins.is_located(
                                                0,
                                                distance,
                                                scanner.window.cursor as int,
                                            ));
                                            bins.lemma_located_is_first(
                                                0,
                                                distance,
                                                scanner.window.cursor as int,
                                            );
                                            assert(!has_missing(record.calls@));
                                            if step.update is Some {
                                                assert(is_pair(
                                                    records,
                                                    bins,
                                                    threshold,
                                                    i as int,
                                                    j as int,
                                                ));
                                                assert(step.update->0 == update_of(
                                                    records,
                                                    bins,
                                                    i as int,
                                                    j as int,
                                                ));
                                            } else {
                                                assert(!is_pair(
                                                    records,
                                                    bins,
                                                    threshold,
                                                    i as int,
                                                    j as int,
                                                ));
                                            }
                                            assert(updates@ =~= before + pairs_of_anchor(
                                                records,
                                                bins,
                                                threshold,
                                                i as int,
                                                j + 1,
                                            ));
                                            if j + 1 < n {
                                                assert(records[j as int].position <= records[j
                                                    + 1].position);
                                            }
                                        }
                                        j += 1;
                                    },
                                    _ => {
                                        proof {
                                            assert(step.update is None);
                                            assert forall|k: int| j <= k < n implies !is_pair(
                                                records,
                                                bins,
                                                threshold,
                                                i as int,
                                                k,
                                            ) by {
                                                assert(records[j as int].position
                                                    <= records[k].position);
                                            }
                                            lemma_no_pairs(
                                                records,
                                                bins,
                                                threshold,
                                                i as int,
                                                j as int,
                                                n as int,
                                            );
                                        }
                                        scanning = false;
                                    },
                                }
                            },
                        }
                    }
                },
                _ => {
                    proof {
                        assert(is_filtered(records[i as int].calls@, threshold));
                        lemma_no_pairs(records, bins, threshold, i as int, i + 1, n as int);
                        assert(before + pairs_of_anchor(records, bins, threshold, i as int, n as int)
                            =~= before);
                    }
                },
            }
            i += 1;
        }
        proof {
            lemma_counts_sum_to_estimates(stats.counts@, updates@);
        }
        Ok(ScanReport { stats, updates })
    }
}

} // verus!
