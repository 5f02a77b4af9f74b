//! Pairing an anchor site with the sites in its distance window, and the exhaustive scan.
//!
//! A scan does not read the genotype source itself. It is a state machine: it is told what
//! the source delivered, decides what that means for the statistics, and answers with the
//! next read for the caller to perform. The anchor cursor and the partner cursor of the
//! source are two readers that the caller owns.

use crate::bins::Bins;
use crate::bins::MAX_POSITION;
use crate::genotype::centered_dosages;
use crate::genotype::has_missing;
use crate::genotype::is_filtered;
use crate::genotype::standardization_scale;
use crate::genotype::standardize_genotypes;
use crate::genotype::DiploidCall;
use crate::genotype::GenotypeRecord;
use crate::genotype::Standardization;
use crate::genotype::StandardizedGenotypes;
use crate::genotype::MAX_SAMPLES;
use crate::ld::ld_denominator;
use crate::ld::ld_numerator;
use crate::ld::linkage_disequilibrium;
use crate::ld::LdEstimate;
use crate::params::HyperParameters;
use crate::ratio::Ratio;
use crate::stats::SufficientSummaryStats;
use vstd::prelude::*;

verus! {

/// One pair estimate and the bin that receives it.
#[derive(Clone, Copy, Debug, PartialEq, Eq, Structural)]
pub struct PairUpdate {
    pub bin: usize,
    pub estimate: LdEstimate,
}

/// Why a scan cannot go on.
#[derive(Clone, Copy, Debug, PartialEq, Eq, Structural)]
pub enum ScanError {
    /// A record that the scan had to standardize has a call with a missing allele.
    MissingGenotype,
}

/// What a read of the genotype source delivered.
#[derive(Clone, Copy, Debug)]
pub enum SourceEvent<'a> {
    /// The next record in ascending order of position.
    Record(&'a GenotypeRecord),
    /// No record is left where the reader stands.
    Exhausted,
}

/// The estimate for a standardized anchor and the calls of a partner over all samples.
pub open spec fn pair_estimate(centered: Seq<i64>, scale: int, calls: Seq<DiploidCall>) -> LdEstimate {
    LdEstimate {
        numerator: ld_numerator(centered, centered_dosages(calls), calls.len()) as i128,
        denominator: ld_denominator(scale, standardization_scale(calls), calls.len()) as u128,
    }
}

/// What pairing an anchor with a partner that lies in bin `bin` yields: an error for a
/// partner with a missing allele, nothing for a partner below the frequency threshold, and
/// otherwise the estimate for that bin.
pub open spec fn pair_outcome(
    anchor: StandardizedGenotypes,
    calls: Seq<DiploidCall>,
    threshold: Ratio,
    bin: usize,
) -> Result<Option<PairUpdate>, ScanError> {
    if has_missing(calls) {
        Err(ScanError::MissingGenotype)
    } else if is_filtered(calls, threshold) {
        Ok(None)
    } else {
        Ok(
            Some(
                PairUpdate {
                    bin,
                    estimate: pair_estimate(anchor.centered@, anchor.scale as int, calls),
                },
            ),
        )
    }
}

/// The pair counts after an update: one more in the bin of the update, if there is one.
pub open spec fn counts_after(counts: Seq<u32>, update: Option<PairUpdate>) -> Seq<u32> {
    match update {
        Some(u) => counts.update(u.bin as int, (counts[u.bin as int] + 1) as u32),
        None => counts,
    }
}

/// An anchor site and the progress of the search among its partners.
#[derive(Clone, Debug)]
pub struct Window {
    pub anchor_position: u64,
    pub anchor: StandardizedGenotypes,
    /// The bin of the last partner, from which the search for the next one starts.
    pub cursor: usize,
    /// The distance of the last partner; the lower end of the window before the first.
    pub last_distance: u64,
}

impl Window {
    /// The anchor can be paired, and the cursor is a bin that does not begin beyond the
    /// last distance.
    pub open spec fn wf(&self, bins: &Bins) -> bool {
        &&& bins.wf()
        &&& self.anchor.within_limits()
        &&& self.anchor_position <= MAX_POSITION
        &&& self.cursor < bins.nbins
        &&& bins.minimum <= self.last_distance
        &&& self.cursor > 0 ==> bins.left_edges_in_bp[self.cursor as int] <= self.last_distance
    }

    /// The distance from the anchor to a position.
    pub open spec fn distance_to(&self, position: u64) -> u64 {
        (position - self.anchor_position) as u64
    }

    /// The record may come next as a partner: it lies no nearer than the partner before
    /// it, inside the window, and in some bin.
    pub open spec fn admits(&self, bins: &Bins, partner: &GenotypeRecord) -> bool {
        &&& partner.fits(self.anchor.centered.len() as int)
        &&& partner.position >= self.anchor_position + self.last_distance
        &&& partner.position - self.anchor_position <= bins.maximum
        &&& bins.covers(self.distance_to(partner.position))
    }

    /// Opens the window of an anchor: no partner has been seen, and the search starts at
    /// the first bin.
    pub fn open(position: u64, anchor: StandardizedGenotypes, bins: &Bins) -> (window: Window)
        requires
            bins.wf(),
            anchor.within_limits(),
            position <= MAX_POSITION,
        ensures
            window.wf(bins),
            window.anchor_position == position,
            window.anchor == anchor,
            window.cursor == 0,
            window.last_distance == bins.minimum,
    {
        Window { anchor_position: position, anchor, cursor: 0, last_distance: bins.minimum }
    }

    /// Pairs the anchor with the next partner of its window: finds the bin of their
    /// distance, standardizes the partner and, where it passes the frequency filter,
    /// computes the estimate and counts it in that bin.
    pub fn pair(
        &mut self,
        bins: &Bins,
        parameters: &HyperParameters,
        stats: &mut SufficientSummaryStats,
        partner: &GenotypeRecord,
    ) -> (r: Result<Option<PairUpdate>, ScanError>)
        requires
            old(self).wf(bins),
            old(self).admits(bins, partner),
            parameters.maf_threshold.wf(),
            old(stats).has_room_everywhere(bins.nbins as int),
        ensures
            final(self).wf(bins),
            final(self).anchor_position == old(self).anchor_position,
            final(self).anchor == old(self).anchor,
            final(self).last_distance == old(self).distance_to(partner.position),
            bins.is_located(
                old(self).cursor as int,
                final(self).last_distance,
                final(self).cursor as int,
            ),
            r == pair_outcome(
                old(self).anchor,
                partner.calls@,
                parameters.maf_threshold,
                final(self).cursor,
            ),
            r is Err ==> final(stats).counts@ == old(stats).counts@,
            r matches Ok(update) ==> final(stats).counts@ == counts_after(
                old(stats).counts@,
                update,
            ),
    {
        let distance: u64 = partner.position - self.anchor_position;
        let bin: usize = bins.locate(distance, self.cursor);
        self.cursor = bin;
        self.last_distance = distance;
        match standardize_genotypes(partner, parameters) {
            Standardization::MissingGenotype => Err(ScanError::MissingGenotype),
            Standardization::Filtered => Ok(None),
            Standardization::Standardized(genotypes) => {
                proof {
                    genotypes.lemma_represents(partner.calls@);
                }
                let estimate: LdEstimate = linkage_disequilibrium(
                    &self.anchor,
                    &genotypes,
                    partner.calls.len(),
                );
                stats.record(bin);
                Ok(Some(PairUpdate { bin, estimate }))
            },
        }
    }
}

/// Where an exhaustive scan stands.
#[derive(Clone, Copy, Debug, PartialEq, Eq, Structural)]
pub enum ScanPhase {
    /// The next record of the anchor cursor is awaited.
    AdvanceAnchor,
    /// The next record of the partner cursor is awaited.
    ScanWindow,
    /// The anchor cursor has reached the end of the contig.
    Done,
}

/// The read that the caller is to perform next, and whose outcome the next step takes.
#[derive(Clone, Copy, Debug, PartialEq, Eq, Structural)]
pub enum ScanRequest {
    /// Read the next record with the anchor cursor.
    NextAnchor,
    /// Place the partner cursor on the first record at or after `position`, and read it.
    SeekPartner { position: u64 },
    /// Read the next record with the partner cursor.
    NextPartner,
    /// Nothing: the scan is complete.
    Finished,
}

/// What one step of a scan decided.
#[derive(Clone, Copy, Debug, PartialEq, Eq, Structural)]
pub struct ScanStep {
    /// The pair estimate that the step added to the statistics, if it added one.
    pub update: Option<PairUpdate>,
    pub request: ScanRequest,
}

/// The scan that takes every record of the contig as an anchor, in ascending order, and
/// pairs it with every record of its distance window.
#[derive(Clone, Debug)]
pub struct ExhaustiveScanner {
    pub phase: ScanPhase,
    pub sample_count: usize,
    /// The current anchor and its window; of no meaning outside the phase `ScanWindow`.
    pub window: Window,
}

impl ExhaustiveScanner {
    /// The scanner fits the bins: while a window is scanned, its anchor has one entry per
    /// sample and its cursor is a bin.
    pub open spec fn wf(&self, bins: &Bins) -> bool {
        &&& bins.wf()
        &&& self.sample_count <= MAX_SAMPLES
        &&& self.phase is ScanWindow ==> {
            &&& self.window.wf(bins)
            &&& self.window.anchor.centered.len() == self.sample_count
        }
    }

    /// The event is one that the source can deliver in this phase. A scan that is done
    /// expects none. An anchor has to fit the sample count. A partner has to fit it too and
    /// to lie no nearer than the partner before it, the first one no nearer than the lower
    /// end of the window; and where it lies inside the window, it has to lie in some bin.
    pub open spec fn expects(&self, bins: &Bins, event: SourceEvent) -> bool {
        match (self.phase, event) {
            (ScanPhase::Done, _) => false,
            (_, SourceEvent::Exhausted) => true,
            (ScanPhase::AdvanceAnchor, SourceEvent::Record(record)) => record.fits(
                self.sample_count as int,
            ),
            (ScanPhase::ScanWindow, SourceEvent::Record(record)) => {
                &&& record.fits(self.sample_count as int)
                &&& record.position >= self.window.anchor_position + self.window.last_distance
                &&& record.position - self.window.anchor_position <= bins.maximum
                    ==> bins.covers(self.window.distance_to(record.position))
            },
        }
    }

    /// What a step does with an anchor: a record with a missing allele ends the scan with
    /// an error, one below the frequency threshold is passed over, and any other becomes
    /// the anchor of a new window, whose partners start at the lower end of the window.
    pub open spec fn anchor_transition(
        bins: &Bins,
        threshold: Ratio,
        record: &GenotypeRecord,
        post: ExhaustiveScanner,
        r: Result<ScanStep, ScanError>,
    ) -> bool {
        if has_missing(record.calls@) {
            r == Err::<ScanStep, ScanError>(ScanError::MissingGenotype)
        } else if is_filtered(record.calls@, threshold) {
            &&& r == Ok::<ScanStep, ScanError>(
                ScanStep { update: None, request: ScanRequest::NextAnchor },
            )
            &&& post.phase is AdvanceAnchor
        } else {
            &&& r == Ok::<ScanStep, ScanError>(
                ScanStep {
                    update: None,
                    request: ScanRequest::SeekPartner {
                        position: (record.position + bins.minimum) as u64,
                    },
                },
            )
            &&& post.phase is ScanWindow
            &&& post.window.anchor.represents(record.calls@)
            &&& post.window.anchor_position == record.position
            &&& post.window.cursor == 0
            &&& post.window.last_distance == bins.minimum
        }
    }

    /// What a step does with a partner inside the window: the cursor moves to the bin of
    /// the distance, and the step fails, passes the partner over or adds its estimate as
    /// `pair_outcome` says. The anchor stays, and the next partner is asked for.
    pub open spec fn partner_transition(
        pre: ExhaustiveScanner,
        bins: &Bins,
        threshold: Ratio,
        record: &GenotypeRecord,
        post: ExhaustiveScanner,
        r: Result<ScanStep, ScanError>,
    ) -> bool {
        let outcome = pair_outcome(pre.window.anchor, record.calls@, threshold, post.window.cursor);
        &&& post.window.anchor == pre.window.anchor
        &&& post.window.anchor_position == pre.window.anchor_position
        &&& post.window.last_distance == pre.window.distance_to(record.position)
        &&& bins.is_located(
            pre.window.cursor as int,
            post.window.last_distance,
            post.window.cursor as int,
        )
        &&& match outcome {
            Err(e) => r == Err::<ScanStep, ScanError>(e),
            Ok(update) => {
                &&& r == Ok::<ScanStep, ScanError>(
                    ScanStep { update, request: ScanRequest::NextPartner },
                )
                &&& post.phase is ScanWindow
            },
        }
    }

    /// An estimate comes only from a partner at a distance inside the window, and goes to
    /// the bin in which that distance lies.
    pub open spec fn update_in_window(
        pre: ExhaustiveScanner,
        bins: &Bins,
        event: SourceEvent,
        update: Option<PairUpdate>,
    ) -> bool {
        match (update, event) {
            (None, _) => true,
            (Some(_), SourceEvent::Exhausted) => false,
            (Some(u), SourceEvent::Record(record)) => {
                &&& pre.phase is ScanWindow
                &&& bins.in_window(pre.window.distance_to(record.position))
                &&& bins.holds(u.bin as int, pre.window.distance_to(record.position))
            },
        }
    }

    /// The whole transition relation of the scan.
    pub open spec fn transition(
        pre: ExhaustiveScanner,
        bins: &Bins,
        threshold: Ratio,
        event: SourceEvent,
        post: ExhaustiveScanner,
        r: Result<ScanStep, ScanError>,
    ) -> bool {
        match (pre.phase, event) {
            (ScanPhase::Done, _) => true,
            (ScanPhase::AdvanceAnchor, SourceEvent::Exhausted) => {
                &&& r == Ok::<ScanStep, ScanError>(
                    ScanStep { update: None, request: ScanRequest::Finished },
                )
                &&& post.phase is Done
            },
            (ScanPhase::AdvanceAnchor, SourceEvent::Record(record)) => Self::anchor_transition(
                bins,
                threshold,
                record,
                post,
                r,
            ),
            (ScanPhase::ScanWindow, SourceEvent::Exhausted) => {
                &&& r == Ok::<ScanStep, ScanError>(
                    ScanStep { update: None, request: ScanRequest::NextAnchor },
                )
                &&& post.phase is AdvanceAnchor
            },
            (ScanPhase::ScanWindow, SourceEvent::Record(record)) => {
                if record.position - pre.window.anchor_position > bins.maximum {
                    &&& r == Ok::<ScanStep, ScanError>(
                        ScanStep { update: None, request: ScanRequest::NextAnchor },
                    )
                    &&& post.phase is AdvanceAnchor
                } else {
                    Self::partner_transition(pre, bins, threshold, record, post, r)
                }
            },
        }
    }

    /// A scan over records of `sample_count` samples, before its first anchor. The first
    /// read that it asks for is `NextAnchor`.
    pub fn new(sample_count: usize) -> (scanner: ExhaustiveScanner)
        requires
            sample_count <= MAX_SAMPLES,
        ensures
            scanner.phase is AdvanceAnchor,
            scanner.sample_count == sample_count,
            forall|bins: &Bins| bins.wf() ==> scanner.wf(bins),
    {
        ExhaustiveScanner {
            phase: ScanPhase::AdvanceAnchor,
            sample_count,
            window: Window {
                anchor_position: 0,
                anchor: StandardizedGenotypes { centered: Vec::new(), scale: 0 },
                cursor: 0,
                last_distance: 0,
            },
        }
    }

    /// Takes what the last read delivered and decides how the scan goes on.
    ///
    /// Only a pair of two records that both pass the frequency filter, at a distance inside
    /// the window, adds an estimate; the statistics change in no other step.
    pub fn step(
        &mut self,
        bins: &Bins,
        parameters: &HyperParameters,
        stats: &mut SufficientSummaryStats,
        event: SourceEvent,
    ) -> (r: Result<ScanStep, ScanError>)
        requires
            old(self).wf(bins),
            old(self).expects(bins, event),
            parameters.maf_threshold.wf(),
            old(stats).has_room_everywhere(bins.nbins as int),
        ensures
            final(self).wf(bins),
            final(self).sample_count == old(self).sample_count,
            Self::transition(*old(self), bins, parameters.maf_threshold, event, *final(self), r),
            r is Err ==> final(stats).counts@ == old(stats).counts@,
            r matches Ok(s) ==> final(stats).counts@ == counts_after(old(stats).counts@, s.update),
            r matches Ok(s) ==> Self::update_in_window(*old(self), bins, event, s.update),
    {
        match event {
            SourceEvent::Exhausted => {
                match self.phase {
                    ScanPhase::AdvanceAnchor => {
                        self.phase = ScanPhase::Done;
                        Ok(ScanStep { update: None, request: ScanRequest::Finished })
                    },
                    _ => {
                        self.phase = ScanPhase::AdvanceAnchor;
                        Ok(ScanStep { update: None, request: ScanRequest::NextAnchor })
                    },
                }
            },
            SourceEvent::Record(record) => {
                match self.phase {
                    ScanPhase::AdvanceAnchor => {
                        match standardize_genotypes(record, parameters) {
                            Standardization::MissingGenotype => Err(ScanError::MissingGenotype),
                            Standardization::Filtered => Ok(
                                ScanStep { update: None, request: ScanRequest::NextAnchor },
                            ),
                            Standardization::Standardized(genotypes) => {
                                self.window = Window::open(record.position, genotypes, bins);
                                self.phase = ScanPhase::ScanWindow;
                                Ok(
                                    ScanStep {
                                        update: None,
                                        request: ScanRequest::SeekPartner {
                                            position: record.position + bins.minimum,
                                        },
                                    },
                                )
                            },
                        }
                    },
                    _ => {
                        let distance: u64 = record.position - self.window.anchor_position;
                        if distance > bins.maximum {
                            self.phase = ScanPhase::AdvanceAnchor;
                            Ok(ScanStep { update: None, request: ScanRequest::NextAnchor })
                        } else {
                            match self.window.pair(bins, parameters, stats, record) {
                                Err(e) => Err(e),
                                Ok(update) => Ok(
                                    ScanStep { update, request: ScanRequest::NextPartner },
                                ),
                            }
                        }
                    },
                }
            },
        }
    }
}

} // verus!
