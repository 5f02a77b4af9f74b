//! The sampled scan: anchors drawn at random until every bin is precise enough.
//!
//! Like the exhaustive scan this is a state machine that is told what the source delivered
//! and answers with the next read. Positions are drawn by a ChaCha generator with eight
//! rounds, seeded once: a scan started again with the same seed on the same source asks for
//! the same reads. The scanner itself sets no bound on the number of anchors; a caller that
//! wants one counts the steps.

use crate::bins::Bins;
use crate::genotype::has_missing;
use crate::genotype::is_filtered;
use crate::genotype::standardize_genotypes;
use crate::genotype::GenotypeRecord;
use crate::genotype::Standardization;
use crate::genotype::StandardizedGenotypes;
use crate::genotype::MAX_SAMPLES;
use crate::params::HyperParameters;
use crate::ratio::Ratio;
use crate::scan::counts_after;
use crate::scan::pair_outcome;
use crate::scan::PairUpdate;
use crate::scan::ScanError;
use crate::scan::Window;
use crate::stats::bin_is_settled;
use crate::stats::has_enough_loci;
use crate::stats::SufficientSummaryStats;
use rand::distr::Distribution;
use rand::distr::Uniform;
use rand::SeedableRng;
use rand_chacha::ChaCha8Rng;
use vstd::prelude::*;

verus! {

#[verifier::external_type_specification]
#[verifier::external_body]
pub struct ExChaCha8Rng(ChaCha8Rng);

/// Makes the generator for a seed, by `SeedableRng::seed_from_u64` of rand_core as
/// `ChaCha8Rng` of rand_chacha implements it. Nothing is claimed of the generator.
#[verifier::external_body]
fn generator_from_seed(seed: u64) -> ChaCha8Rng {
    ChaCha8Rng::seed_from_u64(seed)
}

/// Draws a position from the uniform distribution over `0..contig_length`, by
/// `Uniform::try_from` and `Distribution::sample` of rand. Claimed: the position lies below
/// `contig_length`, as rand documents for the half-open range of an integer type. Which
/// position comes is not claimed. rand refuses an empty range, so the length must not be
/// zero.
#[verifier::external_body]
fn draw_position(generator: &mut ChaCha8Rng, contig_length: u64) -> (position: u64)
    requires
        contig_length > 0,
    ensures
        position < contig_length,
{
    Uniform::try_from(0..contig_length).unwrap().sample(generator)
}

/// Where a sampled scan stands.
#[derive(Clone, Copy, Debug, PartialEq, Eq, Structural)]
pub enum SampledPhase {
    /// Nothing has been asked for yet.
    Ready,
    /// The first record at or after a drawn position is awaited.
    AwaitAnchor,
    /// The next record of the anchor's window is awaited.
    ScanWindow,
    /// Every bin has enough loci, and the verdicts on the intervals are awaited.
    AwaitVerdicts,
    /// The stopping rule was satisfied.
    Done,
}

/// What the caller reports to a sampled scan.
#[derive(Clone, Copy, Debug)]
pub enum SampledEvent<'a> {
    /// The scan is to begin.
    Begin,
    /// The read delivered this record.
    Record(&'a GenotypeRecord),
    /// The read delivered nothing: no record is left where the reader stands.
    Exhausted,
    /// For each bin, whether the half width of the confidence interval of its mean is at
    /// most the tolerance.
    Verdicts(&'a Vec<bool>),
}

/// What the caller is to do next for a sampled scan.
#[derive(Clone, Copy, Debug, PartialEq, Eq, Structural)]
pub enum SampledRequest {
    /// Place the reader on the first record at or after `position`, and read it.
    SeekAnchor { position: u64 },
    /// Restrict the reader to the records from `first` to `last`, both included, and read
    /// the first of them.
    SeekWindow { first: u64, last: u64 },
    /// Read the next record of the window.
    NextPartner,
    /// Work out the verdicts on the confidence intervals and report them.
    Evaluate,
    /// Nothing: the scan is complete.
    Finished,
}

/// What one step of a sampled scan decided.
#[derive(Clone, Copy, Debug, PartialEq, Eq, Structural)]
pub struct SampledStep {
    /// The pair estimate that the step added to the statistics, if it added one.
    pub update: Option<PairUpdate>,
    pub request: SampledRequest,
}

/// The step asks for a new anchor at some position of the contig, and adds no estimate.
pub open spec fn asks_for_anchor(r: Result<SampledStep, ScanError>, contig_length: u64) -> bool {
    r matches Ok(step) && step.update is None && (step.request matches SampledRequest::SeekAnchor {
        position,
    } && position < contig_length)
}

/// The step asks for exactly this, and adds no estimate.
pub open spec fn asks_for(r: Result<SampledStep, ScanError>, request: SampledRequest) -> bool {
    r == Ok::<SampledStep, ScanError>(SampledStep { update: None, request })
}

/// The scan that draws anchors at random positions of the contig, pairs each with every
/// record of its distance window, and stops when the stopping rule is satisfied.
pub struct SampledScanner {
    pub phase: SampledPhase,
    pub sample_count: usize,
    pub contig_length: u64,
    /// The generator that draws the anchor positions.
    pub generator: ChaCha8Rng,
    /// The current anchor and its window; of no meaning outside the phase `ScanWindow`.
    pub window: Window,
}

impl SampledScanner {
    /// The scanner fits the bins and has positions to draw from: while a window is
    /// scanned, its anchor has one entry per sample and its cursor is a bin.
    pub open spec fn wf(&self, bins: &Bins) -> bool {
        &&& bins.wf()
        &&& self.sample_count <= MAX_SAMPLES
        &&& self.contig_length > 0
        &&& self.phase is ScanWindow ==> {
            &&& self.window.wf(bins)
            &&& self.window.anchor.centered.len() == self.sample_count
        }
    }

    /// The event is one that the caller can report in this phase: the beginning to a scan
    /// that is ready, a record or the lack of one to a scan that awaits one, verdicts for
    /// every bin to a scan that awaits them. A partner lies in the window that was asked for.
    pub open spec fn expects(&self, bins: &Bins, event: SampledEvent) -> bool {
        match (self.phase, event) {
            (SampledPhase::Ready, SampledEvent::Begin) => true,
            (SampledPhase::AwaitAnchor, SampledEvent::Exhausted) => true,
            (SampledPhase::AwaitAnchor, SampledEvent::Record(record)) => record.fits(
                self.sample_count as int,
            ),
            (SampledPhase::ScanWindow, SampledEvent::Exhausted) => true,
            (SampledPhase::ScanWindow, SampledEvent::Record(record)) => self.window.admits(
                bins,
                record,
            ),
            (SampledPhase::AwaitVerdicts, SampledEvent::Verdicts(verdicts)) => verdicts.len()
                == bins.nbins,
            _ => false,
        }
    }

    /// What a step does with a candidate anchor: a record with a missing allele ends the
    /// scan with an error, one below the frequency threshold makes the scan draw again, and
    /// any other becomes the anchor, whose whole window is asked for.
    pub open spec fn anchor_transition(
        pre: SampledScanner,
        bins: &Bins,
        threshold: Ratio,
        record: &GenotypeRecord,
        post: SampledScanner,
        r: Result<SampledStep, ScanError>,
    ) -> bool {
        if has_missing(record.calls@) {
            r == Err::<SampledStep, ScanError>(ScanError::MissingGenotype)
        } else if is_filtered(record.calls@, threshold) {
            asks_for_anchor(r, pre.contig_length) && post.phase is AwaitAnchor
        } else {
            &&& asks_for(
                r,
                SampledRequest::SeekWindow {
                    first: (record.position + bins.minimum) as u64,
                    last: (record.position + bins.maximum) as u64,
                },
            )
            &&& post.phase is ScanWindow
            &&& post.window.anchor.represents(record.calls@)
            &&& post.window.anchor_position == record.position
            &&& post.window.cursor == 0
            &&& post.window.last_distance == bins.minimum
        }
    }

    /// What a step does with a partner: the cursor moves to the bin of the distance, and
    /// the step fails, passes the partner over or adds its estimate as `pair_outcome` says.
    pub open spec fn partner_transition(
        pre: SampledScanner,
        bins: &Bins,
        threshold: Ratio,
        record: &GenotypeRecord,
        post: SampledScanner,
        r: Result<SampledStep, ScanError>,
    ) -> bool {
        let outcome = pair_outcome(pre.window.anchor, record.calls@, threshold, post.window.cursor);
        &&& post.window.anchor == pre.window.anchor
        &&& post.window.anchor_position == pre.window.anchor_position
        &&& post.window.last_distance == pre.window.distance_to(record.position)
        &&& bins.is_located(
            pre.window.cursor as int,
            post.window.last_distance,
            post.window.cursor as int,
        )
        &&& match outcome {
            Err(e) => r == Err::<SampledStep, ScanError>(e),
            Ok(update) => {
                &&& r == Ok::<SampledStep, ScanError>(
                    SampledStep { update, request: SampledRequest::NextPartner },
                )
                &&& post.phase is ScanWindow
            },
        }
    }

    /// The whole transition relation of the scan. `counts` are the pair counts before the
    /// step. At the end of a window the scan draws again while some bin has too few loci,
    /// and asks for the verdicts once every bin has enough. On the verdicts it finishes if
    /// every interval is within tolerance, and draws again if not.
    pub open spec fn transition(
        pre: SampledScanner,
        bins: &Bins,
        parameters: &HyperParameters,
        counts: Seq<u32>,
        event: SampledEvent,
        post: SampledScanner,
        r: Result<SampledStep, ScanError>,
    ) -> bool {
        match (pre.phase, event) {
            (SampledPhase::Ready, SampledEvent::Begin) => asks_for_anchor(r, pre.contig_length)
                && post.phase is AwaitAnchor,
            (SampledPhase::AwaitAnchor, SampledEvent::Exhausted) => asks_for_anchor(
                r,
                pre.contig_length,
            ) && post.phase is AwaitAnchor,
            (SampledPhase::AwaitAnchor, SampledEvent::Record(record)) => Self::anchor_transition(
                pre,
                bins,
                parameters.maf_threshold,
                record,
                post,
                r,
            ),
            (SampledPhase::ScanWindow, SampledEvent::Exhausted) => {
                if has_enough_loci(counts, parameters.min_loci_per_bin) {
                    asks_for(r, SampledRequest::Evaluate) && post.phase is AwaitVerdicts
                } else {
                    asks_for_anchor(r, pre.contig_length) && post.phase is AwaitAnchor
                }
            },
            (SampledPhase::ScanWindow, SampledEvent::Record(record)) => Self::partner_transition(
                pre,
                bins,
                parameters.maf_threshold,
                record,
                post,
                r,
            ),
            (SampledPhase::AwaitVerdicts, SampledEvent::Verdicts(verdicts)) => {
                if forall|bin: int|
                    0 <= bin < counts.len() ==> bin_is_settled(
                        counts,
                        verdicts@,
                        parameters.min_loci_per_bin,
                        bin,
                    ) {
                    asks_for(r, SampledRequest::Finished) && post.phase is Done
                } else {
                    asks_for_anchor(r, pre.contig_length) && post.phase is AwaitAnchor
                }
            },
            _ => true,
        }
    }

    /// A scan of a contig of the given length over records of `sample_count` samples,
    /// ready to begin; none for a contig without positions.
    pub fn new(seed: u64, contig_length: u64, sample_count: usize) -> (scanner: Option<
        SampledScanner,
    >)
        requires
            sample_count <= MAX_SAMPLES,
        ensures
            scanner is None <==> contig_length == 0,
            scanner matches Some(s) ==> {
                &&& s.phase is Ready
                &&& s.sample_count == sample_count
                &&& s.contig_length == contig_length
                &&& forall|bins: &Bins| bins.wf() ==> s.wf(bins)
            },
    {
        if contig_length == 0 {
            return None;
        }
        Some(
            SampledScanner {
                phase: SampledPhase::Ready,
                sample_count,
                contig_length,
                generator: generator_from_seed(seed),
                window: Window {
                    anchor_position: 0,
                    anchor: StandardizedGenotypes { centered: Vec::new(), scale: 0 },
                    cursor: 0,
                    last_distance: 0,
                },
            },
        )
    }

    /// Draws the position of the next anchor and asks for the record there.
    fn resample(&mut self) -> (r: Result<SampledStep, ScanError>)
        requires
            old(self).contig_length > 0,
        ensures
            asks_for_anchor(r, old(self).contig_length),
            final(self).phase is AwaitAnchor,
            final(self).sample_count == old(self).sample_count,
            final(self).contig_length == old(self).contig_length,
            final(self).window == old(self).window,
    {
        let position: u64 = draw_position(&mut self.generator, self.contig_length);
        self.phase = SampledPhase::AwaitAnchor;
        Ok(SampledStep { update: None, request: SampledRequest::SeekAnchor { position } })
    }

    /// Takes what the caller reports and decides how the scan goes on.
    ///
    /// The scan never finishes while some bin holds fewer than `min_loci_per_bin` pairs,
    /// whatever the verdicts on the intervals are.
    pub fn step(
        &mut self,
        bins: &Bins,
        parameters: &HyperParameters,
        stats: &mut SufficientSummaryStats,
        event: SampledEvent,
    ) -> (r: Result<SampledStep, ScanError>)
        requires
            old(self).wf(bins),
            old(self).expects(bins, event),
            parameters.maf_threshold.wf(),
            old(stats).has_room_everywhere(bins.nbins as int),
        ensures
            final(self).wf(bins),
            final(self).sample_count == old(self).sample_count,
            final(self).contig_length == old(self).contig_length,
            Self::transition(
                *old(self),
                bins,
                parameters,
                old(stats).counts@,
                event,
                *final(self),
                r,
            ),
            r is Err ==> final(stats).counts@ == old(stats).counts@,
            r matches Ok(s) ==> final(stats).counts@ == counts_after(old(stats).counts@, s.update),
            r matches Ok(s) ==> (s.request is Finished ==> has_enough_loci(
                old(stats).counts@,
                parameters.min_loci_per_bin,
            )),
    {
        match event {
            SampledEvent::Begin => self.resample(),
            SampledEvent::Exhausted => {
                match self.phase {
                    SampledPhase::ScanWindow => {
                        if stats.is_enough_loci(parameters) {
                            self.phase = SampledPhase::AwaitVerdicts;
                            Ok(SampledStep { update: None, request: SampledRequest::Evaluate })
                        } else {
                            self.resample()
                        }
                    },
                    _ => self.resample(),
                }
            },
            SampledEvent::Verdicts(verdicts) => {
                if stats.should_stop(parameters, verdicts) {
                    self.phase = SampledPhase::Done;
                    Ok(SampledStep { update: None, request: SampledRequest::Finished })
                } else {
                    self.resample()
                }
            },
            SampledEvent::Record(record) => {
                match self.phase {
                    SampledPhase::ScanWindow => {
                        match self.window.pair(bins, parameters, stats, record) {
                            Err(e) => Err(e),
                            Ok(update) => Ok(
                                SampledStep { update, request: SampledRequest::NextPartner },
                            ),
                        }
                    },
                    _ => {
                        match standardize_genotypes(record, parameters) {
                            Standardization::MissingGenotype => Err(ScanError::MissingGenotype),
                            Standardization::Filtered => self.resample(),
                            Standardization::Standardized(genotypes) => {
                                self.window = Window::open(record.position, genotypes, bins);
                                self.phase = SampledPhase::ScanWindow;
                                Ok(
                                    SampledStep {
                                        update: None,
                                        request: SampledRequest::SeekWindow {
                                            first: record.position + bins.minimum,
                                            last: record.position + bins.maximum,
                                        },
                                    },
                                )
                            },
                        }
                    },
                }
            },
        }
    }
}

} // verus!
