//! Linkage-disequilibrium decay by genetic distance, computed in exact integer arithmetic.
//!
//! Genotype calls of one contig are standardized, marker pairs inside a bounded distance
//! window are assigned to genetic-distance bins, and each pair contributes one estimate of
//! squared correlation to its bin. Every quantity is held as an integer or as a fraction of
//! two integers, so that the stated results are exact.

pub mod bins;
pub mod contig;
pub mod genotype;
pub mod ld;
pub mod params;
pub mod ratio;
pub mod sampled;
pub mod scan;
pub mod source;
pub mod stats;
