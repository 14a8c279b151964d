//! Stamp-based gradient noise: a reproducible boolean occupancy grid derived
//! from a seeded pseudo-random assignment of precomputed gradient stamps,
//! bilinearly blended and thresholded into a half-open band.
//!
//! The library carries the whole integer side of the generator — request
//! validation and sizing, the seeded assignment of a stamp to every coarse
//! cell, per-pixel sample addressing, thresholding over total-order keys,
//! cropping and rendering — each with a proved contract.  The
//! single-precision gradient fields themselves are the caller's: the
//! sampler says exactly which four stamp entries each pixel blends, and the
//! thresholder turns the blended keys into the final mask.

pub mod cells;
pub mod finish;
pub mod plan;
pub mod sampling;
pub mod threshold;
