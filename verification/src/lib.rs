//! Classification-and-copy pipeline for large raster images.
//!
//! The crate walks over a stream of candidate files (fed in by a caller),
//! classifies each image by orientation and reduced aspect ratio, and plans
//! collision-safe copies into a destination tree. The caller performs the
//! actual filesystem work and reports the outcomes back.

pub mod ratio;
pub mod classify;
pub mod naming;
pub mod stats;
pub mod copying;
pub mod scan;
