//! Tolerance-based template matching.
//!
//! The library locates a small reference image (the target) inside a larger
//! image (the source) by an exhaustive, row-major scan over every candidate
//! offset, and reports the top-left corner of the first region that matches
//! within a per-channel tolerance.

pub mod image;
pub mod pixel;
pub mod search;
