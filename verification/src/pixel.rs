//! Single-pixel comparison: the tolerance-based predicate that the whole
//! template matcher is built on.

use vstd::prelude::*;

verus! {

/// One color sample: three 8-bit channels (red, green, blue).
#[derive(Clone, Copy, Debug, PartialEq, Eq, Structural)]
pub struct Pixel {
    pub r: u8,
    pub g: u8,
    pub b: u8,
}

/// Absolute difference between two channel values.
pub open spec fn channel_diff(a: u8, b: u8) -> int {
    if a >= b {
        a - b
    } else {
        b - a
    }
}

/// Two pixels match when every pair of corresponding channels differs by at
/// most `tolerance`. The tolerance is an integer threshold in channel units:
/// 0 demands exact equality, 255 accepts any pair of pixels. A normalized
/// looseness fraction in [0.0, 1.0] corresponds to the threshold
/// floor(looseness * 255).
pub open spec fn pixels_match(p1: Pixel, p2: Pixel, tolerance: u8) -> bool {
    &&& channel_diff(p1.r, p2.r) <= tolerance
    &&& channel_diff(p1.g, p2.g) <= tolerance
    &&& channel_diff(p1.b, p2.b) <= tolerance
}

/// Absolute difference of two channel values, computed without underflow.
fn abs_diff(a: u8, b: u8) -> (d: u8)
    ensures
        d == channel_diff(a, b),
{
    if a >= b {
        a - b
    } else {
        b - a
    }
}

/// Checks whether two pixels are similar enough to be considered a match:
/// every channel pair must differ by at most `tolerance`.
pub fn is_pixel_match(px1: Pixel, px2: Pixel, tolerance: u8) -> (r: bool)
    ensures
        r == pixels_match(px1, px2, tolerance),
{
    abs_diff(px1.r, px2.r) <= tolerance && abs_diff(px1.g, px2.g) <= tolerance && abs_diff(
        px1.b,
        px2.b,
    ) <= tolerance
}

/// Every pixel matches itself, at any tolerance.
pub proof fn lemma_pixels_match_identity(p: Pixel, tolerance: u8)
    ensures
        pixels_match(p, p, tolerance),
{
}

/// At the maximal tolerance of 255 any two pixels match, whatever their
/// channel values.
pub proof fn lemma_pixels_match_full_tolerance(p1: Pixel, p2: Pixel)
    ensures
        pixels_match(p1, p2, 255),
{
}

/// At tolerance 0 two pixels match exactly when they are channel-wise
/// identical.
pub proof fn lemma_pixels_match_exact(p1: Pixel, p2: Pixel)
    ensures
        pixels_match(p1, p2, 0) <==> p1 == p2,
{
}

/// Raising the tolerance never turns a matching pair of pixels into a
/// mismatch.
pub proof fn lemma_pixels_match_monotonic(p1: Pixel, p2: Pixel, t1: u8, t2: u8)
    requires
        t1 <= t2,
        pixels_match(p1, p2, t1),
    ensures
        pixels_match(p1, p2, t2),
{
}

} // verus!
