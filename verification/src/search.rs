//! The windowed search: scan every valid offset of the source image in
//! row-major order for the first region that matches the target within the
//! tolerance.

use vstd::prelude::*;

use crate::image::{images_match, Image};
use crate::image::is_image_match;
use crate::pixel::{pixels_match, lemma_pixels_match_monotonic};
use crate::pixel::is_pixel_match;

verus! {

/// (x, y) is a valid top-left offset for the target inside the source. The
/// upper bounds are exclusive of the flush-right and flush-bottom positions:
/// a target as wide or as tall as the source has no valid offset at all.
pub open spec fn valid_offset(source: Image, target: Image, x: int, y: int) -> bool {
    &&& 0 <= x < source.spec_width() - target.spec_width()
    &&& 0 <= y < source.spec_height() - target.spec_height()
}

/// The target matches the source region whose top-left corner lies at
/// (x, y): every target pixel matches the source pixel it is laid over.
pub open spec fn region_matches(source: Image, target: Image, x: int, y: int, tolerance: u8) -> bool {
    forall|dx: int, dy: int|
        0 <= dx < target.spec_width() && 0 <= dy < target.spec_height() ==> pixels_match(
            source.spec_pixel(x + dx, y + dy),
            #[trigger] target.spec_pixel(dx, dy),
            tolerance,
        )
}

/// (x1, y1) comes before (x2, y2) in row-major scan order: top-to-bottom,
/// then left-to-right.
pub open spec fn scan_precedes(x1: int, y1: int, x2: int, y2: int) -> bool {
    y1 < y2 || (y1 == y2 && x1 < x2)
}

/// Finds the target image in the source image, returning the coordinates of
/// the top-left corner of the first matching region in row-major scan order,
/// or `None` when no region within the valid offset range matches.
///
/// Each candidate offset is first screened by comparing the single source
/// pixel there against the target's top-left pixel; only when that anchor
/// pixel matches is the full region cropped out and compared. The anchor
/// check never rejects a true match, so it does not show in the contract.
#[verifier::loop_isolation(false)]
pub fn find_target(source: &Image, target: &Image, tolerance: u8) -> (r: Option<(u32, u32)>)
    requires
        source.wf(),
        target.wf(),
        target.spec_width() >= 1,
        target.spec_height() >= 1,
    ensures
        r is Some ==> valid_offset(*source, *target, r.unwrap().0 as int, r.unwrap().1 as int)
            && region_matches(
            *source,
            *target,
            r.unwrap().0 as int,
            r.unwrap().1 as int,
            tolerance,
        ),
        r is Some ==> forall|x: int, y: int|
            valid_offset(*source, *target, x, y) && scan_precedes(
                x,
                y,
                r.unwrap().0 as int,
                r.unwrap().1 as int,
            ) ==> !region_matches(*source, *target, x, y, tolerance),
        r is None ==> forall|x: int, y: int|
            valid_offset(*source, *target, x, y) ==> !region_matches(
                *source,
                *target,
                x,
                y,
                tolerance,
            ),
{
    let sw = source.width();
    let sh = source.height();
    let tw = target.width();
    let th = target.height();
    if tw >= sw || th >= sh {
        return None;
    }
    let x_end = sw - tw;
    let y_end = sh - th;
    let anchor = target.get_pixel(0, 0);
    let mut y: u32 = 0;
    while y < y_end
        invariant
            y <= y_end,
            forall|xx: int, yy: int|
                0 <= xx < x_end && 0 <= yy < y ==> !region_matches(
                    *source,
                    *target,
                    xx,
                    yy,
                    tolerance,
                ),
        decreases y_end - y,
    {
        let mut x: u32 = 0;
        while x < x_end
            invariant
                x <= x_end,
                forall|xx: int, yy: int|
                    0 <= xx < x_end && 0 <= yy < y ==> !region_matches(
                        *source,
                        *target,
                        xx,
                        yy,
                        tolerance,
                    ),
                forall|xx: int|
                    0 <= xx < x ==> !region_matches(*source, *target, xx, y as int, tolerance),
            decreases x_end - x,
        {
            let current = source.get_pixel(x, y);
            if is_pixel_match(current, anchor, tolerance) {
                let region = source.crop(x, y, tw, th);
                if is_image_match(&region, target, tolerance) {
                    proof {
                        assert forall|dx: int, dy: int|
                            0 <= dx < target.spec_width() && 0 <= dy
                                < target.spec_height() implies pixels_match(
                            source.spec_pixel(x + dx, y + dy),
                            #[trigger] target.spec_pixel(dx, dy),
                            tolerance,
                        ) by {
                            assert(pixels_match(
                                region.spec_pixel(dx, dy),
                                target.spec_pixel(dx, dy),
                                tolerance,
                            ));
                            assert(region.spec_pixel(dx, dy) == source.spec_pixel(x + dx, y + dy));
                        }
                    }
                    return Some((x, y));
                }
                proof {
                    if region_matches(*source, *target, x as int, y as int, tolerance) {
                        assert forall|dx: int, dy: int|
                            0 <= dx < region.spec_width() && 0 <= dy
                                < region.spec_height() implies #[trigger] pixels_match(
                            region.spec_pixel(dx, dy),
                            target.spec_pixel(dx, dy),
                            tolerance,
                        ) by {
                            assert(region.spec_pixel(dx, dy) == source.spec_pixel(x + dx, y + dy));
                            assert(pixels_match(
                                source.spec_pixel(x + dx, y + dy),
                                target.spec_pixel(dx, dy),
                                tolerance,
                            ));
                        }
                        assert(images_match(region, *target, tolerance));
                        assert(false);
                    }
                }
            } else {
                proof {
                    if region_matches(*source, *target, x as int, y as int, tolerance) {
                        assert(pixels_match(
                            source.spec_pixel(x + 0, y + 0),
                            target.spec_pixel(0, 0),
                            tolerance,
                        ));
                        assert(false);
                    }
                }
            }
            x = x + 1;
        }
        y = y + 1;
    }
    None
}

/// When the target's width or height equals (or exceeds) the source's, the
/// valid offset range is empty: no position can ever be reported, even for
/// pixel-identical images.
pub proof fn lemma_equal_dims_leave_no_offset(source: Image, target: Image)
    requires
        target.spec_width() >= source.spec_width() || target.spec_height() >= source.spec_height(),
    ensures
        forall|x: int, y: int| !valid_offset(source, target, x, y),
{
}

/// Raising the tolerance never loses a match: every offset whose region
/// matches at tolerance `t1` still matches at any tolerance `t2 >= t1`, so
/// the set of matching offsets grows monotonically with the tolerance.
pub proof fn lemma_region_matches_monotonic(
    source: Image,
    target: Image,
    x: int,
    y: int,
    t1: u8,
    t2: u8,
)
    requires
        t1 <= t2,
        region_matches(source, target, x, y, t1),
    ensures
        region_matches(source, target, x, y, t2),
{
    assert forall|dx: int, dy: int|
        0 <= dx < target.spec_width() && 0 <= dy < target.spec_height() implies pixels_match(
        source.spec_pixel(x + dx, y + dy),
        #[trigger] target.spec_pixel(dx, dy),
        t2,
    ) by {
        assert(pixels_match(source.spec_pixel(x + dx, y + dy), target.spec_pixel(dx, dy), t1));
        lemma_pixels_match_monotonic(
            source.spec_pixel(x + dx, y + dy),
            target.spec_pixel(dx, dy),
            t1,
            t2,
        );
    }
}

} // verus!
