//! The image model: a fixed-size 2D grid of pixels stored row-major, with
//! the whole-image comparison built on the single-pixel predicate.

use vstd::prelude::*;

use crate::pixel::{lemma_pixels_match_identity, lemma_pixels_match_monotonic, pixels_match, Pixel};
use crate::pixel::is_pixel_match;

verus! {

/// A 2D grid of pixels addressed by (x, y) with 0 <= x < width and
/// 0 <= y < height. The dimensions are fixed at construction and the pixel
/// data is stored row-major: row y occupies indices y * width .. (y + 1) * width.
#[derive(Debug)]
pub struct Image {
    width: u32,
    height: u32,
    pixels: Vec<Pixel>,
}

/// The entry of a row-major pixel buffer of row length `w` that stands for
/// grid position (ix, iy).
pub open spec fn row_major_entry(pixels: Seq<Pixel>, w: int, ix: int, iy: int) -> Pixel {
    pixels[iy * w + ix]
}

impl Image {
    /// The width fixed at construction.
    pub closed spec fn spec_width(self) -> u32 {
        self.width
    }

    /// The height fixed at construction.
    pub closed spec fn spec_height(self) -> u32 {
        self.height
    }

    /// The pixel stored at (x, y).
    pub closed spec fn spec_pixel(self, x: int, y: int) -> Pixel {
        self.pixels[y * self.width + x]
    }

    /// Well-formedness: the pixel buffer holds exactly one pixel per grid
    /// cell.
    pub closed spec fn wf(self) -> bool {
        self.pixels.len() == self.width * self.height
    }

    /// Builds an image from its dimensions and a row-major pixel buffer.
    /// Returns `None` exactly when the buffer's length does not equal
    /// width * height.
    pub fn new(width: u32, height: u32, pixels: Vec<Pixel>) -> (r: Option<Image>)
        ensures
            r is Some <==> pixels@.len() == width * height,
            r is Some ==> r.unwrap().wf(),
            r is Some ==> r.unwrap().spec_width() == width,
            r is Some ==> r.unwrap().spec_height() == height,
            r is Some ==> forall|x: int, y: int|
                0 <= x < width && 0 <= y < height ==> #[trigger] r.unwrap().spec_pixel(x, y)
                    == row_major_entry(pixels@, width as int, x, y),
    {
        proof {
            assert((width as int) * (height as int) < 0x1_0000_0000_0000_0000) by (nonlinear_arith)
                requires
                    width < 0x1_0000_0000,
                    height < 0x1_0000_0000,
            ;
        }
        if pixels.len() as u64 == (width as u64) * (height as u64) {
            Some(Image { width, height, pixels })
        } else {
            None
        }
    }

    /// The image's width.
    pub fn width(&self) -> (w: u32)
        ensures
            w == self.spec_width(),
    {
        self.width
    }

    /// The image's height.
    pub fn height(&self) -> (h: u32)
        ensures
            h == self.spec_height(),
    {
        self.height
    }

    /// Reads the pixel at (x, y).
    pub fn get_pixel(&self, x: u32, y: u32) -> (p: Pixel)
        requires
            self.wf(),
            x < self.spec_width(),
            y < self.spec_height(),
        ensures
            p == self.spec_pixel(x as int, y as int),
    {
        proof {
            assert(y * self.width + x < self.width * self.height) by (nonlinear_arith)
                requires
                    0 <= x < self.width,
                    0 <= y < self.height,
            ;
        }
        let idx: usize = (y as usize) * (self.width as usize) + (x as usize);
        self.pixels[idx]
    }

    /// Copies the w-by-h sub-region whose top-left corner lies at (x, y)
    /// into a new image.
    #[verifier::loop_isolation(false)]
    pub fn crop(&self, x: u32, y: u32, w: u32, h: u32) -> (r: Image)
        requires
            self.wf(),
            x + w <= self.spec_width(),
            y + h <= self.spec_height(),
        ensures
            r.wf(),
            r.spec_width() == w,
            r.spec_height() == h,
            forall|dx: int, dy: int|
                0 <= dx < w && 0 <= dy < h ==> #[trigger] r.spec_pixel(dx, dy) == self.spec_pixel(
                    x + dx,
                    y + dy,
                ),
    {
        let mut pixels: Vec<Pixel> = Vec::new();
        let mut dy: u32 = 0;
        while dy < h
            invariant
                dy <= h,
                pixels@.len() == dy * w,
                forall|ix: int, iy: int|
                    0 <= iy < dy && 0 <= ix < w ==> #[trigger] row_major_entry(
                        pixels@,
                        w as int,
                        ix,
                        iy,
                    ) == self.spec_pixel(x + ix, y + iy),
            decreases h - dy,
        {
            let mut dx: u32 = 0;
            while dx < w
                invariant
                    dx <= w,
                    pixels@.len() == dy * w + dx,
                    forall|ix: int, iy: int|
                        0 <= iy < dy && 0 <= ix < w ==> #[trigger] row_major_entry(
                            pixels@,
                            w as int,
                            ix,
                            iy,
                        ) == self.spec_pixel(x + ix, y + iy),
                    forall|ix: int|
                        0 <= ix < dx ==> #[trigger] row_major_entry(pixels@, w as int, ix, dy as int)
                            == self.spec_pixel(x + ix, y + dy),
                decreases w - dx,
            {
                let p = self.get_pixel(x + dx, y + dy);
                let ghost prev = pixels@;
                pixels.push(p);
                proof {
                    assert forall|ix: int, iy: int| 0 <= iy < dy && 0 <= ix < w implies #[trigger] row_major_entry(
                        pixels@,
                        w as int,
                        ix,
                        iy,
                    ) == self.spec_pixel(x + ix, y + iy) by {
                        assert(0 <= iy * w + ix < dy * w + dx) by (nonlinear_arith)
                            requires
                                0 <= iy < dy,
                                0 <= ix < w,
                                0 <= dx,
                        ;
                        assert(pixels@[iy * w + ix] == prev[iy * w + ix]);
                        assert(row_major_entry(prev, w as int, ix, iy) == self.spec_pixel(
                            x + ix,
                            y + iy,
                        ));
                    }
                    assert forall|ix: int| 0 <= ix < dx + 1 implies #[trigger] row_major_entry(
                        pixels@,
                        w as int,
                        ix,
                        dy as int,
                    ) == self.spec_pixel(x + ix, y + dy) by {
                        if ix < dx {
                            assert(pixels@[dy * w + ix] == prev[dy * w + ix]);
                            assert(row_major_entry(prev, w as int, ix, dy as int)
                                == self.spec_pixel(x + ix, y + dy));
                        } else {
                            assert(pixels@[dy * w + dx] == p);
                        }
                    }
                }
                dx = dx + 1;
            }
            proof {
                assert(pixels@.len() == dy * w + w);
                assert(dy * w + w == (dy + 1) * w) by (nonlinear_arith);
            }
            dy = dy + 1;
        }
        let ghost full = pixels@;
        let r = Image { width: w, height: h, pixels };
        proof {
            assert(full.len() == h * w);
            assert(h * w == w * h) by (nonlinear_arith);
            assert forall|dx: int, dy2: int| 0 <= dx < w && 0 <= dy2 < h implies #[trigger] r
                .spec_pixel(dx, dy2) == self.spec_pixel(x + dx, y + dy2) by {
                assert(row_major_entry(full, w as int, dx, dy2) == self.spec_pixel(x + dx, y + dy2));
            }
        }
        r
    }
}

/// Two images of the same dimensions match when every pair of corresponding
/// pixels matches at the given tolerance.
pub open spec fn images_match(img1: Image, img2: Image, tolerance: u8) -> bool {
    forall|x: int, y: int|
        0 <= x < img1.spec_width() && 0 <= y < img1.spec_height() ==> #[trigger] pixels_match(
            img1.spec_pixel(x, y),
            img2.spec_pixel(x, y),
            tolerance,
        )
}

/// Checks whether two equally-sized images are similar enough to be
/// considered a match: every pair of corresponding pixels must match at the
/// given tolerance. Scans row-major and stops at the first mismatch.
#[verifier::loop_isolation(false)]
pub fn is_image_match(img1: &Image, img2: &Image, tolerance: u8) -> (r: bool)
    requires
        img1.wf(),
        img2.wf(),
        img1.spec_width() == img2.spec_width(),
        img1.spec_height() == img2.spec_height(),
    ensures
        r == images_match(*img1, *img2, tolerance),
{
    let w = img1.width();
    let h = img1.height();
    let mut y: u32 = 0;
    while y < h
        invariant
            y <= h,
            forall|ix: int, iy: int|
                0 <= ix < w && 0 <= iy < y ==> #[trigger] pixels_match(
                    img1.spec_pixel(ix, iy),
                    img2.spec_pixel(ix, iy),
                    tolerance,
                ),
        decreases h - y,
    {
        let mut x: u32 = 0;
        while x < w
            invariant
                x <= w,
                forall|ix: int, iy: int|
                    0 <= ix < w && 0 <= iy < y ==> #[trigger] pixels_match(
                        img1.spec_pixel(ix, iy),
                        img2.spec_pixel(ix, iy),
                        tolerance,
                    ),
                forall|ix: int|
                    0 <= ix < x ==> #[trigger] pixels_match(
                        img1.spec_pixel(ix, y as int),
                        img2.spec_pixel(ix, y as int),
                        tolerance,
                    ),
            decreases w - x,
        {
            let p1 = img1.get_pixel(x, y);
            let p2 = img2.get_pixel(x, y);
            if !is_pixel_match(p1, p2, tolerance) {
                return false;
            }
            x = x + 1;
        }
        y = y + 1;
    }
    true
}

/// Every image matches itself, at any tolerance: the whole-image comparison
/// is reflexive.
pub proof fn lemma_images_match_identity(img: Image, tolerance: u8)
    ensures
        images_match(img, img, tolerance),
{
    assert forall|x: int, y: int|
        0 <= x < img.spec_width() && 0 <= y < img.spec_height() implies #[trigger] pixels_match(
        img.spec_pixel(x, y),
        img.spec_pixel(x, y),
        tolerance,
    ) by {
        lemma_pixels_match_identity(img.spec_pixel(x, y), tolerance);
    }
}

/// Raising the tolerance never turns a matching pair of images into a
/// mismatch.
pub proof fn lemma_images_match_monotonic(img1: Image, img2: Image, t1: u8, t2: u8)
    requires
        t1 <= t2,
        images_match(img1, img2, t1),
    ensures
        images_match(img1, img2, t2),
{
    assert forall|x: int, y: int|
        0 <= x < img1.spec_width() && 0 <= y < img1.spec_height() implies #[trigger] pixels_match(
        img1.spec_pixel(x, y),
        img2.spec_pixel(x, y),
        t2,
    ) by {
        assert(pixels_match(img1.spec_pixel(x, y), img2.spec_pixel(x, y), t1));
        lemma_pixels_match_monotonic(img1.spec_pixel(x, y), img2.spec_pixel(x, y), t1, t2);
    }
}

} // verus!
