use imagefind::pixel::is_pixel_match;
use imagefind::pixel::Pixel;

fn px(r: u8, g: u8, b: u8) -> Pixel {
    Pixel { r, g, b }
}

#[test]
fn pixel_matches_itself_at_any_tolerance() {
    let samples = [px(0, 0, 0), px(255, 255, 255), px(234, 30, 99), px(1, 128, 254)];
    for p in samples {
        assert!(is_pixel_match(p, p, 0));
        assert!(is_pixel_match(p, p, 1));
        assert!(is_pixel_match(p, p, 128));
        assert!(is_pixel_match(p, p, 255));
    }
}

#[test]
fn full_tolerance_accepts_any_pixels() {
    assert!(is_pixel_match(px(0, 0, 0), px(255, 255, 255), 255));
    assert!(is_pixel_match(px(255, 0, 255), px(0, 255, 0), 255));
    assert!(is_pixel_match(px(17, 93, 200), px(250, 4, 31), 255));
}

#[test]
fn zero_tolerance_is_exact_equality() {
    assert!(is_pixel_match(px(10, 20, 30), px(10, 20, 30), 0));
    assert!(!is_pixel_match(px(10, 20, 30), px(11, 20, 30), 0));
    assert!(!is_pixel_match(px(10, 20, 30), px(10, 19, 30), 0));
    assert!(!is_pixel_match(px(10, 20, 30), px(10, 20, 31), 0));
}

#[test]
fn tolerance_bounds_each_channel_difference() {
    // Differences are 5, 3, 0: the largest channel difference decides.
    let p1 = px(100, 50, 200);
    let p2 = px(105, 47, 200);
    assert!(!is_pixel_match(p1, p2, 4));
    assert!(is_pixel_match(p1, p2, 5));
    // The difference is absolute: order of the pixels does not matter.
    assert!(is_pixel_match(p2, p1, 5));
    assert!(!is_pixel_match(p2, p1, 4));
}
