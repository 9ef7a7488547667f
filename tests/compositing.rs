use image_stamper::blend::{blend_images, blend_value};
use image_stamper::pixel::PixelBuffer;
use image_stamper::placement::{compute_placement, FitPolicy, Placement};

fn solid(width: u32, height: u32, rgba: [u8; 4]) -> PixelBuffer {
    let mut pixels = Vec::new();
    for _ in 0..(width * height) {
        pixels.extend_from_slice(&rgba);
    }
    PixelBuffer::from_raw(width, height, pixels).unwrap()
}

fn pixel(buf: &PixelBuffer, x: u32, y: u32) -> [u8; 4] {
    let i = ((y * buf.width + x) * 4) as usize;
    [buf.pixels[i], buf.pixels[i + 1], buf.pixels[i + 2], buf.pixels[i + 3]]
}

#[test]
fn cover_scales_to_fill_and_centres() {
    let p = compute_placement(200, 200, 100, 50, FitPolicy::Cover);
    assert_eq!(p, Placement { scaled_w: 400, scaled_h: 200, offset_x: -100, offset_y: 0 });
}

#[test]
fn cover_covers_both_sides() {
    for &(cw, ch, sw, sh) in &[(300u32, 100u32, 7u32, 13u32), (1, 1, 1000, 3), (640, 480, 33, 33), (5, 999, 17, 2)] {
        let p = compute_placement(cw, ch, sw, sh, FitPolicy::Cover);
        assert!(p.scaled_w >= cw && p.scaled_h >= ch);
    }
}

#[test]
fn cover_offset_rounds_toward_zero() {
    let p = compute_placement(100, 10, 21, 2, FitPolicy::Cover);
    assert_eq!(p.scaled_w, 105);
    assert_eq!(p.scaled_h, 10);
    assert_eq!(p.offset_x, -2);
    assert_eq!(p.offset_y, 0);
}

#[test]
fn contain_keeps_margin() {
    let p = compute_placement(200, 200, 100, 50, FitPolicy::ContainWithPadding(10));
    assert_eq!(p, Placement { scaled_w: 180, scaled_h: 90, offset_x: 10, offset_y: 55 });
}

#[test]
fn contain_fits_inside_padding() {
    for &(cw, ch, sw, sh, pad) in &[(300u32, 100u32, 7u32, 13u32, 10u32), (640, 480, 33, 1, 0), (50, 70, 999, 5, 20)] {
        let p = compute_placement(cw, ch, sw, sh, FitPolicy::ContainWithPadding(pad));
        assert!(p.scaled_w <= cw - 2 * pad && p.scaled_h <= ch - 2 * pad);
        assert!(p.offset_x >= 0 && p.offset_y >= 0);
    }
}

#[test]
fn contain_on_canvas_smaller_than_margin() {
    let p = compute_placement(15, 15, 4, 4, FitPolicy::ContainWithPadding(10));
    assert_eq!(p, Placement { scaled_w: 0, scaled_h: 0, offset_x: 7, offset_y: 7 });
}

#[test]
fn blend_value_formula() {
    assert_eq!(blend_value(255, 255, 255, 50), 255);
    assert_eq!(blend_value(255, 0, 255, 50), 127);
    assert_eq!(blend_value(10, 200, 128, 100), 105);
    assert_eq!(blend_value(10, 200, 0, 100), 10);
}

#[test]
fn zero_opacity_leaves_base() {
    let mut base = solid(4, 3, [9, 80, 200, 77]);
    let before = base.pixels.clone();
    let overlay = solid(2, 2, [255, 0, 0, 255]);
    blend_images(&mut base, &overlay, 1, 1, 0);
    assert_eq!(base.pixels, before);
}

#[test]
fn full_opacity_opaque_overlay_replaces_colour() {
    let mut base = solid(4, 3, [9, 80, 200, 77]);
    let overlay = solid(2, 2, [255, 1, 2, 255]);
    blend_images(&mut base, &overlay, 1, 1, 100);
    assert_eq!(pixel(&base, 1, 1), [255, 1, 2, 77]);
    assert_eq!(pixel(&base, 2, 2), [255, 1, 2, 77]);
    assert_eq!(pixel(&base, 0, 0), [9, 80, 200, 77]);
    assert_eq!(pixel(&base, 3, 2), [9, 80, 200, 77]);
}

#[test]
fn overlay_outside_base_is_clipped() {
    let mut base = solid(3, 3, [0, 0, 0, 255]);
    let overlay = solid(3, 3, [200, 100, 50, 255]);
    blend_images(&mut base, &overlay, -2, 2, 100);
    assert_eq!(pixel(&base, 0, 2), [200, 100, 50, 255]);
    assert_eq!(pixel(&base, 1, 2), [0, 0, 0, 255]);
    assert_eq!(pixel(&base, 0, 1), [0, 0, 0, 255]);
    let mut far = solid(3, 3, [0, 0, 0, 255]);
    blend_images(&mut far, &overlay, 100, -100, 100);
    assert_eq!(far.pixels, solid(3, 3, [0, 0, 0, 255]).pixels);
}

#[test]
fn from_raw_checks_length() {
    assert!(PixelBuffer::from_raw(2, 2, vec![0; 16]).is_some());
    assert!(PixelBuffer::from_raw(2, 2, vec![0; 15]).is_none());
    assert!(PixelBuffer::from_raw(2, 2, vec![0; 17]).is_none());
}
