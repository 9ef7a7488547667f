use image::ImageEncoder;
use image_stamper::format::{format_from_lowered, parse_format, same_text, OutputFormat};
use image_stamper::pixel::PixelBuffer;
use image_stamper::text::{add_text_watermark, draw_fallback_text, glyph_origin};
use image_stamper::codec::{drop_alpha, encode_image};
use image_stamper::error::StampError;

fn solid(width: u32, height: u32, rgba: [u8; 4]) -> PixelBuffer {
    let mut pixels = Vec::new();
    for _ in 0..(width * height) {
        pixels.extend_from_slice(&rgba);
    }
    PixelBuffer::from_raw(width, height, pixels).unwrap()
}

fn row(buf: &PixelBuffer, y: u32) -> &[u8] {
    let start = (y * buf.width * 4) as usize;
    &buf.pixels[start..start + (buf.width * 4) as usize]
}

#[test]
fn format_names_in_any_case() {
    assert_eq!(parse_format("JPG", 80), Some(OutputFormat::Jpeg(80)));
    assert_eq!(parse_format("jpeg", 80), Some(OutputFormat::Jpeg(80)));
    assert_eq!(parse_format("WebP", 80), Some(OutputFormat::WebP));
    assert_eq!(parse_format("bogus", 80), None);
    assert_eq!(parse_format("", 80), None);
    assert_eq!(parse_format("jpg", 200), Some(OutputFormat::Jpeg(100)));
}

#[test]
fn lowered_names() {
    assert_eq!(format_from_lowered("webp", 1), Some(OutputFormat::WebP));
    assert_eq!(format_from_lowered("WEBP", 1), None);
    assert!(same_text("abc", "abc"));
    assert!(!same_text("abc", "abd"));
    assert!(!same_text("abc", "ab"));
}

#[test]
fn block_text_stays_in_bottom_band() {
    let mut img = solid(300, 100, [255, 255, 255, 255]);
    let before = img.pixels.clone();
    add_text_watermark(&mut img, "photo.jpg", &[]);
    for y in 0..(100 - 10 - 32) {
        assert_eq!(row(&img, y), &before[(y * 1200) as usize..((y + 1) * 1200) as usize]);
    }
    assert_ne!(img.pixels, before);
}

#[test]
fn block_text_exact_pixels() {
    let mut img = solid(300, 100, [255, 255, 255, 200]);
    draw_fallback_text(&mut img, "ab");
    // two 16-pixel cells centred: left edge (300 - 32) / 2 = 134, band top 100 - 42 = 58
    let at = |x: u32, y: u32| {
        let i = ((y * 300 + x) * 4) as usize;
        [img.pixels[i], img.pixels[i + 1], img.pixels[i + 2], img.pixels[i + 3]]
    };
    assert_eq!(at(136, 63), [189, 189, 189, 200]);
    assert_eq!(at(163, 84), [189, 189, 189, 200]);
    assert_eq!(at(135, 63), [255, 255, 255, 200]);
    assert_eq!(at(136, 62), [255, 255, 255, 200]);
    assert_eq!(at(136, 85), [255, 255, 255, 200]);
    assert_eq!(at(148, 70), [255, 255, 255, 200]);
    assert_eq!(at(150, 70), [255, 255, 255, 200]);
    assert_eq!(at(152, 70), [189, 189, 189, 200]);
    assert_eq!(at(166, 70), [255, 255, 255, 200]);
}

#[test]
fn block_text_wider_than_canvas_starts_at_margin() {
    let mut img = solid(40, 50, [0, 0, 0, 255]);
    draw_fallback_text(&mut img, "abcdefgh");
    let i = ((13 * 40 + 12) * 4) as usize;
    assert_eq!(&img.pixels[i..i + 4], &[62, 62, 62, 255]);
    let j = ((13 * 40 + 11) * 4) as usize;
    assert_eq!(&img.pixels[j..j + 4], &[0, 0, 0, 255]);
}

#[test]
fn empty_text_changes_nothing() {
    let mut img = solid(30, 60, [1, 2, 3, 4]);
    add_text_watermark(&mut img, "", &[]);
    assert_eq!(img.pixels, solid(30, 60, [1, 2, 3, 4]).pixels);
}

#[test]
fn tiny_canvas_text_is_clipped() {
    let mut img = solid(3, 2, [0, 0, 0, 255]);
    draw_fallback_text(&mut img, "x");
    assert_eq!(img.pixels, solid(3, 2, [0, 0, 0, 255]).pixels);
}

#[test]
fn glyph_text_position() {
    assert_eq!(glyph_origin(300, 100, 100, 30), Some((100, 58)));
    assert_eq!(glyph_origin(300, 100, 400, 30), Some((10, 58)));
    assert_eq!(glyph_origin(300, 42, 0, 0), Some((150, 0)));
    assert_eq!(glyph_origin(300, 41, 0, 0), None);
    assert_eq!(glyph_origin(300, 20, 281, 30), None);
    assert_eq!(glyph_origin(300, u32::MAX, 0, 0), None);
    assert_eq!(glyph_origin(300, 100, i32::MAX, 30), None);
    assert_eq!(glyph_origin(300, 100, i32::MAX - 10, 30), Some((10, 58)));
    assert_eq!(glyph_origin(300, 100, 10, i32::MAX - 58), Some((145, 58)));
    assert_eq!(glyph_origin(300, 100, 10, i32::MAX - 57), None);
}

#[test]
fn alpha_is_dropped_for_rgb() {
    let img = PixelBuffer::from_raw(2, 1, vec![1, 2, 3, 4, 5, 6, 7, 8]).unwrap();
    assert_eq!(drop_alpha(&img), vec![1, 2, 3, 5, 6, 7]);
}

#[test]
fn webp_round_trip_keeps_size() {
    let img = solid(37, 11, [10, 200, 30, 128]);
    let bytes = encode_image(&img, OutputFormat::WebP).unwrap();
    let back = image::load_from_memory(&bytes).unwrap().to_rgba8();
    assert_eq!((back.width(), back.height()), (37, 11));
    assert_eq!(back.into_raw(), img.pixels);
}

#[test]
fn jpeg_round_trip_keeps_size() {
    let img = solid(20, 9, [200, 10, 10, 0]);
    let bytes = encode_image(&img, OutputFormat::Jpeg(90)).unwrap();
    assert_eq!(&bytes[..2], &[0xFF, 0xD8]);
    let back = image::load_from_memory(&bytes).unwrap().to_rgba8();
    assert_eq!((back.width(), back.height()), (20, 9));
}

#[test]
fn jpeg_too_wide_is_an_encode_error() {
    let img = solid(70000, 1, [0, 0, 0, 255]);
    assert!(matches!(encode_image(&img, OutputFormat::Jpeg(75)), Err(StampError::Encode(_))));
}

#[test]
fn long_block_text_keeps_left_margin() {
    let mut img = solid(300, 100, [255, 255, 255, 255]);
    draw_fallback_text(&mut img, "abcdefghijklmnopqr");
    let at = |x: u32, y: u32| {
        let i = ((y * 300 + x) * 4) as usize;
        [img.pixels[i], img.pixels[i + 1], img.pixels[i + 2], img.pixels[i + 3]]
    };
    assert_eq!(at(12, 63), [189, 189, 189, 255]);
    assert_eq!(at(11, 63), [255, 255, 255, 255]);
    assert_eq!(at(8, 63), [255, 255, 255, 255]);
}

#[test]
fn webp_size_limits_are_encode_errors() {
    let wide = solid(16385, 1, [0, 0, 0, 255]);
    assert!(matches!(encode_image(&wide, OutputFormat::WebP), Err(StampError::Encode(_))));
    let edge = solid(16384, 1, [0, 0, 0, 255]);
    assert!(encode_image(&edge, OutputFormat::WebP).is_ok());
    let empty = PixelBuffer::from_raw(0, 5, Vec::new()).unwrap();
    assert!(matches!(encode_image(&empty, OutputFormat::WebP), Err(StampError::Encode(_))));
}

#[test]
fn jpeg_ignores_alpha() {
    let a = solid(8, 8, [10, 120, 240, 255]);
    let b = solid(8, 8, [10, 120, 240, 3]);
    assert_eq!(encode_image(&a, OutputFormat::Jpeg(80)).unwrap(), encode_image(&b, OutputFormat::Jpeg(80)).unwrap());
}

#[test]
fn encode_error_carries_the_encoder_message() {
    let mut sink = Vec::new();
    let expected = image::codecs::webp::WebPEncoder::new_lossless(&mut sink)
        .write_image(&[], 0, 5, image::ColorType::Rgba8)
        .unwrap_err()
        .to_string();
    let empty = PixelBuffer::from_raw(0, 5, Vec::new()).unwrap();
    assert_eq!(encode_image(&empty, OutputFormat::WebP), Err(StampError::Encode(expected)));
}
