use image_stamper::error::StampError;
use image_stamper::format::OutputFormat;
use image_stamper::placement::FitPolicy;
use image_stamper::stamper::ImageStamper;
use std::io::Cursor;

fn png(width: u32, height: u32, rgba: [u8; 4]) -> Vec<u8> {
    let img = image::RgbaImage::from_pixel(width, height, image::Rgba(rgba));
    let mut out = Cursor::new(Vec::new());
    img.write_to(&mut out, image::ImageOutputFormat::Png).unwrap();
    out.into_inner()
}

fn jpeg(width: u32, height: u32, rgb: [u8; 3]) -> Vec<u8> {
    let img = image::RgbImage::from_pixel(width, height, image::Rgb(rgb));
    let mut out = Cursor::new(Vec::new());
    img.write_to(&mut out, image::ImageOutputFormat::Jpeg(95)).unwrap();
    out.into_inner()
}

fn red_stamper() -> ImageStamper {
    let mut s = ImageStamper::new();
    s.set_stamp(&png(100, 50, [255, 0, 0, 255])).unwrap();
    s
}

fn near(a: u8, b: u8, tol: u8) -> bool {
    (a as i32 - b as i32).abs() <= tol as i32
}

#[test]
fn new_stamper_is_not_set() {
    assert!(!ImageStamper::new().is_set());
}

#[test]
fn malformed_stamp_is_refused() {
    let mut s = ImageStamper::new();
    assert!(matches!(s.set_stamp(&[1, 2, 3, 4]), Err(StampError::Decode(_))));
    assert!(!s.is_set());
}

#[test]
fn malformed_stamp_keeps_previous_one() {
    let mut s = red_stamper();
    assert!(matches!(s.set_stamp(b"not an image"), Err(StampError::Decode(_))));
    assert!(s.is_set());
    let out = s.apply_with(&jpeg(200, 200, [255, 255, 255]), OutputFormat::WebP, "", 100, FitPolicy::Cover).unwrap();
    let back = image::load_from_memory(&out).unwrap().to_rgba8();
    let p = back.get_pixel(100, 100);
    assert!(p[0] >= 250 && p[1] <= 5 && p[2] <= 5);
}

#[test]
fn unset_stamper_always_refuses() {
    let s = ImageStamper::new();
    let img = jpeg(10, 10, [0, 0, 0]);
    assert_eq!(s.apply_stamp(&img), Err(StampError::StampNotSet));
    assert_eq!(s.apply_stamp_with_quality(&img, 10), Err(StampError::StampNotSet));
    assert_eq!(s.apply_stamp_with_options(&img, 75, "bogus"), Err(StampError::StampNotSet));
    assert_eq!(s.apply_stamp_with_options_and_text(&img, 75, "webp", "a.png"), Err(StampError::StampNotSet));
    assert_eq!(s.apply_stamp_with_options_text_and_opacity(&[], 75, "jpg", "", 50), Err(StampError::StampNotSet));
    assert_eq!(s.apply_with(&img, OutputFormat::WebP, "", 50, FitPolicy::Cover), Err(StampError::StampNotSet));
}

#[test]
fn cover_blend_of_red_on_white() {
    let s = red_stamper();
    let out = s.apply_with(&jpeg(200, 200, [255, 255, 255]), OutputFormat::WebP, "", 50, FitPolicy::Cover).unwrap();
    let back = image::load_from_memory(&out).unwrap().to_rgba8();
    assert_eq!((back.width(), back.height()), (200, 200));
    for &(x, y) in &[(100u32, 100u32), (0, 0), (199, 199), (50, 150)] {
        let p = back.get_pixel(x, y);
        assert!(near(p[0], 255, 2) && near(p[1], 128, 2) && near(p[2], 128, 2), "{:?}", p);
    }
}

#[test]
fn default_apply_keeps_size_and_margin() {
    let s = red_stamper();
    let out = s.apply_stamp(&jpeg(200, 200, [255, 255, 255])).unwrap();
    assert_eq!(&out[..2], &[0xFF, 0xD8]);
    let back = image::load_from_memory(&out).unwrap().to_rgba8();
    assert_eq!((back.width(), back.height()), (200, 200));
    let centre = back.get_pixel(100, 100);
    assert!(near(centre[0], 255, 6) && near(centre[1], 128, 6) && near(centre[2], 128, 6), "{:?}", centre);
    let corner = back.get_pixel(2, 2);
    assert!(corner[0] >= 245 && corner[1] >= 245 && corner[2] >= 245, "{:?}", corner);
}

#[test]
fn contained_stamp_is_scaled() {
    let s = red_stamper();
    let out = s.apply_with(&png(200, 200, [255, 255, 255, 255]), OutputFormat::WebP, "", 100, FitPolicy::ContainWithPadding(10)).unwrap();
    let back = image::load_from_memory(&out).unwrap().to_rgba8();
    // the stamp is scaled to 180x90 at (10, 55)
    assert_eq!(back.get_pixel(15, 60)[1], 0);
    assert_eq!(back.get_pixel(185, 140)[1], 0);
    assert_eq!(back.get_pixel(5, 60)[1], 255);
    assert_eq!(back.get_pixel(100, 50)[1], 255);
    assert_eq!(back.get_pixel(100, 150)[1], 255);
}

#[test]
fn unsupported_format_names_the_value() {
    let s = red_stamper();
    let r = s.apply_stamp_with_options(&jpeg(20, 20, [0, 0, 0]), 75, "bogus");
    assert_eq!(r, Err(StampError::UnsupportedFormat("bogus".to_string())));
}

#[test]
fn format_names_ignore_case() {
    let s = red_stamper();
    let out = s.apply_stamp_with_options(&png(30, 30, [0, 0, 0, 255]), 75, "WEBP").unwrap();
    assert_eq!(&out[..4], b"RIFF");
    let out = s.apply_stamp_with_options(&png(30, 30, [0, 0, 0, 255]), 75, "Jpeg").unwrap();
    assert_eq!(&out[..2], &[0xFF, 0xD8]);
}

#[test]
fn undecodable_input_is_a_decode_error() {
    let s = red_stamper();
    assert!(matches!(s.apply_stamp(b"garbage"), Err(StampError::Decode(_))));
}

#[test]
fn filename_alters_only_the_bottom_band() {
    let s = red_stamper();
    let input = png(300, 100, [40, 90, 160, 255]);
    let out = s.apply_stamp_with_options_text_and_opacity(&input, 75, "webp", "holiday.png", 0).unwrap();
    let back = image::load_from_memory(&out).unwrap().to_rgba8();
    assert_eq!((back.width(), back.height()), (300, 100));
    for y in 0..(100 - 10 - 32) {
        for x in 0..300 {
            assert_eq!(back.get_pixel(x, y).0, [40, 90, 160, 255]);
        }
    }
    let changed = (58..90).any(|y| (0..300).any(|x| back.get_pixel(x, y).0 != [40, 90, 160, 255]));
    assert!(changed);
}

#[test]
fn unparsable_font_falls_back_to_blocks() {
    let mut s = red_stamper();
    s.set_font(vec![0, 1, 2, 3]);
    let input = png(300, 100, [40, 90, 160, 255]);
    let with_font = s.apply_with(&input, OutputFormat::WebP, "x.png", 0, FitPolicy::Cover).unwrap();
    let plain = red_stamper().apply_with(&input, OutputFormat::WebP, "x.png", 0, FitPolicy::Cover).unwrap();
    assert_eq!(with_font, plain);
}

#[test]
fn opacity_above_full_is_capped() {
    let s = red_stamper();
    let input = png(50, 50, [255, 255, 255, 255]);
    let over = s.apply_with(&input, OutputFormat::WebP, "", 250, FitPolicy::Cover).unwrap();
    let full = s.apply_with(&input, OutputFormat::WebP, "", 100, FitPolicy::Cover).unwrap();
    assert_eq!(over, full);
}

#[test]
fn overloads_match_their_defaults() {
    let s = red_stamper();
    let input = jpeg(64, 48, [20, 200, 20]);
    let general = s.apply_stamp_with_options_text_and_opacity(&input, 75, "jpg", "", 50).unwrap();
    assert_eq!(s.apply_stamp(&input).unwrap(), general);
    assert_eq!(s.apply_stamp_with_quality(&input, 75).unwrap(), general);
    assert_eq!(s.apply_stamp_with_options(&input, 75, "jpg").unwrap(), general);
    assert_eq!(s.apply_stamp_with_options_and_text(&input, 75, "jpg", "").unwrap(), general);
}

#[test]
fn zero_opacity_is_a_plain_reencoding() {
    let s = red_stamper();
    let input = png(40, 30, [90, 10, 200, 255]);
    let out = s.apply_stamp_with_options_text_and_opacity(&input, 75, "webp", "", 0).unwrap();
    let back = image::load_from_memory(&out).unwrap().to_rgba8();
    let orig = image::load_from_memory(&input).unwrap().to_rgba8();
    assert_eq!(back.into_raw(), orig.into_raw());
}

#[test]
fn too_large_for_webp_is_an_encode_error() {
    let s = red_stamper();
    let r = s.apply_with(&png(16385, 1, [0, 0, 0, 255]), OutputFormat::WebP, "", 50, FitPolicy::ContainWithPadding(0));
    assert!(matches!(r, Err(StampError::Encode(_))));
}

#[test]
fn decode_error_carries_the_decoder_message() {
    let mut s = ImageStamper::new();
    let expected = image::load_from_memory(&[1, 2, 3, 4]).unwrap_err().to_string();
    assert_eq!(s.set_stamp(&[1, 2, 3, 4]), Err(StampError::Decode(expected.clone())));
    let s = red_stamper();
    assert_eq!(s.apply_stamp(&[1, 2, 3, 4]), Err(StampError::Decode(expected)));
}
