//! Decoding and encoding of compressed images, and resampling, by the image crate.
use vstd::prelude::*;
use crate::pixel::{PixelBuffer, Raster};
use crate::format::OutputFormat;
use crate::error::StampError;
use image::{ImageBuffer, ImageEncoder, Rgba};
use image::codecs::jpeg::JpegEncoder;
use image::codecs::webp::WebPEncoder;
use image::imageops::FilterType;

verus! {

/// Width, height and RGBA bytes of the image that `bytes` decode to, if any.
pub uninterp spec fn decoded(bytes: Seq<u8>) -> Option<(u32, u32, Seq<u8>)>;

/// RGBA bytes of an RGBA raster resampled with a Lanczos filter to a new size.
pub uninterp spec fn lanczos_resized(pixels: Seq<u8>, width: u32, height: u32, new_width: u32, new_height: u32) -> Seq<u8>;

/// The JPEG file of an RGB raster at a quality.
pub uninterp spec fn jpeg_encoded(rgb: Seq<u8>, width: u32, height: u32, quality: u8) -> Seq<u8>;

/// The lossless WebP file of an RGBA raster.
pub uninterp spec fn webp_encoded(rgba: Seq<u8>, width: u32, height: u32) -> Seq<u8>;

/// The decoder's message for bytes that do not decode.
pub uninterp spec fn decode_error_text(bytes: Seq<u8>) -> Seq<char>;

/// The JPEG encoder's message for a raster it cannot write.
pub uninterp spec fn jpeg_error_text(rgb: Seq<u8>, width: u32, height: u32, quality: u8) -> Seq<char>;

/// The WebP encoder's message for a raster it cannot write.
pub uninterp spec fn webp_error_text(rgba: Seq<u8>, width: u32, height: u32) -> Seq<char>;

/// Largest side of a JPEG file.
pub const JPEG_MAX_SIDE: u32 = 65535;
/// Largest side of a lossless WebP file.
pub const WEBP_MAX_SIDE: u32 = 16384;

/// Whether a JPEG file can hold a raster of this size.
pub open spec fn jpeg_fits(width: u32, height: u32) -> bool {
    width <= JPEG_MAX_SIDE && height <= JPEG_MAX_SIDE
}

/// Whether a lossless WebP file can hold a raster of this size.
pub open spec fn webp_fits(width: u32, height: u32) -> bool {
    1 <= width <= WEBP_MAX_SIDE && 1 <= height <= WEBP_MAX_SIDE
}

/// Whether a raster of this size can be written in the format.
pub open spec fn encodable(width: u32, height: u32, format: OutputFormat) -> bool {
    match format {
        OutputFormat::Jpeg(_) => jpeg_fits(width, height),
        OutputFormat::WebP => webp_fits(width, height),
    }
}

/// Relies on `image::load_from_memory`, then `to_rgba8` and `into_raw` to take
/// the decoded image apart: the result depends on the bytes alone, and the
/// RGBA buffer holds four bytes for each pixel; a failure is reported as the
/// error's `Display` text.
#[verifier::external_body]
pub(crate) fn decode_rgba(bytes: &[u8]) -> (r: Result<(u32, u32, Vec<u8>), String>)
    ensures
        match r {
            Ok((w, h, p)) => decoded(bytes@) == Some((w, h, p@)) && p@.len() == w as int * h as int * 4,
            Err(msg) => decoded(bytes@) is None && msg@ == decode_error_text(bytes@),
        },
{
    match image::load_from_memory(bytes) {
        Ok(img) => {
            let rgba = img.to_rgba8();
            Ok((rgba.width(), rgba.height(), rgba.into_raw()))
        },
        Err(e) => Err(e.to_string()),
    }
}

/// Relies on `image::imageops::resize` with the Lanczos3 filter: the output has
/// the requested size (it is allocated by `ImageBuffer::new`) and depends on
/// the input alone.
#[verifier::external_body]
pub(crate) fn resize_lanczos(src: &PixelBuffer, new_width: u32, new_height: u32) -> (r: PixelBuffer)
    requires
        src.wf(),
        new_width as int * new_height as int * 4 <= usize::MAX,
    ensures
        r.width == new_width,
        r.height == new_height,
        r.wf(),
        r.pixels@ == lanczos_resized(src.pixels@, src.width, src.height, new_width, new_height),
{
    let img = ImageBuffer::<Rgba<u8>, Vec<u8>>::from_raw(src.width, src.height, src.pixels.clone()).unwrap();
    let out = image::imageops::resize(&img, new_width, new_height, FilterType::Lanczos3);
    PixelBuffer { width: out.width(), height: out.height(), pixels: out.into_raw() }
}

/// Relies on `JpegEncoder::write_image` (built by `new_with_quality`, writing
/// into a `Vec`, which never fails): it fails only when a side does not fit
/// in 16 bits, and the file depends on the arguments alone.
#[verifier::external_body]
fn write_jpeg(rgb: &[u8], width: u32, height: u32, quality: u8) -> (r: Result<Vec<u8>, String>)
    requires
        rgb@.len() == width as int * height as int * 3,
    ensures
        r is Ok <==> jpeg_fits(width, height),
        r matches Ok(v) ==> v@ == jpeg_encoded(rgb@, width, height, quality),
        r matches Err(msg) ==> msg@ == jpeg_error_text(rgb@, width, height, quality),
{
    let mut out = Vec::new();
    let res = JpegEncoder::new_with_quality(&mut out, quality).write_image(rgb, width, height, image::ColorType::Rgb8);
    res.map(|_| out).map_err(|e| e.to_string())
}

/// Relies on `WebPEncoder::write_image` (built by `new_lossless`, writing into
/// a `Vec`, which never fails): it fails only when a side is 0 or over
/// 16384, and the file depends on the arguments alone.
#[verifier::external_body]
fn write_webp(rgba: &[u8], width: u32, height: u32) -> (r: Result<Vec<u8>, String>)
    requires
        rgba@.len() == width as int * height as int * 4,
    ensures
        r is Ok <==> webp_fits(width, height),
        r matches Ok(v) ==> v@ == webp_encoded(rgba@, width, height),
        r matches Err(msg) ==> msg@ == webp_error_text(rgba@, width, height),
{
    let mut out = Vec::new();
    let res = WebPEncoder::new_lossless(&mut out).write_image(rgba, width, height, image::ColorType::Rgba8);
    res.map(|_| out).map_err(|e| e.to_string())
}

/// The RGB bytes of an RGBA byte sequence: each pixel's alpha byte dropped.
pub open spec fn rgb_of(rgba: Seq<u8>) -> Seq<u8> {
    Seq::new((rgba.len() / 4 * 3) as nat, |k: int| rgba[(k / 3) * 4 + k % 3])
}

/// The file a raster is written as in a format.
pub open spec fn encoded(img: Raster, format: OutputFormat) -> Seq<u8> {
    match format {
        OutputFormat::Jpeg(q) => jpeg_encoded(rgb_of(img.pixels), img.width, img.height, q),
        OutputFormat::WebP => webp_encoded(img.pixels, img.width, img.height),
    }
}

/// The encoder's message when a raster cannot be written in a format.
pub open spec fn encode_error_text(img: Raster, format: OutputFormat) -> Seq<char> {
    match format {
        OutputFormat::Jpeg(q) => jpeg_error_text(rgb_of(img.pixels), img.width, img.height, q),
        OutputFormat::WebP => webp_error_text(img.pixels, img.width, img.height),
    }
}

/// What writing `img` in `format` returns: its file when the format can hold
/// a raster of that size, else `Encode` with the encoder's message.
pub open spec fn encode_outcome(r: Result<Vec<u8>, StampError>, img: Raster, format: OutputFormat) -> bool {
    if encodable(img.width, img.height, format) {
        r matches Ok(v) && v@ == encoded(img, format)
    } else {
        r matches Err(StampError::Encode(msg)) && msg@ == encode_error_text(img, format)
    }
}

/// Drops the alpha channel: RGBA bytes to RGB bytes.
pub fn drop_alpha(img: &PixelBuffer) -> (r: Vec<u8>)
    requires
        img.wf(),
    ensures
        r@ == rgb_of(img.pixels@),
        r@.len() == img.width as int * img.height as int * 3,
{
    let len: usize = img.pixels.len();
    let n: usize = len / 4;
    let mut out: Vec<u8> = Vec::new();
    let mut i: usize = 0;
    while i < n
        invariant
            n == img.pixels@.len() / 4,
            len == img.pixels@.len(),
            img.wf(),
            i <= n,
            out@.len() == 3 * i,
            forall|k: int| 0 <= k < 3 * i ==> #[trigger] out@[k] == img.pixels@[(k / 3) * 4 + k % 3],
        decreases n - i,
    {
        let ghost prev = out@;
        assert(4 * i + 4 <= img.pixels@.len()) by (nonlinear_arith)
            requires i < n, n == len / 4, len == img.pixels@.len();
        out.push(img.pixels[4 * i]);
        out.push(img.pixels[4 * i + 1]);
        out.push(img.pixels[4 * i + 2]);
        proof {
            assert forall|k: int| 0 <= k < 3 * (i + 1) implies #[trigger] out@[k] == img.pixels@[(k / 3) * 4 + k % 3] by {
                if k >= 3 * i {
                    assert(k / 3 == i && (k - 3 * i) == k % 3) by (nonlinear_arith)
                        requires 3 * i <= k < 3 * i + 3;
                } else {
                    assert(out@[k] == prev[k]);
                }
            }
        }
        i = i + 1;
    }
    assert(out@ =~= rgb_of(img.pixels@));
    out
}

/// Writes a raster in a format: its file when the format can hold a raster
/// of that size, else `Encode` with the encoder's message.
pub fn encode_image(img: &PixelBuffer, format: OutputFormat) -> (r: Result<Vec<u8>, StampError>)
    requires
        img.wf(),
    ensures
        r is Ok <==> encodable(img.width, img.height, format),
        r matches Ok(v) ==> v@ == encoded(img@, format),
        r is Err ==> r matches Err(StampError::Encode(_)),
        encode_outcome(r, img@, format),
{
    let res = match format {
        OutputFormat::Jpeg(q) => {
            let rgb = drop_alpha(img);
            write_jpeg(rgb.as_slice(), img.width, img.height, q)
        },
        OutputFormat::WebP => write_webp(img.pixels.as_slice(), img.width, img.height),
    };
    match res {
        Ok(v) => Ok(v),
        Err(msg) => Err(StampError::Encode(msg)),
    }
}

} // verus!
