//! The stamper: holds the stamp between calls and runs the whole pipeline.
use vstd::prelude::*;
use crate::pixel::{PixelBuffer, Raster, in_raster};
use crate::placement::{FitPolicy, placement_of, compute_placement, available, lemma_contain_fits_canvas};
use crate::blend::{blended_at, blend_images};
use crate::text::{block_text_at, font_parses, add_text_watermark, glyph_text_result};
use crate::format::{OutputFormat, format_for, lower_of, parse_format, all_ascii, ascii_lower, lemma_jpg_is_lower};
use crate::codec::{decoded, decode_error_text, lanczos_resized, encodable, encode_outcome, decode_rgba, resize_lanczos, encode_image};
use crate::error::StampError;

verus! {

/// Margin kept free around the stamp by the default fit.
pub const STAMP_PADDING: u32 = 10;
/// JPEG quality used when the caller gives none.
pub const DEFAULT_QUALITY: u8 = 75;
/// Stamp opacity, in percent, used when the caller gives none.
pub const DEFAULT_OPACITY: u32 = 50;

/// An opacity in percent, capped at 100.
pub open spec fn clamp_percent(opacity: int) -> int {
    if opacity > 100 { 100 } else { opacity }
}

/// Whether the stamp, scaled as placed, can be held in memory.
pub open spec fn scaled_fits(input: Raster, stamp: Raster, policy: FitPolicy) -> bool {
    let pl = placement_of(input.width as int, input.height as int, stamp.width as int, stamp.height as int, policy);
    pl.scaled_w == 0 || pl.scaled_h == 0 || pl.scaled_w as int * pl.scaled_h as int * 4 <= usize::MAX
}

/// Under the contain policy the scaled stamp is never larger than the
/// canvas, so it can be held whenever the canvas can.
pub proof fn lemma_contain_always_fits(input: Raster, stamp: Raster, p: u32)
    requires
        input.wf(),
        input.pixels.len() <= usize::MAX,
        stamp.width > 0,
        stamp.height > 0,
    ensures
        scaled_fits(input, stamp, FitPolicy::ContainWithPadding(p)),
{
    lemma_contain_fits_canvas(input.width, input.height, stamp.width, stamp.height, p);
    let pl = placement_of(input.width as int, input.height as int, stamp.width as int, stamp.height as int, FitPolicy::ContainWithPadding(p));
    assert(available(input.width as int, p as int) <= input.width);
    assert(available(input.height as int, p as int) <= input.height);
    assert(pl.scaled_w as int * pl.scaled_h as int * 4 <= input.width as int * input.height as int * 4) by (nonlinear_arith)
        requires pl.scaled_w <= input.width, pl.scaled_h <= input.height, pl.scaled_w >= 0, pl.scaled_h >= 0;
}

/// Channel `c` of pixel `(x, y)` of `input` once `stamp` has been scaled and
/// placed under `policy` and blended on at `opacity` percent.
pub open spec fn stamped_at(input: Raster, stamp: Raster, opacity: int, policy: FitPolicy, x: int, y: int, c: int) -> int {
    let pl = placement_of(input.width as int, input.height as int, stamp.width as int, stamp.height as int, policy);
    if pl.scaled_w == 0 || pl.scaled_h == 0 {
        input.at(x, y, c) as int
    } else {
        let scaled = Raster {
            width: pl.scaled_w,
            height: pl.scaled_h,
            pixels: lanczos_resized(stamp.pixels, stamp.width, stamp.height, pl.scaled_w, pl.scaled_h),
        };
        blended_at(input, scaled, pl.offset_x as int, pl.offset_y as int, opacity, x, y, c)
    }
}

/// Whether `b` is `input` with the stamp blended on.
pub open spec fn is_stamped(b: Raster, input: Raster, stamp: Raster, opacity: int, policy: FitPolicy) -> bool {
    &&& b.width == input.width
    &&& b.height == input.height
    &&& b.wf()
    &&& forall|x: int, y: int, c: int|
            in_raster(input.width as int, input.height as int, x, y, c)
                ==> #[trigger] b.at(x, y, c) as int == stamped_at(input, stamp, opacity, policy, x, y, c)
}

/// Whether `out` is `input` with the stamp blended on and then `text`
/// written over it: nothing when empty, glyphs when `font` parses, else blocks.
pub open spec fn is_composition(out: Raster, input: Raster, stamp: Raster, text: &str, font: Seq<u8>, opacity: int, policy: FitPolicy) -> bool {
    &&& out.width == input.width
    &&& out.height == input.height
    &&& out.wf()
    &&& text@.len() == 0 ==> is_stamped(out, input, stamp, opacity, policy)
    &&& (text@.len() > 0 && font_parses(font)) ==> exists|b: Raster|
            is_stamped(b, input, stamp, opacity, policy) && out.pixels == #[trigger] glyph_text_result(b, text, font)
    &&& (text@.len() > 0 && !font_parses(font)) ==> forall|x: int, y: int, c: int|
            in_raster(input.width as int, input.height as int, x, y, c)
                ==> #[trigger] out.at(x, y, c) as int == block_text_at(input.width as int, input.height as int, text, x, y, c,
                    stamped_at(input, stamp, opacity, policy, x, y, c))
}

/// The format a name picks at a JPEG quality: for an ASCII name, by its
/// ASCII lower case; otherwise by its full lower case.
pub open spec fn chosen_format(name: Seq<char>, quality: u8) -> Option<OutputFormat> {
    if all_ascii(name) { format_for(ascii_lower(name), quality) } else { format_for(lower_of(name), quality) }
}

/// Composites a stored stamp image onto photos.
pub struct ImageStamper {
    stamp_data: Vec<u8>,
    stamp_width: u32,
    stamp_height: u32,
    font_data: Vec<u8>,
}

impl ImageStamper {
    /// The stored stamp.
    pub closed spec fn stamp(&self) -> Raster {
        Raster { width: self.stamp_width, height: self.stamp_height, pixels: self.stamp_data@ }
    }

    /// The stored font data (empty when none was given).
    pub closed spec fn font(&self) -> Seq<u8> {
        self.font_data@
    }

    /// The stamp's bytes match its dimensions.
    pub open spec fn wf(&self) -> bool {
        self.stamp().wf()
    }

    /// A stamp is set when it holds pixel data.
    pub open spec fn stamp_set(&self) -> bool {
        self.stamp().pixels.len() > 0
    }

    /// What a call that stamps `image` and writes it in `format` returns:
    /// every failure and its cause (with the decoder's or encoder's message),
    /// success exactly when the format can hold the image's size, and then
    /// the encoded composition.
    pub open spec fn stamps_as(&self, r: Result<Vec<u8>, StampError>, image: Seq<u8>, format: OutputFormat, text: &str, opacity: int, policy: FitPolicy) -> bool {
        if !self.stamp_set() {
            r matches Err(StampError::StampNotSet)
        } else {
            match decoded(image) {
                None => r matches Err(StampError::Decode(msg)) && msg@ == decode_error_text(image),
                Some((w, h, p)) => {
                    let input = Raster { width: w, height: h, pixels: p };
                    if !scaled_fits(input, self.stamp(), policy) {
                        r matches Err(StampError::BufferReconstruction)
                    } else {
                        &&& r is Ok <==> encodable(w, h, format)
                        &&& r is Err ==> (r matches Err(StampError::Encode(_)))
                        &&& exists|out: Raster|
                                is_composition(out, input, self.stamp(), text, self.font(), clamp_percent(opacity), policy)
                                && #[trigger] encode_outcome(r, out, format)
                    }
                },
            }
        }
    }

    /// A stamper with no stamp and no font.
    pub fn new() -> (r: ImageStamper)
        ensures
            r.wf(),
            !r.stamp_set(),
            r.stamp().width == 0,
            r.stamp().height == 0,
            r.font().len() == 0,
    {
        ImageStamper { stamp_data: Vec::new(), stamp_width: 0, stamp_height: 0, font_data: Vec::new() }
    }

    /// Whether a stamp is set.
    pub fn is_set(&self) -> (r: bool)
        ensures
            r == self.stamp_set(),
    {
        self.stamp_data.len() > 0
    }

    /// Decodes `stamp_bytes` and stores the result, as RGBA, as the stamp.
    /// Bytes that do not decode give `Decode` with the decoder's message and
    /// leave the stamper as it was.
    pub fn set_stamp(&mut self, stamp_bytes: &[u8]) -> (r: Result<(), StampError>)
        ensures
            old(self).wf() ==> final(self).wf(),
            r is Ok ==> final(self).wf(),
            final(self).font() == old(self).font(),
            match decoded(stamp_bytes@) {
                Some((w, h, p)) => r is Ok && final(self).stamp() == (Raster { width: w, height: h, pixels: p }),
                None => (r matches Err(StampError::Decode(msg)) && msg@ == decode_error_text(stamp_bytes@))
                    && final(self).stamp() == old(self).stamp(),
            },
    {
        match decode_rgba(stamp_bytes) {
            Ok((w, h, p)) => {
                self.stamp_width = w;
                self.stamp_height = h;
                self.stamp_data = p;
                Ok(())
            },
            Err(msg) => Err(StampError::Decode(msg)),
        }
    }

    /// Gives the font that text is drawn in; data that does not parse as a
    /// font leaves text drawn as blocks.
    pub fn set_font(&mut self, font_bytes: Vec<u8>)
        ensures
            final(self).wf() == old(self).wf(),
            final(self).font() == font_bytes@,
            final(self).stamp() == old(self).stamp(),
    {
        self.font_data = font_bytes;
    }

    /// Scales and places the stamp on `input` under `policy`, blends it on at
    /// `opacity` percent (capped at 100), then writes `text` along the bottom.
    pub fn compose(&self, input: PixelBuffer, text: &str, opacity: u32, policy: FitPolicy) -> (r: Result<PixelBuffer, StampError>)
        requires
            input.wf(),
        ensures
            !self.stamp_set() ==> r matches Err(StampError::StampNotSet),
            self.stamp_set() && (!self.stamp().wf() || !scaled_fits(input@, self.stamp(), policy))
                ==> r matches Err(StampError::BufferReconstruction),
            self.stamp_set() && self.stamp().wf() && scaled_fits(input@, self.stamp(), policy)
                ==> (r matches Ok(out) && is_composition(out@, input@, self.stamp(), text, self.font(), clamp_percent(opacity as int), policy)),
    {
        if self.stamp_data.len() == 0 {
            return Err(StampError::StampNotSet);
        }
        let stamp = match PixelBuffer::from_raw(self.stamp_width, self.stamp_height, self.stamp_data.clone()) {
            Some(s) => s,
            None => return Err(StampError::BufferReconstruction),
        };
        assert(stamp.width > 0 && stamp.height > 0) by (nonlinear_arith)
            requires stamp.pixels@.len() == stamp.width as int * stamp.height as int * 4, stamp.pixels@.len() > 0;
        assert(stamp@ == self.stamp());
        let pl = compute_placement(input.width, input.height, stamp.width, stamp.height, policy);
        let op: u32 = if opacity > 100 { 100 } else { opacity };
        let ghost inp = input@;
        let mut canvas = input;
        if pl.scaled_w > 0 && pl.scaled_h > 0 {
            assert(pl.scaled_w as int * pl.scaled_h as int <= u32::MAX as int * u32::MAX as int) by (nonlinear_arith)
                requires pl.scaled_w <= u32::MAX, pl.scaled_h <= u32::MAX, pl.scaled_w >= 0, pl.scaled_h >= 0;
            if pl.scaled_w as u128 * pl.scaled_h as u128 * 4 > usize::MAX as u128 {
                return Err(StampError::BufferReconstruction);
            }
            let scaled = resize_lanczos(&stamp, pl.scaled_w, pl.scaled_h);
            blend_images(&mut canvas, &scaled, pl.offset_x, pl.offset_y, op);
            assert(scaled@ == (Raster {
                width: pl.scaled_w,
                height: pl.scaled_h,
                pixels: lanczos_resized(self.stamp().pixels, self.stamp().width, self.stamp().height, pl.scaled_w, pl.scaled_h),
            }));
        }
        let ghost blended = canvas@;
        let ghost blended_buf = canvas;
        assert forall|x: int, y: int, c: int| in_raster(inp.width as int, inp.height as int, x, y, c)
            implies #[trigger] blended.at(x, y, c) as int == stamped_at(inp, self.stamp(), op as int, policy, x, y, c) by {
            assert(blended.at(x, y, c) == blended_buf.at(x, y, c));
            assert(inp.at(x, y, c) == input.at(x, y, c));
        }
        assert(is_stamped(blended, inp, self.stamp(), op as int, policy));
        add_text_watermark(&mut canvas, text, self.font_data.as_slice());
        assert(is_composition(canvas@, inp, self.stamp(), text, self.font(), op as int, policy)) by {
            if text@.len() == 0 {
                assert(canvas@.pixels == blended.pixels);
                assert forall|x: int, y: int, c: int| in_raster(inp.width as int, inp.height as int, x, y, c)
                    implies #[trigger] canvas@.at(x, y, c) as int == stamped_at(inp, self.stamp(), op as int, policy, x, y, c) by {
                    assert(blended.at(x, y, c) as int == stamped_at(inp, self.stamp(), op as int, policy, x, y, c));
                }
            }
            if text@.len() > 0 && font_parses(self.font()) {
                assert(canvas@.pixels == glyph_text_result(blended, text, self.font()));
            }
            if text@.len() > 0 && !font_parses(self.font()) {
                assert forall|x: int, y: int, c: int| in_raster(inp.width as int, inp.height as int, x, y, c)
                    implies #[trigger] canvas@.at(x, y, c) as int == block_text_at(inp.width as int, inp.height as int, text, x, y, c,
                        stamped_at(inp, self.stamp(), op as int, policy, x, y, c)) by {
                    assert(blended.at(x, y, c) as int == stamped_at(inp, self.stamp(), op as int, policy, x, y, c));
                    assert(canvas.at(x, y, c) == canvas@.at(x, y, c));
                }
            }
        }
        Ok(canvas)
    }

    /// Decodes `image_bytes`, composes the stamp and `text` onto it (see
    /// `compose`) and writes the result in `format`.
    pub fn apply_with(&self, image_bytes: &[u8], format: OutputFormat, text: &str, opacity: u32, policy: FitPolicy) -> (r: Result<Vec<u8>, StampError>)
        requires
            self.wf(),
        ensures
            self.stamps_as(r, image_bytes@, format, text, opacity as int, policy),
            policy is ContainWithPadding ==> !(r matches Err(StampError::BufferReconstruction)),
    {
        if self.stamp_data.len() == 0 {
            return Err(StampError::StampNotSet);
        }
        let (w, h, p) = match decode_rgba(image_bytes) {
            Ok(d) => d,
            Err(msg) => return Err(StampError::Decode(msg)),
        };
        let input = match PixelBuffer::from_raw(w, h, p) {
            Some(b) => b,
            None => return Err(StampError::BufferReconstruction),
        };
        let input_len = input.pixels.len();
        proof {
            let st = self.stamp();
            assert(st.width > 0 && st.height > 0) by (nonlinear_arith)
                requires st.pixels.len() == st.width as int * st.height as int * 4, st.pixels.len() > 0;
            if let FitPolicy::ContainWithPadding(pad) = policy {
                lemma_contain_always_fits(input@, st, pad);
            }
        }
        let out = match self.compose(input, text, opacity, policy) {
            Ok(o) => o,
            Err(e) => return Err(e),
        };
        let r = encode_image(&out, format);
        assert(encode_outcome(r, out@, format));
        r
    }

    /// Stamps with the defaults: JPEG at quality 75, no text, 50% opacity,
    /// the stamp contained with a 10-pixel margin.
    pub fn apply_stamp(&self, image_bytes: &[u8]) -> (r: Result<Vec<u8>, StampError>)
        requires
            self.wf(),
        ensures
            self.names_format(r, image_bytes@, DEFAULT_QUALITY, "jpg", "", DEFAULT_OPACITY as int),
            self.stamps_as(r, image_bytes@, OutputFormat::Jpeg(DEFAULT_QUALITY), "", DEFAULT_OPACITY as int, FitPolicy::ContainWithPadding(STAMP_PADDING)),
    {
        proof {
            lemma_jpg_is_lower();
        }
        self.apply_stamp_with_options_text_and_opacity(image_bytes, DEFAULT_QUALITY, "jpg", "", DEFAULT_OPACITY)
    }

    /// As `apply_stamp`, at the given JPEG quality (capped at 100).
    pub fn apply_stamp_with_quality(&self, image_bytes: &[u8], quality: u8) -> (r: Result<Vec<u8>, StampError>)
        requires
            self.wf(),
        ensures
            self.names_format(r, image_bytes@, quality, "jpg", "", DEFAULT_OPACITY as int),
            self.stamps_as(r, image_bytes@, OutputFormat::Jpeg(if quality > 100 { 100 } else { quality }), "",
                DEFAULT_OPACITY as int, FitPolicy::ContainWithPadding(STAMP_PADDING)),
    {
        proof {
            lemma_jpg_is_lower();
        }
        self.apply_stamp_with_options_text_and_opacity(image_bytes, quality, "jpg", "", DEFAULT_OPACITY)
    }

    /// As `apply_stamp`, in the format named by `format` ("jpg", "jpeg" or
    /// "webp", in any letter case).
    pub fn apply_stamp_with_options(&self, image_bytes: &[u8], quality: u8, format: &str) -> (r: Result<Vec<u8>, StampError>)
        requires
            self.wf(),
        ensures
            self.names_format(r, image_bytes@, quality, format, "", DEFAULT_OPACITY as int),
    {
        self.apply_stamp_with_options_text_and_opacity(image_bytes, quality, format, "", DEFAULT_OPACITY)
    }

    /// As `apply_stamp_with_options`, writing `filename` along the bottom.
    pub fn apply_stamp_with_options_and_text(&self, image_bytes: &[u8], quality: u8, format: &str, filename: &str) -> (r: Result<Vec<u8>, StampError>)
        requires
            self.wf(),
        ensures
            self.names_format(r, image_bytes@, quality, format, filename, DEFAULT_OPACITY as int),
    {
        self.apply_stamp_with_options_text_and_opacity(image_bytes, quality, format, filename, DEFAULT_OPACITY)
    }

    /// What a call that names its output format returns: `StampNotSet` first,
    /// then `UnsupportedFormat` with the name for a name that is no format,
    /// else what stamping in the named format returns.
    pub open spec fn names_format(&self, r: Result<Vec<u8>, StampError>, image: Seq<u8>, quality: u8, format: &str, text: &str, opacity: int) -> bool {
        if !self.stamp_set() {
            r matches Err(StampError::StampNotSet)
        } else {
            match chosen_format(format@, quality) {
                None => r matches Err(StampError::UnsupportedFormat(name)) && name@ == format@,
                Some(f) => self.stamps_as(r, image, f, text, opacity, FitPolicy::ContainWithPadding(STAMP_PADDING)),
            }
        }
    }

    /// Stamps with every option given: JPEG `quality`, output `format` by
    /// name, `filename` written along the bottom (none when empty) and the
    /// stamp's `opacity` in percent (capped at 100).
    pub fn apply_stamp_with_options_text_and_opacity(&self, image_bytes: &[u8], quality: u8, format: &str, filename: &str, opacity: u32) -> (r: Result<Vec<u8>, StampError>)
        requires
            self.wf(),
        ensures
            self.names_format(r, image_bytes@, quality, format, filename, opacity as int),
            !(r matches Err(StampError::BufferReconstruction)),
    {
        if self.stamp_data.len() == 0 {
            return Err(StampError::StampNotSet);
        }
        match parse_format(format, quality) {
            None => Err(StampError::UnsupportedFormat(format.to_owned())),
            Some(f) => self.apply_with(image_bytes, f, filename, opacity, FitPolicy::ContainWithPadding(STAMP_PADDING)),
        }
    }
}

} // verus!
