//! A single line of text near the bottom edge: glyphs from a font when one
//! parses, otherwise one filled block per character.
use vstd::prelude::*;
use vstd::string::{StringSliceAdditionalSpecFns, StrSliceExecFns};
use crate::pixel::{PixelBuffer, Raster, in_raster, index_of, lemma_index_distinct, lemma_index_in_bounds};
use crate::placement::sat_sub;
use rusttype::{Font, Scale};
use image::{ImageBuffer, Rgba};

verus! {

/// Text height in pixels.
pub const FONT_SIZE: u16 = 32;
/// Distance kept between the text and the bottom edge.
pub const BOTTOM_PADDING: u32 = 10;
/// Smallest left margin of the text.
pub const MIN_LEFT: u32 = 10;
/// Width given to each character by the block renderer.
pub const CHAR_WIDTH: u32 = 16;
/// Grey level of the text colour.
pub const TEXT_GRAY: u8 = 125;
/// Alpha of the text colour (about one half).
pub const TEXT_ALPHA: u8 = 128;

/// Whether the font data parses as a font.
pub uninterp spec fn font_parses(data: Seq<u8>) -> bool;

/// Relies on rusttype's `Font::try_from_bytes`: whether the bytes parse as a
/// font depends on the bytes alone.
#[verifier::external_body]
fn font_is_valid(data: &[u8]) -> (r: bool)
    ensures
        r == font_parses(data@),
{
    Font::try_from_bytes(data).is_some()
}

/// Width and height in pixels of a line of text set in a font at a size:
/// the largest right and bottom edges of its glyph boxes.
pub uninterp spec fn text_size_of(font: Seq<u8>, text: Seq<char>, size: u16) -> (i32, i32);

/// RGBA bytes of a raster once a line of text is drawn on it in a font, at
/// a size and position, in a grey with an alpha.
pub uninterp spec fn glyphs_drawn(pixels: Seq<u8>, width: u32, height: u32, font: Seq<u8>, x: i32, y: i32, size: u16, text: Seq<char>, gray: u8, alpha: u8) -> Seq<u8>;

/// Relies on imageproc's `text_size` (the font parsed by rusttype's
/// `Font::try_from_bytes`): the largest right and bottom edges of the glyph
/// boxes, each starting from zero; it depends on the arguments alone. This
/// is the extent of the drawn glyphs, not the last glyph's position plus its
/// advance: a trailing space adds no width.
#[verifier::external_body]
fn measure_text(font_data: &[u8], text: &str, size: u16) -> (r: (i32, i32))
    requires
        font_parses(font_data@),
    ensures
        r.0 >= 0,
        r.1 >= 0,
        r == text_size_of(font_data@, text@, size),
{
    match Font::try_from_bytes(font_data) {
        Some(font) => imageproc::drawing::text_size(Scale::uniform(size.into()), &font, text),
        None => (0, 0),
    }
}

/// Relies on imageproc's `draw_text_mut` (the font parsed by rusttype's
/// `Font::try_from_bytes`): it blends glyph coverage into the raster in
/// place, keeping its size, and the result depends on the arguments alone.
/// It adds `x` and `y` to glyph pixel positions that lie below the extent
/// `text_size` reports (both use the same layout), so a non-negative origin
/// whose sum with that extent fits in `i32` cannot overflow.
#[verifier::external_body]
fn draw_glyphs(img: &mut PixelBuffer, font_data: &[u8], x: i32, y: i32, size: u16, text: &str, gray: u8, alpha: u8)
    requires
        old(img).wf(),
        font_parses(font_data@),
        0 <= x,
        0 <= y,
        x + text_size_of(font_data@, text@, size).0 <= i32::MAX,
        y + text_size_of(font_data@, text@, size).1 <= i32::MAX,
    ensures
        final(img).width == old(img).width,
        final(img).height == old(img).height,
        final(img).pixels@ == glyphs_drawn(old(img).pixels@, old(img).width, old(img).height, font_data@, x, y, size, text@, gray, alpha),
        final(img).wf(),
{
    let pixels = std::mem::take(&mut img.pixels);
    if let Some(mut canvas) = ImageBuffer::<Rgba<u8>, Vec<u8>>::from_raw(img.width, img.height, pixels) {
        if let Some(font) = Font::try_from_bytes(font_data) {
            let colour = Rgba([gray, gray, gray, alpha]);
            imageproc::drawing::draw_text_mut(&mut canvas, colour, x, y, Scale::uniform(size.into()), &font, text);
        }
        img.pixels = canvas.into_raw();
    }
}

/// A channel after the text colour is blended over it.
pub open spec fn tint(p: int) -> int {
    (p * (255 - TEXT_ALPHA) + TEXT_GRAY * TEXT_ALPHA) / 255
}

/// Left edge of the first block, for `n` bytes of text on a canvas `w` wide:
/// centred, but never nearer than `MIN_LEFT` to the left edge.
pub open spec fn block_left(w: int, n: int) -> int {
    let half = (w - n * CHAR_WIDTH) / 2;
    if half > MIN_LEFT { half } else { MIN_LEFT as int }
}

/// Top of the text band, `FONT_SIZE + BOTTOM_PADDING` above the bottom edge.
pub open spec fn block_top(h: int) -> int {
    sat_sub(h, FONT_SIZE + BOTTOM_PADDING)
}

/// Whether pixel `(x, y)` lies in one of the `chars` blocks of a line of
/// `bytes` bytes: each block leaves 2 pixels free left and right and 5 above
/// and below within its cell.
pub open spec fn in_block(w: int, h: int, bytes: int, chars: int, x: int, y: int) -> bool {
    let left = block_left(w, bytes);
    let top = block_top(h);
    &&& top + 5 <= y < top + FONT_SIZE - 5
    &&& left <= x
    &&& (x - left) / (CHAR_WIDTH as int) < chars
    &&& 2 <= (x - left) % (CHAR_WIDTH as int) < CHAR_WIDTH - 2
}

/// Channel `c` of pixel `(x, y)`, which held `v`, after the block renderer
/// has drawn `text` on a `w` by `h` raster.
pub open spec fn block_text_at(w: int, h: int, text: &str, x: int, y: int, c: int, v: int) -> int {
    if c < 3 && in_block(w, h, text.spec_bytes().len() as int, text@.len() as int, x, y) {
        tint(v)
    } else {
        v
    }
}

fn tint_value(p: u8) -> (r: u8)
    ensures
        r == tint(p as int),
{
    assert(p as int * 127 + 16000 <= 255 * 127 + 16000) by (nonlinear_arith)
        requires p <= 255, p >= 0;
    ((p as u32 * (255 - TEXT_ALPHA as u32) + TEXT_GRAY as u32 * TEXT_ALPHA as u32) / 255) as u8
}

/// Draws one translucent grey block per character of `text`, centred along
/// the bottom of the raster; what falls outside the raster is skipped.
pub fn draw_fallback_text(img: &mut PixelBuffer, text: &str)
    requires
        old(img).wf(),
    ensures
        final(img).width == old(img).width,
        final(img).height == old(img).height,
        final(img).wf(),
        forall|x: int, y: int, c: int|
            in_raster(old(img).width as int, old(img).height as int, x, y, c)
                ==> #[trigger] final(img).at(x, y, c) as int
                    == block_text_at(old(img).width as int, old(img).height as int, text, x, y, c, old(img).at(x, y, c) as int),
{
    let w = img.width;
    let h = img.height;
    let bytes = text.as_bytes().len() as u128;
    let chars = text.unicode_len() as u128;
    let text_w: u128 = bytes * CHAR_WIDTH as u128;
    let left: u128 = if text_w + 2 * MIN_LEFT as u128 <= w as u128 { (w as u128 - text_w) / 2 } else { MIN_LEFT as u128 };
    let band: u32 = FONT_SIZE as u32 + BOTTOM_PADDING;
    let top: u32 = if h >= band { h - band } else { 0 };
    let y_lo: u32 = if top + 5 < h { top + 5 } else { h };
    let y_end: u32 = top + FONT_SIZE as u32 - 5;
    let y_hi: u32 = if y_end < h { y_end } else { h };
    let x_end: u128 = left + chars * CHAR_WIDTH as u128;
    let x_lo: u32 = if left < w as u128 { left as u32 } else { w };
    let x_hi: u32 = if x_end < w as u128 { x_end as u32 } else { w };
    assert(bytes == text.spec_bytes().len());
    assert(text_w == bytes * 16);
    assert(left == block_left(w as int, text.spec_bytes().len() as int));
    assert(top == block_top(h as int));
    let mut cy: u32 = y_lo;
    while cy < y_hi
        invariant
            img.width == w,
            img.height == h,
            w == old(img).width,
            h == old(img).height,
            img.wf(),
            left == block_left(w as int, text.spec_bytes().len() as int),
            top == block_top(h as int),
            chars == text@.len(),
            x_end == left + chars * CHAR_WIDTH,
            x_lo == (if left < w { left as int } else { w as int }),
            x_hi == (if x_end < w { x_end as int } else { w as int }),
            y_lo == (if top + 5 < h { top + 5 } else { h as int }),
            y_hi == (if top + FONT_SIZE - 5 < h { top + FONT_SIZE - 5 } else { h as int }),
            y_lo <= cy,
            cy <= y_hi || y_hi < y_lo,
            forall|x: int, y: int, c: int|
                in_raster(w as int, h as int, x, y, c) ==> #[trigger] img.at(x, y, c) as int == (
                    if y < cy { block_text_at(w as int, h as int, text, x, y, c, old(img).at(x, y, c) as int) }
                    else { old(img).at(x, y, c) as int }),
        decreases y_hi - cy,
    {
        let mut cx: u32 = x_lo;
        while cx < x_hi
            invariant
                img.width == w,
                img.height == h,
                w == old(img).width,
                h == old(img).height,
                img.wf(),
                left == block_left(w as int, text.spec_bytes().len() as int),
                top == block_top(h as int),
                chars == text@.len(),
                x_end == left + chars * CHAR_WIDTH,
                x_lo == (if left < w { left as int } else { w as int }),
                x_hi == (if x_end < w { x_end as int } else { w as int }),
                y_lo == (if top + 5 < h { top + 5 } else { h as int }),
                y_hi == (if top + FONT_SIZE - 5 < h { top + FONT_SIZE - 5 } else { h as int }),
                y_lo <= cy < y_hi,
                x_lo <= cx,
                cx <= x_hi || x_hi < x_lo,
                forall|x: int, y: int, c: int|
                    in_raster(w as int, h as int, x, y, c) ==> #[trigger] img.at(x, y, c) as int == (
                        if y < cy || (y == cy && x < cx) { block_text_at(w as int, h as int, text, x, y, c, old(img).at(x, y, c) as int) }
                        else { old(img).at(x, y, c) as int }),
            decreases x_hi - cx,
        {
            let rel: u128 = cx as u128 - left;
            let in_cell: u128 = rel % CHAR_WIDTH as u128;
            let ghost prev = *img;
            if 2 <= in_cell && in_cell < (CHAR_WIDTH - 2) as u128 {
                let bi = index_of(w, h, cx, cy, img.pixels.len());
                let ghost before = img.pixels@;
                let v0 = tint_value(img.pixels[bi]);
                img.pixels.set(bi, v0);
                let v1 = tint_value(img.pixels[bi + 1]);
                img.pixels.set(bi + 1, v1);
                let v2 = tint_value(img.pixels[bi + 2]);
                img.pixels.set(bi + 2, v2);
                proof {
                    assert(img.pixels@ == before.update(bi as int, v0).update(bi + 1, v1).update(bi + 2, v2));
                    assert forall|x: int, y: int, c: int|
                        in_raster(w as int, h as int, x, y, c) implies #[trigger] img.at(x, y, c) as int == (
                            if y < cy || (y == cy && x < cx + 1) { block_text_at(w as int, h as int, text, x, y, c, old(img).at(x, y, c) as int) }
                            else { old(img).at(x, y, c) as int }) by {
                        if x != cx || y != cy {
                            lemma_index_distinct(w as int, x, y, c, cx as int, cy as int, 0);
                            lemma_index_distinct(w as int, x, y, c, cx as int, cy as int, 1);
                            lemma_index_distinct(w as int, x, y, c, cx as int, cy as int, 2);
                            lemma_index_in_bounds(w as int, h as int, x, y, c);
                            assert(img.at(x, y, c) == prev.at(x, y, c));
                        } else {
                            assert(prev.at(x, y, c) == old(img).at(x, y, c));
                            assert(prev.at(x, y, c) == before[bi + c]);
                            assert(in_block(w as int, h as int, text.spec_bytes().len() as int, chars as int, x, y));
                        }
                    }
                }
            } else {
                proof {
                    assert forall|x: int, y: int, c: int|
                        in_raster(w as int, h as int, x, y, c) implies #[trigger] img.at(x, y, c) as int == (
                            if y < cy || (y == cy && x < cx + 1) { block_text_at(w as int, h as int, text, x, y, c, old(img).at(x, y, c) as int) }
                            else { old(img).at(x, y, c) as int }) by {
                        if x == cx && y == cy {
                            assert(!in_block(w as int, h as int, text.spec_bytes().len() as int, chars as int, x, y));
                        }
                    }
                }
            }
            cx = cx + 1;
        }
        cy = cy + 1;
    }
}

/// Rows outside the text band are never touched by the block renderer.
pub proof fn lemma_block_text_stays_in_band(w: int, h: int, text: &str, x: int, y: int, c: int, v: int)
    requires
        y < block_top(h) + 5 || y >= block_top(h) + FONT_SIZE - 5,
    ensures
        block_text_at(w, h, text, x, y, c, v) == v,
{
}

/// Left edge of glyph-rendered text `tw` pixels wide, centred on a canvas
/// `w` wide but never nearer than `MIN_LEFT` to the left edge.
pub open spec fn glyph_left(w: int, tw: int) -> int {
    let half = (w - tw) / 2;
    if half > MIN_LEFT { half } else { MIN_LEFT as int }
}

/// Top of glyph-rendered text: a fixed distance above the bottom edge,
/// whatever the height of the glyphs.
pub open spec fn glyph_top(h: int) -> int {
    h - BOTTOM_PADDING - FONT_SIZE
}

/// Whether text of the given extent can be drawn at its place on a `w` by
/// `h` canvas: its top is not above the canvas, and the origin plus the
/// extent fits in a glyph position.
pub open spec fn glyph_fits(w: int, h: int, tw: int, th: int) -> bool {
    &&& 0 <= glyph_top(h)
    &&& glyph_top(h) + th <= i32::MAX
    &&& glyph_left(w, tw) + tw <= i32::MAX
}

/// Where glyph-rendered text of extent `text_width` by `text_height` starts
/// on a `w` by `h` canvas, or `None` when it does not fit there.
pub fn glyph_origin(w: u32, h: u32, text_width: i32, text_height: i32) -> (r: Option<(i32, i32)>)
    requires
        text_width >= 0,
        text_height >= 0,
    ensures
        r is Some <==> glyph_fits(w as int, h as int, text_width as int, text_height as int),
        r matches Some(p) ==> p.0 == glyph_left(w as int, text_width as int) && p.1 == glyph_top(h as int),
{
    let top: i64 = h as i64 - BOTTOM_PADDING as i64 - FONT_SIZE as i64;
    if top < 0 || top + text_height as i64 > i32::MAX as i64 {
        return None;
    }
    let room: i64 = w as i64 - text_width as i64;
    let left: i64 = if room >= 2 * MIN_LEFT as i64 { (room as u64 / 2) as i64 } else { MIN_LEFT as i64 };
    if left + text_width as i64 > i32::MAX as i64 {
        return None;
    }
    Some((left as i32, top as i32))
}

/// The colour bytes of `drawn` with the alpha bytes of `base`.
pub open spec fn with_alpha_of(drawn: Seq<u8>, base: Seq<u8>) -> Seq<u8> {
    Seq::new(drawn.len(), |k: int| if k % 4 == 3 { base[k] } else { drawn[k] })
}

/// Puts back the alpha bytes of `base` into `img`, keeping its colour bytes.
fn restore_alpha(img: &mut PixelBuffer, base: &Vec<u8>)
    requires
        old(img).pixels@.len() == base@.len(),
    ensures
        final(img).width == old(img).width,
        final(img).height == old(img).height,
        final(img).pixels@ == with_alpha_of(old(img).pixels@, base@),
{
    let n = img.pixels.len();
    let mut k: usize = 0;
    while k < n
        invariant
            n == img.pixels@.len(),
            n == base@.len(),
            k <= n,
            img.width == old(img).width,
            img.height == old(img).height,
            old(img).pixels@.len() == n,
            forall|j: int| 0 <= j < n ==> #[trigger] img.pixels@[j] == (
                if j < k && j % 4 == 3 { base@[j] } else { old(img).pixels@[j] }),
        decreases n - k,
    {
        if k % 4 == 3 {
            img.pixels.set(k, base[k]);
        }
        k = k + 1;
    }
    assert(img.pixels@ =~= with_alpha_of(old(img).pixels@, base@));
}

/// The bytes of a raster once `text` is drawn on it with glyphs of `font`;
/// its alpha channel is kept. Text that does not fit (see `glyph_fits`, as
/// on a canvas under `FONT_SIZE + BOTTOM_PADDING` rows) is not drawn.
pub open spec fn glyph_text_result(img: Raster, text: &str, font: Seq<u8>) -> Seq<u8> {
    let (tw, th) = text_size_of(font, text@, FONT_SIZE);
    if glyph_fits(img.width as int, img.height as int, tw as int, th as int) {
        with_alpha_of(
            glyphs_drawn(img.pixels, img.width, img.height, font, glyph_left(img.width as int, tw as int) as i32,
                glyph_top(img.height as int) as i32, FONT_SIZE, text@, TEXT_GRAY, TEXT_ALPHA),
            img.pixels,
        )
    } else {
        img.pixels
    }
}

/// Writes `text` along the bottom of the raster in translucent grey: with
/// glyphs of the font in `font_data` when it parses, else as blocks. Only
/// colour channels change; empty text leaves the raster as it was.
pub fn add_text_watermark(img: &mut PixelBuffer, text: &str, font_data: &[u8])
    requires
        old(img).wf(),
    ensures
        final(img).width == old(img).width,
        final(img).height == old(img).height,
        final(img).wf(),
        text@.len() == 0 ==> final(img).pixels@ == old(img).pixels@,
        text@.len() > 0 && font_parses(font_data@) ==> final(img).pixels@ == glyph_text_result(old(img)@, text, font_data@),
        text@.len() > 0 && !font_parses(font_data@) ==> forall|x: int, y: int, c: int|
            in_raster(old(img).width as int, old(img).height as int, x, y, c)
                ==> #[trigger] final(img).at(x, y, c) as int
                    == block_text_at(old(img).width as int, old(img).height as int, text, x, y, c, old(img).at(x, y, c) as int),
{
    if text.is_empty() {
        return;
    }
    if font_is_valid(font_data) {
        let (text_width, text_height) = measure_text(font_data, text, FONT_SIZE);
        if let Some((x, y)) = glyph_origin(img.width, img.height, text_width, text_height) {
            let base = img.pixels.clone();
            draw_glyphs(img, font_data, x, y, FONT_SIZE, text, TEXT_GRAY, TEXT_ALPHA);
            restore_alpha(img, &base);
        }
    } else {
        draw_fallback_text(img, text);
    }
}

} // verus!
