//! Non-premultiplied "over" compositing of one raster onto another.
use vstd::prelude::*;
use vstd::arithmetic::div_mod::lemma_div_by_multiple;
use crate::pixel::{PixelBuffer, Raster, pixel_index, in_raster, index_of, lemma_index_distinct, lemma_index_in_bounds};

verus! {

/// Full opacity in the units of `blend_channel`: alpha 255 times 100 percent.
pub const FULL_WEIGHT: u32 = 25500;

/// One colour channel after blending: `alpha / 255 * opacity / 100` of the
/// overlay over the rest of the base, rounded toward zero.
pub open spec fn blend_channel(base: int, over: int, alpha: int, opacity: int) -> int {
    (base * (25500 - alpha * opacity) + over * (alpha * opacity)) / 25500
}

/// Whether the overlay, with its top-left corner at `(dx, dy)`, lies over base pixel `(x, y)`.
pub open spec fn covers(overlay: Raster, dx: int, dy: int, x: int, y: int) -> bool {
    dx <= x < dx + overlay.width && dy <= y < dy + overlay.height
}

/// Channel `c` of base pixel `(x, y)` once the overlay is blended on at
/// `(dx, dy)` with `opacity` percent: colour channels under the overlay are
/// blended, the rest (alpha included) stay as they were.
pub open spec fn blended_at(base: Raster, overlay: Raster, dx: int, dy: int, opacity: int, x: int, y: int, c: int) -> int {
    if c < 3 && covers(overlay, dx, dy, x, y) {
        blend_channel(
            base.at(x, y, c) as int,
            overlay.at(x - dx, y - dy, c) as int,
            overlay.at(x - dx, y - dy, 3) as int,
            opacity,
        )
    } else {
        base.at(x, y, c) as int
    }
}

/// Blends one colour channel; `opacity` is a percentage.
pub fn blend_value(base: u8, over: u8, alpha: u8, opacity: u32) -> (r: u8)
    requires
        opacity <= 100,
    ensures
        r == blend_channel(base as int, over as int, alpha as int, opacity as int),
{
    assert(alpha as int * opacity as int <= 25500) by (nonlinear_arith)
        requires alpha <= 255, opacity <= 100, alpha >= 0, opacity >= 0;
    let weight: u32 = alpha as u32 * opacity;
    proof {
        assert(weight <= 25500) by (nonlinear_arith)
            requires weight == alpha as int * opacity as int, alpha <= 255, opacity <= 100, alpha >= 0, opacity >= 0;
        assert(base as int * (25500 - weight) + over as int * weight <= 255 * 25500) by (nonlinear_arith)
            requires base <= 255, over <= 255, 0 <= weight <= 25500, base >= 0, over >= 0;
        assert(0 <= base as int * (25500 - weight) + over as int * weight) by (nonlinear_arith)
            requires 0 <= weight <= 25500, base >= 0, over >= 0;
    }
    ((base as u32 * (FULL_WEIGHT - weight) + over as u32 * weight) / FULL_WEIGHT) as u8
}

fn clamp_to(v: i128, hi: u32) -> (r: u32)
    ensures
        r == (if v < 0 { 0 } else if v > hi { hi as int } else { v as int }),
{
    if v < 0 { 0 } else if v > hi as i128 { hi } else { v as u32 }
}

/// Blends `overlay` onto `base` with its top-left corner at
/// `(offset_x, offset_y)` and `opacity` percent; overlay pixels that fall
/// outside `base` are skipped.
pub fn blend_images(base: &mut PixelBuffer, overlay: &PixelBuffer, offset_x: i64, offset_y: i64, opacity: u32)
    requires
        old(base).wf(),
        overlay.wf(),
        opacity <= 100,
    ensures
        final(base).width == old(base).width,
        final(base).height == old(base).height,
        final(base).wf(),
        forall|x: int, y: int, c: int|
            in_raster(old(base).width as int, old(base).height as int, x, y, c)
                ==> #[trigger] final(base).at(x, y, c) as int
                    == blended_at(old(base)@, overlay@, offset_x as int, offset_y as int, opacity as int, x, y, c),
{
    let w = base.width;
    let h = base.height;
    let ow = overlay.width;
    let oh = overlay.height;
    let ghost dx = offset_x as int;
    let ghost dy = offset_y as int;
    let x_lo = clamp_to(offset_x as i128, w);
    let x_hi = clamp_to(offset_x as i128 + ow as i128, w);
    let y_lo = clamp_to(offset_y as i128, h);
    let y_hi = clamp_to(offset_y as i128 + oh as i128, h);
    let mut cy: u32 = y_lo;
    while cy < y_hi
        invariant
            base.width == w,
            base.height == h,
            w == old(base).width,
            h == old(base).height,
            base.wf(),
            overlay.wf(),
            opacity <= 100,
            ow == overlay.width,
            oh == overlay.height,
            dx == offset_x,
            dy == offset_y,
            x_lo == (if dx < 0 { 0 } else if dx > w { w as int } else { dx }),
            x_hi == (if dx + ow < 0 { 0 } else if dx + ow > w { w as int } else { dx + ow }),
            y_lo == (if dy < 0 { 0 } else if dy > h { h as int } else { dy }),
            y_hi == (if dy + oh < 0 { 0 } else if dy + oh > h { h as int } else { dy + oh }),
            y_lo <= cy,
            cy <= y_hi || y_hi < y_lo,
            forall|x: int, y: int, c: int|
                in_raster(w as int, h as int, x, y, c) ==> #[trigger] base.at(x, y, c) as int == (
                    if y < cy { blended_at(old(base)@, overlay@, dx, dy, opacity as int, x, y, c) }
                    else { old(base).at(x, y, c) as int }),
        decreases y_hi - cy,
    {
        let mut cx: u32 = x_lo;
        while cx < x_hi
            invariant
                base.width == w,
                base.height == h,
                w == old(base).width,
                h == old(base).height,
                base.wf(),
                overlay.wf(),
                opacity <= 100,
                ow == overlay.width,
                oh == overlay.height,
                dx == offset_x,
                dy == offset_y,
                x_lo == (if dx < 0 { 0 } else if dx > w { w as int } else { dx }),
                x_hi == (if dx + ow < 0 { 0 } else if dx + ow > w { w as int } else { dx + ow }),
                y_lo == (if dy < 0 { 0 } else if dy > h { h as int } else { dy }),
                y_hi == (if dy + oh < 0 { 0 } else if dy + oh > h { h as int } else { dy + oh }),
                y_lo <= cy < y_hi,
                x_lo <= cx,
                cx <= x_hi || x_hi < x_lo,
                forall|x: int, y: int, c: int|
                    in_raster(w as int, h as int, x, y, c) ==> #[trigger] base.at(x, y, c) as int == (
                        if y < cy || (y == cy && x < cx) { blended_at(old(base)@, overlay@, dx, dy, opacity as int, x, y, c) }
                        else { old(base).at(x, y, c) as int }),
            decreases x_hi - cx,
        {
            let ox = (cx as i128 - offset_x as i128) as u32;
            let oy = (cy as i128 - offset_y as i128) as u32;
            let bi = index_of(w, h, cx, cy, base.pixels.len());
            let oi = index_of(ow, oh, ox, oy, overlay.pixels.len());
            let alpha = overlay.pixels[oi + 3];
            let ghost before = base.pixels@;
            let ghost prev = *base;
            assert(covers(overlay@, dx, dy, cx as int, cy as int));
            let v0 = blend_value(base.pixels[bi], overlay.pixels[oi], alpha, opacity);
            base.pixels.set(bi, v0);
            let v1 = blend_value(base.pixels[bi + 1], overlay.pixels[oi + 1], alpha, opacity);
            base.pixels.set(bi + 1, v1);
            let v2 = blend_value(base.pixels[bi + 2], overlay.pixels[oi + 2], alpha, opacity);
            base.pixels.set(bi + 2, v2);
            proof {
                assert(base.pixels@ == before.update(bi as int, v0).update(bi + 1, v1).update(bi + 2, v2));
                assert forall|x: int, y: int, c: int|
                    in_raster(w as int, h as int, x, y, c) implies #[trigger] base.at(x, y, c) as int == (
                        if y < cy || (y == cy && x < cx + 1) { blended_at(old(base)@, overlay@, dx, dy, opacity as int, x, y, c) }
                        else { old(base).at(x, y, c) as int }) by {
                    if x != cx || y != cy {
                        lemma_index_distinct(w as int, x, y, c, cx as int, cy as int, 0);
                        lemma_index_distinct(w as int, x, y, c, cx as int, cy as int, 1);
                        lemma_index_distinct(w as int, x, y, c, cx as int, cy as int, 2);
                        lemma_index_in_bounds(w as int, h as int, x, y, c);
                        assert(base.at(x, y, c) == prev.at(x, y, c));
                    } else {
                        assert(prev.at(x, y, c) == old(base).at(x, y, c));
                        assert(x - dx == ox && y - dy == oy);
                        assert(overlay.at(x - dx, y - dy, c) == overlay.pixels@[oi + c]);
                        assert(overlay.at(x - dx, y - dy, 3) == alpha);
                        assert(prev.at(x, y, c) == before[bi + c]);
                    }
                }
            }
            cx = cx + 1;
        }
        cy = cy + 1;
    }
}

/// Blending at zero opacity leaves every channel of the base as it was.
pub proof fn lemma_zero_opacity_keeps_base(base: Raster, overlay: Raster, dx: int, dy: int)
    ensures
        forall|x: int, y: int, c: int| #[trigger] blended_at(base, overlay, dx, dy, 0, x, y, c) == base.at(x, y, c) as int,
{
    assert forall|x: int, y: int, c: int| #[trigger] blended_at(base, overlay, dx, dy, 0, x, y, c) == base.at(x, y, c) as int by {
        let b = base.at(x, y, c) as int;
        let o = overlay.at(x - dx, y - dy, c) as int;
        let a = overlay.at(x - dx, y - dy, 3) as int;
        assert(b * (25500 - a * 0) + o * (a * 0) == b * 25500) by (nonlinear_arith);
        assert(b * 25500 / 25500 == b) by {
            lemma_div_by_multiple(b, 25500);
        }
    }
}

/// Blending a fully opaque overlay pixel at full opacity gives exactly its
/// colour; the base's alpha channel is kept at any opacity.
pub proof fn lemma_full_opacity_replaces_colour(base: Raster, overlay: Raster, dx: int, dy: int, opacity: int, x: int, y: int)
    ensures
        covers(overlay, dx, dy, x, y) && opacity == 100 && overlay.at(x - dx, y - dy, 3) == 255 ==>
            forall|c: int| 0 <= c < 3 ==> #[trigger] blended_at(base, overlay, dx, dy, opacity, x, y, c) == overlay.at(x - dx, y - dy, c) as int,
        blended_at(base, overlay, dx, dy, opacity, x, y, 3) == base.at(x, y, 3) as int,
{
    if covers(overlay, dx, dy, x, y) && opacity == 100 && overlay.at(x - dx, y - dy, 3) == 255 {
        assert forall|c: int| 0 <= c < 3 implies #[trigger] blended_at(base, overlay, dx, dy, opacity, x, y, c) == overlay.at(x - dx, y - dy, c) as int by {
            let o = overlay.at(x - dx, y - dy, c) as int;
            let b = base.at(x, y, c) as int;
            assert(b * (25500 - 255 * 100) + o * (255 * 100) == o * 25500) by (nonlinear_arith);
            lemma_div_by_multiple(o, 25500);
        }
    }
}

} // verus!
