//! Where the stamp goes on a canvas and how large it is drawn.
use vstd::prelude::*;
use vstd::arithmetic::div_mod::{lemma_div_is_ordered, lemma_div_by_multiple};

verus! {

/// How the stamp is fitted to the canvas.
#[derive(Clone, Copy, Debug, PartialEq, Eq, Structural)]
pub enum FitPolicy {
    /// Scale until the stamp covers the whole canvas; what overflows is clipped.
    Cover,
    /// Scale until the stamp fits inside the canvas less the given margin on each side.
    ContainWithPadding(u32),
}

/// Size of the scaled stamp and the canvas position of its top-left corner.
#[derive(Clone, Copy, Debug, PartialEq, Eq, Structural)]
pub struct Placement {
    pub scaled_w: u32,
    pub scaled_h: u32,
    pub offset_x: i64,
    pub offset_y: i64,
}

/// `a - b`, or zero when `b` exceeds `a`.
pub open spec fn sat_sub(a: int, b: int) -> int {
    if a >= b { a - b } else { 0 }
}

/// Room left inside a canvas side once a margin is taken off both ends.
pub open spec fn available(canvas: int, padding: int) -> int {
    sat_sub(canvas, 2 * padding)
}

/// The scale factor of a policy, as the fraction `num / den`.
pub open spec fn scale_of(cw: int, ch: int, sw: int, sh: int, policy: FitPolicy) -> (int, int) {
    match policy {
        // the larger of cw / sw and ch / sh
        FitPolicy::Cover => if cw * sh >= ch * sw { (cw, sw) } else { (ch, sh) },
        // the smaller of aw / sw and ah / sh
        FitPolicy::ContainWithPadding(p) => {
            let aw = available(cw, p as int);
            let ah = available(ch, p as int);
            if aw * sh <= ah * sw { (aw, sw) } else { (ah, sh) }
        },
    }
}

/// A stamp side times `num / den`, rounded toward zero and saturated at `u32::MAX`.
pub open spec fn scaled_dim(d: int, num: int, den: int) -> int {
    let v = d * num / den;
    if v > u32::MAX { u32::MAX as int } else { v }
}

/// The offset that centres `size` over `canvas`; negative when the stamp is
/// the larger, and rounded toward zero either way.
pub open spec fn center_offset(canvas: int, size: int) -> int {
    if size <= canvas { (canvas - size) / 2 } else { -((size - canvas) / 2) }
}

/// The placement of a `sw` by `sh` stamp on a `cw` by `ch` canvas.
pub open spec fn placement_of(cw: int, ch: int, sw: int, sh: int, policy: FitPolicy) -> Placement {
    let (num, den) = scale_of(cw, ch, sw, sh, policy);
    let w = scaled_dim(sw, num, den);
    let h = scaled_dim(sh, num, den);
    Placement {
        scaled_w: w as u32,
        scaled_h: h as u32,
        offset_x: center_offset(cw, w) as i64,
        offset_y: center_offset(ch, h) as i64,
    }
}

fn mul_wide(a: u32, b: u32) -> (r: u64)
    ensures
        r == a as int * b as int,
{
    assert(a as int * b as int <= u32::MAX as int * u32::MAX as int) by (nonlinear_arith)
        requires a <= u32::MAX, b <= u32::MAX, a >= 0, b >= 0;
    a as u64 * b as u64
}

fn scale_side(d: u32, num: u32, den: u32) -> (r: u32)
    requires
        den > 0,
    ensures
        r == scaled_dim(d as int, num as int, den as int),
{
    let v: u64 = mul_wide(d, num) / den as u64;
    if v > u32::MAX as u64 { u32::MAX } else { v as u32 }
}

fn centre(canvas: u32, size: u32) -> (r: i64)
    ensures
        r == center_offset(canvas as int, size as int),
{
    if size <= canvas {
        ((canvas - size) / 2) as i64
    } else {
        -(((size - canvas) / 2) as i64)
    }
}

fn avail(canvas: u32, padding: u32) -> (r: u32)
    ensures
        r == available(canvas as int, padding as int),
{
    let twice: u64 = 2 * padding as u64;
    if canvas as u64 >= twice { (canvas as u64 - twice) as u32 } else { 0 }
}

/// Scale factor and position of a stamp on a canvas under a fit policy.
pub fn compute_placement(canvas_w: u32, canvas_h: u32, stamp_w: u32, stamp_h: u32, policy: FitPolicy) -> (r: Placement)
    requires
        stamp_w > 0,
        stamp_h > 0,
    ensures
        r == placement_of(canvas_w as int, canvas_h as int, stamp_w as int, stamp_h as int, policy),
{
    let (num, den) = match policy {
        FitPolicy::Cover => {
            if mul_wide(canvas_w, stamp_h) >= mul_wide(canvas_h, stamp_w) {
                (canvas_w, stamp_w)
            } else {
                (canvas_h, stamp_h)
            }
        },
        FitPolicy::ContainWithPadding(p) => {
            let aw = avail(canvas_w, p);
            let ah = avail(canvas_h, p);
            if mul_wide(aw, stamp_h) <= mul_wide(ah, stamp_w) {
                (aw, stamp_w)
            } else {
                (ah, stamp_h)
            }
        },
    };
    let w = scale_side(stamp_w, num, den);
    let h = scale_side(stamp_h, num, den);
    Placement { scaled_w: w, scaled_h: h, offset_x: centre(canvas_w, w), offset_y: centre(canvas_h, h) }
}

proof fn lemma_exact_side(d: int, num: int)
    requires
        d > 0,
        0 <= num <= u32::MAX,
    ensures
        scaled_dim(d, num, d) == num,
{
    assert(d * num == num * d) by (nonlinear_arith);
    lemma_div_by_multiple(num, d);
}

proof fn lemma_other_side_at_least(d: int, num: int, den: int, target: int)
    requires
        den > 0,
        0 <= target <= u32::MAX,
        d * num >= target * den,
    ensures
        scaled_dim(d, num, den) >= target,
{
    lemma_div_is_ordered(target * den, d * num, den);
    lemma_div_by_multiple(target, den);
}

proof fn lemma_other_side_at_most(d: int, num: int, den: int, target: int)
    requires
        den > 0,
        0 <= target,
        d * num <= target * den,
    ensures
        scaled_dim(d, num, den) <= target,
{
    lemma_div_is_ordered(d * num, target * den, den);
    lemma_div_by_multiple(target, den);
}

/// Under the cover policy the scaled stamp reaches every edge of the canvas:
/// both its sides are at least the canvas's.
pub proof fn lemma_cover_fills_canvas(cw: u32, ch: u32, sw: u32, sh: u32)
    requires
        sw > 0,
        sh > 0,
    ensures
        placement_of(cw as int, ch as int, sw as int, sh as int, FitPolicy::Cover).scaled_w >= cw,
        placement_of(cw as int, ch as int, sw as int, sh as int, FitPolicy::Cover).scaled_h >= ch,
{
    let (cw, ch, sw, sh) = (cw as int, ch as int, sw as int, sh as int);
    if cw * sh >= ch * sw {
        lemma_exact_side(sw, cw);
        assert(sh * cw == cw * sh) by (nonlinear_arith);
        lemma_other_side_at_least(sh, cw, sw, ch);
    } else {
        lemma_exact_side(sh, ch);
        assert(sw * ch == ch * sw) by (nonlinear_arith);
        assert(cw * sh == sh * cw) by (nonlinear_arith);
        lemma_other_side_at_least(sw, ch, sh, cw);
    }
}

/// Under the contain policy with margin `p` the scaled stamp fits inside the
/// canvas less `p` on each side, and both offsets are non-negative.
pub proof fn lemma_contain_fits_canvas(cw: u32, ch: u32, sw: u32, sh: u32, p: u32)
    requires
        sw > 0,
        sh > 0,
    ensures
        ({
            let r = placement_of(cw as int, ch as int, sw as int, sh as int, FitPolicy::ContainWithPadding(p));
            &&& r.scaled_w <= available(cw as int, p as int)
            &&& r.scaled_h <= available(ch as int, p as int)
            &&& cw > 2 * p ==> r.scaled_w <= cw - 2 * p
            &&& ch > 2 * p ==> r.scaled_h <= ch - 2 * p
            &&& r.offset_x >= 0
            &&& r.offset_y >= 0
        }),
{
    let (sw, sh) = (sw as int, sh as int);
    let aw = available(cw as int, p as int);
    let ah = available(ch as int, p as int);
    if aw * sh <= ah * sw {
        lemma_exact_side(sw, aw);
        assert(sh * aw == aw * sh) by (nonlinear_arith);
        lemma_other_side_at_most(sh, aw, sw, ah);
    } else {
        lemma_exact_side(sh, ah);
        assert(sw * ah == ah * sw) by (nonlinear_arith);
        lemma_other_side_at_most(sw, ah, sh, aw);
    }
}

} // verus!
