use vstd::prelude::*;
use vstd::arithmetic::div_mod::{
    lemma_div_nonincreasing, lemma_div_pos_is_pos, lemma_fundamental_div_mod,
    lemma_fundamental_div_mod_converse, lemma_mod_division_less_than_divisor,
};
use vstd::arithmetic::mul::{lemma_mul_is_commutative, lemma_mul_nonnegative};
use crate::types::{PixelBox, RawBox, FRACTION_UNIT};

verus! {

/// `v` clamped to what a `u32` can hold, as the executable conversions do.
pub open spec fn cap_u32(v: int) -> int {
    if v > u32::MAX as int {
        u32::MAX as int
    } else {
        v
    }
}

/// Length of one image side after letterbox scaling by `target / max_side`.
pub open spec fn spec_scaled(side: int, target: int, max_side: int) -> int {
    side * target / max_side
}

/// An input-space coordinate taken back to original-image pixels:
/// `(c - pad) / scale` with the scale `target / max_side`, clamped at zero
/// below and at `u32::MAX` above.
pub open spec fn spec_to_original(c: int, pad: int, target: int, max_side: int) -> int {
    if c <= pad {
        0
    } else {
        cap_u32((c - pad) * max_side / target)
    }
}

/// A span between two input-space coordinates taken back to original-image
/// pixels; an inverted span collapses to zero.
pub open spec fn spec_span_to_original(a: int, b: int, target: int, max_side: int) -> int {
    if b <= a {
        0
    } else {
        cap_u32((b - a) * max_side / target)
    }
}

/// An original-image coordinate taken forward into the detector's input
/// space: `c * scale + pad`.
pub open spec fn spec_to_input(c: int, pad: int, target: int, max_side: int) -> int {
    cap_u32(c * target / max_side + pad)
}

/// How many pixels of padding a side of `len` pixels gains on each edge for
/// a padding fraction given in thousandths.
pub open spec fn spec_pad_amount(len: int, padding: int) -> int {
    len * padding / FRACTION_UNIT as int
}

/// The letterbox of an image onto a square canvas: the longer side scales to
/// `target` exactly, the shorter in proportion, and the scaled image sits
/// centered behind `pad_x`/`pad_y` of fill. The scale factor is the rational
/// `target / max_side`.
pub struct Letterbox {
    pub target: u32,
    pub max_side: u32,
    pub scaled_w: u32,
    pub scaled_h: u32,
    pub pad_x: u32,
    pub pad_y: u32,
}

impl Letterbox {
    pub open spec fn wf(self) -> bool {
        &&& 1 <= self.target
        &&& 1 <= self.max_side
        &&& self.scaled_w <= self.target
        &&& self.scaled_h <= self.target
        &&& self.pad_x == (self.target - self.scaled_w) / 2
        &&& self.pad_y == (self.target - self.scaled_h) / 2
    }

    /// An input-space x back to an original-image x.
    pub fn to_original_x(&self, c: u32) -> (r: u32)
        requires
            self.wf(),
        ensures
            r == spec_to_original(c as int, self.pad_x as int, self.target as int, self.max_side as int),
    {
        shrink_coord(c, self.pad_x, self.target, self.max_side)
    }

    /// An input-space y back to an original-image y.
    pub fn to_original_y(&self, c: u32) -> (r: u32)
        requires
            self.wf(),
        ensures
            r == spec_to_original(c as int, self.pad_y as int, self.target as int, self.max_side as int),
    {
        shrink_coord(c, self.pad_y, self.target, self.max_side)
    }

    /// An original-image x forward into input space.
    pub fn to_input_x(&self, c: u32) -> (r: u32)
        requires
            self.wf(),
        ensures
            r == spec_to_input(c as int, self.pad_x as int, self.target as int, self.max_side as int),
    {
        grow_coord(c, self.pad_x, self.target, self.max_side)
    }

    /// An original-image y forward into input space.
    pub fn to_input_y(&self, c: u32) -> (r: u32)
        requires
            self.wf(),
        ensures
            r == spec_to_input(c as int, self.pad_y as int, self.target as int, self.max_side as int),
    {
        grow_coord(c, self.pad_y, self.target, self.max_side)
    }
}

pub(crate) proof fn lemma_mul_le(a: int, b: int, x: int, y: int)
    by (nonlinear_arith)
    requires
        0 <= a <= x,
        0 <= b <= y,
    ensures
        a * b <= x * y,
{
}

/// Divide an input-space coordinate's distance from the pad back out by the
/// scale; clamps below at zero and above at `u32::MAX`.
fn shrink_coord(c: u32, pad: u32, target: u32, max_side: u32) -> (r: u32)
    requires
        1 <= target,
    ensures
        r == spec_to_original(c as int, pad as int, target as int, max_side as int),
{
    if c <= pad {
        0
    } else {
        let d: u64 = (c - pad) as u64;
        proof {
            lemma_mul_le(d as int, max_side as int, u32::MAX as int, u32::MAX as int);
        }
        let v: u64 = d * (max_side as u64) / (target as u64);
        if v > u32::MAX as u64 {
            u32::MAX
        } else {
            v as u32
        }
    }
}

/// Multiply an original-image coordinate by the scale and add the pad;
/// clamps above at `u32::MAX`.
fn grow_coord(c: u32, pad: u32, target: u32, max_side: u32) -> (r: u32)
    requires
        1 <= max_side,
    ensures
        r == spec_to_input(c as int, pad as int, target as int, max_side as int),
{
    proof {
        lemma_mul_le(c as int, target as int, u32::MAX as int, u32::MAX as int);
    }
    let p: u64 = (c as u64) * (target as u64);
    let v: u64 = p / (max_side as u64);
    proof {
        lemma_div_nonincreasing(p as int, max_side as int);
    }
    let s: u64 = v + (pad as u64);
    if s > u32::MAX as u64 {
        u32::MAX
    } else {
        s as u32
    }
}

/// The letterbox geometry for an image of `orig_w` by `orig_h` pixels on a
/// square canvas of `target_size`: the canvas is exactly `target_size` by
/// `target_size`, the pads are nonnegative, and twice a pad plus the scaled
/// side misses `target_size` by at most the one pixel that centering an odd
/// remainder costs.
pub fn letterbox_resize(orig_w: u32, orig_h: u32, target_size: u32) -> (lb: Letterbox)
    requires
        1 <= orig_w,
        1 <= orig_h,
        1 <= target_size,
    ensures
        lb.wf(),
        lb.target == target_size,
        lb.max_side == if orig_w > orig_h { orig_w as int } else { orig_h as int },
        lb.scaled_w == spec_scaled(orig_w as int, target_size as int, lb.max_side as int),
        lb.scaled_h == spec_scaled(orig_h as int, target_size as int, lb.max_side as int),
        orig_w >= orig_h ==> lb.scaled_w == target_size,
        orig_h >= orig_w ==> lb.scaled_h == target_size,
        target_size as int - 1 <= 2 * lb.pad_x + lb.scaled_w <= target_size,
        target_size as int - 1 <= 2 * lb.pad_y + lb.scaled_h <= target_size,
{
    let max_side = if orig_w > orig_h { orig_w } else { orig_h };
    let scaled_w = scale_side(orig_w, target_size, max_side);
    let scaled_h = scale_side(orig_h, target_size, max_side);
    let pad_x = (target_size - scaled_w) / 2;
    let pad_y = (target_size - scaled_h) / 2;
    Letterbox { target: target_size, max_side, scaled_w, scaled_h, pad_x, pad_y }
}

/// One side scaled by `target / max_side`; exact (and equal to `target`)
/// when the side is the longer one.
fn scale_side(side: u32, target: u32, max_side: u32) -> (r: u32)
    requires
        1 <= max_side,
        side <= max_side,
        1 <= target,
    ensures
        r == spec_scaled(side as int, target as int, max_side as int),
        r <= target,
        side == max_side ==> r == target,
{
    proof {
        lemma_mul_le(side as int, target as int, u32::MAX as int, u32::MAX as int);
    }
    let p: u64 = (side as u64) * (target as u64);
    let r: u64 = p / (max_side as u64);
    proof {
        let s = side as int;
        let t = target as int;
        let m = max_side as int;
        assert(s * t <= m * t) by {
            vstd::arithmetic::mul::lemma_mul_inequality(s, m, t);
        }
        assert((m * t) / m == t) by {
            vstd::arithmetic::div_mod::lemma_div_multiples_vanish(t, m);
        }
        assert((s * t) / m <= (m * t) / m) by {
            vstd::arithmetic::div_mod::lemma_div_is_ordered(s * t, m * t, m);
        }
    }
    r as u32
}

/// A raw detector box mapped back into original-image pixels: each corner
/// coordinate loses the pad and divides out the scale, and the corner span
/// becomes the width or height. Confidence and class ride along unchanged.
pub fn scale_bbox(raw: &RawBox, lb: &Letterbox) -> (pb: PixelBox)
    requires
        lb.wf(),
    ensures
        pb.x == spec_to_original(raw.left as int, lb.pad_x as int, lb.target as int, lb.max_side as int),
        pb.y == spec_to_original(raw.top as int, lb.pad_y as int, lb.target as int, lb.max_side as int),
        pb.width == spec_span_to_original(raw.left as int, raw.right as int, lb.target as int, lb.max_side as int),
        pb.height == spec_span_to_original(raw.top as int, raw.bottom as int, lb.target as int, lb.max_side as int),
{
    let x = shrink_coord(raw.left, lb.pad_x, lb.target, lb.max_side);
    let y = shrink_coord(raw.top, lb.pad_y, lb.target, lb.max_side);
    let width = shrink_span(raw.left, raw.right, lb.target, lb.max_side);
    let height = shrink_span(raw.top, raw.bottom, lb.target, lb.max_side);
    PixelBox { x, y, width, height }
}

fn shrink_span(a: u32, b: u32, target: u32, max_side: u32) -> (r: u32)
    requires
        1 <= target,
    ensures
        r == spec_span_to_original(a as int, b as int, target as int, max_side as int),
{
    if b <= a {
        0
    } else {
        let d: u64 = (b - a) as u64;
        proof {
            lemma_mul_le(d as int, max_side as int, u32::MAX as int, u32::MAX as int);
        }
        let v: u64 = d * (max_side as u64) / (target as u64);
        if v > u32::MAX as u64 {
            u32::MAX
        } else {
            v as u32
        }
    }
}

/// The crop rectangle around `b`: each side grown by `padding` thousandths
/// of its own length, clamped at the image's top-left corner and clipped to
/// the image's extent.
pub open spec fn spec_crop_rect(b: PixelBox, img_w: int, img_h: int, padding: int) -> PixelBox {
    let px = spec_pad_amount(b.width as int, padding);
    let py = spec_pad_amount(b.height as int, padding);
    let x = clamp_low(b.x as int, px);
    let y = clamp_low(b.y as int, py);
    PixelBox {
        x: x as u32,
        y: y as u32,
        width: spec_clipped_span(x, b.width as int + 2 * px, img_w) as u32,
        height: spec_clipped_span(y, b.height as int + 2 * py, img_h) as u32,
    }
}

/// The region to cut out around a detected box before the refinement pass:
/// the box grows by `padding` thousandths of its own side on each edge,
/// clamped at the image's top-left corner and clipped to its extent, so the
/// crop never leaves the image. Returns the crop rectangle; its `x`/`y` are
/// also the offset that re-anchors refined detections in the full image.
pub fn crop_with_padding(img_w: u32, img_h: u32, bx: &PixelBox, padding: u32) -> (r: PixelBox)
    requires
        bx.x < img_w,
        bx.y < img_h,
    ensures
        r == spec_crop_rect(*bx, img_w as int, img_h as int, padding as int),
        r.x <= bx.x && r.y <= bx.y,
        r.x + r.width <= img_w,
        r.y + r.height <= img_h,
{
    let x = padded_origin(bx.x, bx.width, padding);
    let y = padded_origin(bx.y, bx.height, padding);
    let width = clipped_span(x, bx.width, padding, img_w);
    let height = clipped_span(y, bx.height, padding, img_h);
    PixelBox { x, y, width, height }
}

/// `c` pushed down by `pad`, stopping at zero.
pub open spec fn clamp_low(c: int, pad: int) -> int {
    if c <= pad {
        0
    } else {
        c - pad
    }
}

/// The wanted padded span, cut off at the image edge.
pub open spec fn spec_clipped_span(origin: int, want: int, extent: int) -> int {
    if want <= extent - origin {
        want
    } else {
        extent - origin
    }
}

fn padded_origin(c: u32, len: u32, padding: u32) -> (r: u32)
    ensures
        r == clamp_low(c as int, spec_pad_amount(len as int, padding as int)),
        r <= c,
{
    proof {
        lemma_mul_le(len as int, padding as int, u32::MAX as int, u32::MAX as int);
    }
    let pad: u64 = (len as u64) * (padding as u64) / (FRACTION_UNIT as u64);
    if (c as u64) <= pad {
        0
    } else {
        c - (pad as u32)
    }
}

fn clipped_span(origin: u32, len: u32, padding: u32, extent: u32) -> (r: u32)
    requires
        origin < extent,
    ensures
        r == spec_clipped_span(
            origin as int,
            len as int + 2 * spec_pad_amount(len as int, padding as int),
            extent as int,
        ),
        origin + r <= extent,
{
    proof {
        lemma_mul_le(len as int, padding as int, u32::MAX as int, u32::MAX as int);
    }
    let pad: u64 = (len as u64) * (padding as u64) / (FRACTION_UNIT as u64);
    let want: u64 = (len as u64) + 2 * pad;
    let room: u64 = (extent - origin) as u64;
    if want <= room {
        want as u32
    } else {
        room as u32
    }
}

/// Round trip in one coordinate: a coordinate in the detector's input space,
/// sent to original-image pixels and forward again with the same pad and
/// scale, comes back at most one pixel low. Holds whenever the image is at
/// least as large as the canvas (`target <= max_side`); a smaller image has
/// a scale above one and can lose more than a pixel to truncation.
pub proof fn lemma_coord_round_trip(c: int, pad: int, target: int, max_side: int)
    requires
        1 <= target,
        target <= max_side,
        pad <= c,
    ensures
        ({
            let x = (c - pad) * max_side / target;
            let back = x * target / max_side + pad;
            back <= c && c - 1 <= back
        }),
{
    let a = c - pad;
    let x = a * max_side / target;
    lemma_mul_nonnegative(a, max_side);
    lemma_fundamental_div_mod(a * max_side, target);
    lemma_mod_division_less_than_divisor(a * max_side, target);
    let r = (a * max_side) % target;
    assert(a * max_side == target * x + r);
    lemma_div_pos_is_pos(a * max_side, target);
    lemma_mul_is_commutative(target, x);
    assert(x * target == a * max_side - r);
    if r == 0 {
        lemma_mul_is_commutative(a, max_side);
        assert((max_side * a) / max_side == a) by {
            vstd::arithmetic::div_mod::lemma_div_multiples_vanish(a, max_side);
        }
        assert(x * target / max_side == a);
    } else {
        assert(x * target == (a - 1) * max_side + (max_side - r)) by {
            lemma_mul_is_commutative(a - 1, max_side);
            vstd::arithmetic::mul::lemma_mul_is_distributive_sub(max_side, a, 1);
            assert(max_side * 1 == max_side);
        }
        lemma_fundamental_div_mod_converse(x * target, max_side, a - 1, max_side - r);
        assert(x * target / max_side == a - 1);
    }
}

} // verus!
