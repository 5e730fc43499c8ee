//! Exact geometry of the view: where a pixel lies relative to the focus.
//!
//! The plane point shown at a pixel is `focus + offset / zoom`, where the
//! offset depends on the pixel and the image size alone. The offsets are
//! fractions of small integers, so they are given exactly; dividing by the
//! zoom and adding the focus is the numeric backend's part.

use vstd::prelude::*;

verus! {

/// Width of the plane shown at zoom 1, as the fraction
/// `ASPECT_X_NUM / ASPECT_X_DEN`: two and a half units.
pub const ASPECT_X_NUM: u32 = 5;

pub const ASPECT_X_DEN: u32 = 2;

/// Height of the plane shown at zoom 1, as the fraction
/// `ASPECT_Y_NUM / ASPECT_Y_DEN`: one and a half units.
pub const ASPECT_Y_NUM: u32 = 3;

pub const ASPECT_Y_DEN: u32 = 2;

/// The exact value `numerator / denominator`. A zero denominator comes from
/// an image without extent along that axis.
#[derive(Clone, Copy, Debug, PartialEq, Eq, Structural)]
pub struct Fraction {
    pub numerator: i64,
    pub denominator: u64,
}

/// A displacement in the plane at zoom 1: real and imaginary part.
#[derive(Clone, Copy, Debug, PartialEq, Eq, Structural)]
pub struct PlaneOffset {
    pub re: Fraction,
    pub im: Fraction,
}

/// Offset along one axis of the pixel with the given index, for an image of
/// `extent` pixels that shows `aspect_num / aspect_den` plane units along
/// that axis: `(aspect_num / aspect_den) * (index - extent / 2) / extent`.
pub open spec fn axis_offset(aspect_num: u32, aspect_den: u32, index: u32, extent: u32) -> Fraction {
    Fraction {
        numerator: (aspect_num * (2 * index - extent)) as i64,
        denominator: (aspect_den * 2 * extent) as u64,
    }
}

/// Offset along one axis between one pixel and the next:
/// `(aspect_num / aspect_den) / extent`.
pub open spec fn axis_step(aspect_num: u32, aspect_den: u32, extent: u32) -> Fraction {
    Fraction { numerator: aspect_num as i64, denominator: (aspect_den * extent) as u64 }
}

/// Offset from the focus of the pixel in column `p.0` of row `p.1`, in an
/// image of `dims.0` by `dims.1` pixels.
pub open spec fn pixel_to_plane(p: (u32, u32), dims: (u32, u32)) -> PlaneOffset {
    PlaneOffset {
        re: axis_offset(ASPECT_X_NUM, ASPECT_X_DEN, p.0, dims.0),
        im: axis_offset(ASPECT_Y_NUM, ASPECT_Y_DEN, p.1, dims.1),
    }
}

/// Offset between neighbouring pixels: the real part from one column to the
/// next, the imaginary part from one row to the next.
pub open spec fn pixel_step(dims: (u32, u32)) -> PlaneOffset {
    PlaneOffset {
        re: axis_step(ASPECT_X_NUM, ASPECT_X_DEN, dims.0),
        im: axis_step(ASPECT_Y_NUM, ASPECT_Y_DEN, dims.1),
    }
}

/// The offsets hold their integers without wrapping: the real offset of
/// column `x` in a row of `w` pixels is `5 * (2x - w) / (4w)`, the imaginary
/// offset of row `y` among `h` rows is `3 * (2y - h) / (4h)`, and the steps
/// are `5 / (2w)` and `3 / (2h)`.
pub proof fn lemma_offsets_exact(p: (u32, u32), dims: (u32, u32))
    ensures
        pixel_to_plane(p, dims).re.numerator == 5 * (2 * p.0 - dims.0),
        pixel_to_plane(p, dims).re.denominator == 4 * dims.0,
        pixel_to_plane(p, dims).im.numerator == 3 * (2 * p.1 - dims.1),
        pixel_to_plane(p, dims).im.denominator == 4 * dims.1,
        pixel_step(dims).re.numerator == 5,
        pixel_step(dims).re.denominator == 2 * dims.0,
        pixel_step(dims).im.numerator == 3,
        pixel_step(dims).im.denominator == 2 * dims.1,
{
}

/// Walking from one pixel to another by whole steps arrives where the
/// mapping puts the second pixel. As fractions over a common denominator:
/// `offset(q) - offset(p) == (q - p) * step`, along each axis.
pub proof fn lemma_steps_reach_pixel(p: (u32, u32), q: (u32, u32), dims: (u32, u32))
    ensures
        ({
            let from = pixel_to_plane(p, dims);
            let to = pixel_to_plane(q, dims);
            let step = pixel_step(dims);
            &&& to.re.denominator == from.re.denominator
            &&& to.im.denominator == from.im.denominator
            &&& (to.re.numerator - from.re.numerator) * step.re.denominator == (q.0 - p.0)
                * step.re.numerator * from.re.denominator
            &&& (to.im.numerator - from.im.numerator) * step.im.denominator == (q.1 - p.1)
                * step.im.numerator * from.im.denominator
        }),
{
    lemma_offsets_exact(p, dims);
    lemma_offsets_exact(q, dims);
    let w = dims.0 as int;
    let h = dims.1 as int;
    let dx = q.0 - p.0;
    let dy = q.1 - p.1;
    assert((10 * dx) * (2 * w) == dx * 5 * (4 * w)) by (nonlinear_arith);
    assert((6 * dy) * (2 * h) == dy * 3 * (4 * h)) by (nonlinear_arith);
}

/// A pixel at the centre of the image lies on the focus.
pub proof fn lemma_center_is_focus(p: (u32, u32), dims: (u32, u32))
    requires
        2 * p.0 == dims.0,
        2 * p.1 == dims.1,
    ensures
        pixel_to_plane(p, dims).re.numerator == 0,
        pixel_to_plane(p, dims).im.numerator == 0,
{
    lemma_offsets_exact(p, dims);
}

} // verus!
