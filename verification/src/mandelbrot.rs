//! The renderer's view state and the entry points of a frame.

use vstd::prelude::*;
use std::cmp::Ordering;
use crate::frame::{Delivery, FrameRender};
use crate::image::blank_grid;
use crate::mapper::{
    pixel_step, pixel_to_plane, Fraction, PlaneOffset, ASPECT_X_DEN, ASPECT_X_NUM, ASPECT_Y_DEN,
    ASPECT_Y_NUM,
};

verus! {

/// The view of the plane that is rendered: `offset` is the plane point shown
/// at the centre of the image, `zoom` the positive scale factor, `max_iter`
/// the iteration budget of every pixel. `C` is the backend's complex number
/// and `R` its real number.
pub struct Mandelbrot<C, R> {
    pub max_iter: usize,
    pub offset: C,
    pub zoom: R,
    /// Number of workers that render the rows of a frame.
    pub thread_count: usize,
}

/// The exact offset of pixel `index` from the centre of an axis of `extent`
/// pixels, scaled by the plane units `num / den` that the axis shows.
fn offset_on_axis(num: u32, den: u32, index: u32, extent: u32) -> (offset: Fraction)
    requires
        num <= 5,
        den <= 2,
    ensures
        offset.numerator == num * (2 * index - extent),
        offset.denominator == den * 2 * extent,
{
    let centered: i64 = 2 * (index as i64) - (extent as i64);
    let doubled: u64 = 2 * (extent as u64);
    assert(-0x5_0000_0000 <= num * centered <= 0xa_0000_0000) by (nonlinear_arith)
        requires
            0 <= num <= 5,
            -0x1_0000_0000 <= centered <= 0x2_0000_0000,
    ;
    assert(0 <= den * doubled <= 0x4_0000_0000 && den * doubled == den * 2 * extent)
        by (nonlinear_arith)
        requires
            0 <= den <= 2,
            0 <= doubled <= 0x2_0000_0000,
            doubled == 2 * extent,
    ;
    Fraction { numerator: (num as i64) * centered, denominator: (den as u64) * doubled }
}

/// The exact distance between neighbouring pixels of an axis of `extent`
/// pixels that shows `num / den` plane units.
fn step_on_axis(num: u32, den: u32, extent: u32) -> (step: Fraction)
    requires
        den <= 2,
    ensures
        step.numerator == num,
        step.denominator == den * extent,
{
    assert(0 <= den * extent <= 0x2_0000_0000) by (nonlinear_arith)
        requires
            0 <= den <= 2,
            0 <= extent <= 0xffff_ffff,
    ;
    Fraction { numerator: num as i64, denominator: (den as u64) * (extent as u64) }
}

impl<C, R> Mandelbrot<C, R> {
    /// Makes a renderer with the given view, for a pool of `num_cpu`
    /// workers.
    pub fn new(max_iter: usize, offset: C, zoom: R, num_cpu: usize) -> (renderer: Mandelbrot<C, R>)
        ensures
            renderer.max_iter == max_iter,
            renderer.offset == offset,
            renderer.zoom == zoom,
            renderer.thread_count == num_cpu,
    {
        Mandelbrot { max_iter, offset, zoom, thread_count: num_cpu }
    }

    /// Moves the centre of the view to `p`.
    pub fn set_focus(&mut self, p: C)
        ensures
            final(self).offset == p,
            final(self).zoom == old(self).zoom,
            final(self).max_iter == old(self).max_iter,
            final(self).thread_count == old(self).thread_count,
    {
        self.offset = p;
    }

    /// Replaces the zoom.
    pub fn set_zoom(&mut self, zoom: R)
        ensures
            final(self).zoom == zoom,
            final(self).offset == old(self).offset,
            final(self).max_iter == old(self).max_iter,
            final(self).thread_count == old(self).thread_count,
    {
        self.zoom = zoom;
    }

    /// Multiplies the zoom by a factor, unless that would leave the zoom
    /// zero, negative or undefined. `scaled` is the product of the zoom and
    /// the factor, `sign` how that product compares with zero (`None` where
    /// it does not compare). The product becomes the zoom when it is
    /// greater than zero; in every other case the zoom stays as it is.
    pub fn change_zoom_by(&mut self, scaled: R, sign: Option<Ordering>)
        ensures
            final(self).zoom == (if sign == Some(Ordering::Greater) {
                scaled
            } else {
                old(self).zoom
            }),
            final(self).offset == old(self).offset,
            final(self).max_iter == old(self).max_iter,
            final(self).thread_count == old(self).thread_count,
    {
        match sign {
            Some(Ordering::Greater) => {
                self.zoom = scaled;
            },
            _ => {},
        }
    }

    /// Where the pixel in column `p.0` of row `p.1` lies relative to the
    /// focus, at zoom 1, for an image of `image_dims.0` by `image_dims.1`
    /// pixels. The plane point of the pixel is the focus plus this offset
    /// divided by the zoom.
    pub fn image_coords_to_mandelbrot_coords(&self, p: (u32, u32), image_dims: (u32, u32)) -> (offset:
        PlaneOffset)
        ensures
            offset == pixel_to_plane(p, image_dims),
    {
        PlaneOffset {
            re: offset_on_axis(ASPECT_X_NUM, ASPECT_X_DEN, p.0, image_dims.0),
            im: offset_on_axis(ASPECT_Y_NUM, ASPECT_Y_DEN, p.1, image_dims.1),
        }
    }

    /// The offset between neighbouring pixels at zoom 1: its real part leads
    /// from one column to the next, its imaginary part from one row to the
    /// next. The step in the plane is this offset divided by the zoom.
    pub fn get_pixel_diff(&self, image_dims: (u32, u32)) -> (step: PlaneOffset)
        ensures
            step == pixel_step(image_dims),
    {
        PlaneOffset {
            re: step_on_axis(ASPECT_X_NUM, ASPECT_X_DEN, image_dims.0),
            im: step_on_axis(ASPECT_Y_NUM, ASPECT_Y_DEN, image_dims.1),
        }
    }

    /// Begins the frame of the current view: an image of `image_dims.0` by
    /// `image_dims.1` pixels, still black, for whose rows the jobs are then
    /// handed out with the current iteration budget.
    pub fn generate_image(&self, image_dims: (u32, u32)) -> (frame: FrameRender)
        ensures
            frame.wf(),
            frame.width() == image_dims.0,
            frame.height() == image_dims.1,
            frame.max_iter() == self.max_iter,
            frame.submitted() == 0,
            frame.deliveries() == Seq::<Delivery>::empty(),
            frame.image() == blank_grid(image_dims.0 as nat, image_dims.1 as nat),
    {
        FrameRender::new(image_dims, self.max_iter)
    }
}

} // verus!
