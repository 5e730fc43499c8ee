//! The image buffer: a grid of colours, stored row by row.

use vstd::prelude::*;
use crate::color::{black, Rgb};

verus! {

/// Whether `grid` holds `height` rows of `width` pixels each.
pub open spec fn is_grid(grid: Seq<Seq<Rgb>>, width: nat, height: nat) -> bool {
    &&& grid.len() == height
    &&& forall|y: int| 0 <= y < grid.len() ==> (#[trigger] grid[y]).len() == width
}

/// The grid of the given size in which every pixel is black.
pub open spec fn blank_grid(width: nat, height: nat) -> Seq<Seq<Rgb>> {
    Seq::new(height, |y: int| Seq::new(width, |x: int| black()))
}

/// A `width` by `height` image. Its view is the sequence of its rows from top
/// to bottom, each row the sequence of its pixels from left to right.
pub struct ImageBuffer {
    width: u32,
    height: u32,
    rows: Vec<Vec<Rgb>>,
}

impl View for ImageBuffer {
    type V = Seq<Seq<Rgb>>;

    closed spec fn view(&self) -> Seq<Seq<Rgb>> {
        Seq::new(self.rows@.len(), |y: int| self.rows@[y]@)
    }
}

impl ImageBuffer {
    /// The number of pixels in a row.
    pub closed spec fn spec_width(&self) -> nat {
        self.width as nat
    }

    /// The number of rows.
    pub closed spec fn spec_height(&self) -> nat {
        self.height as nat
    }

    /// The buffer holds exactly the rows and columns that its size announces.
    pub closed spec fn wf(&self) -> bool {
        &&& self.rows@.len() == self.height
        &&& forall|y: int| 0 <= y < self.rows@.len() ==> (#[trigger] self.rows@[y])@.len() == self.width
    }

    /// A well-formed buffer views as a grid of its size.
    pub proof fn lemma_view_is_grid(&self)
        requires
            self.wf(),
        ensures
            is_grid(self@, self.spec_width(), self.spec_height()),
    {
    }

    /// Creates an image of the given size, filled with black.
    pub fn new(width: u32, height: u32) -> (image: ImageBuffer)
        ensures
            image.wf(),
            image.spec_width() == width,
            image.spec_height() == height,
            image@ == blank_grid(width as nat, height as nat),
    {
        let mut rows: Vec<Vec<Rgb>> = Vec::new();
        let mut y: u32 = 0;
        while y < height
            invariant
                y <= height,
                rows@.len() == y,
                forall|j: int| 0 <= j < rows@.len() ==> (#[trigger] rows@[j])@ == Seq::new(
                    width as nat,
                    |x: int| black(),
                ),
            decreases height - y,
        {
            let mut row: Vec<Rgb> = Vec::new();
            let mut x: u32 = 0;
            while x < width
                invariant
                    x <= width,
                    row@.len() == x,
                    forall|i: int| 0 <= i < row@.len() ==> row@[i] == black(),
                decreases width - x,
            {
                row.push(Rgb::black());
                x = x + 1;
            }
            assert(row@ =~= Seq::new(width as nat, |x: int| black()));
            rows.push(row);
            y = y + 1;
        }
        let image = ImageBuffer { width, height, rows };
        assert(image@ =~= blank_grid(width as nat, height as nat));
        image
    }

    /// The number of pixels in a row.
    pub fn width(&self) -> (width: u32)
        ensures
            width == self.spec_width(),
    {
        self.width
    }

    /// The number of rows.
    pub fn height(&self) -> (height: u32)
        ensures
            height == self.spec_height(),
    {
        self.height
    }

    /// Reads the pixel in column `x` of row `y`, if the image has one there.
    pub fn get_pixel(&self, x: u32, y: u32) -> (pixel: Option<Rgb>)
        requires
            self.wf(),
        ensures
            pixel == (if x < self.spec_width() && y < self.spec_height() {
                Some(self@[y as int][x as int])
            } else {
                None
            }),
    {
        if x < self.width && y < self.height {
            Some(self.rows[y as usize][x as usize])
        } else {
            None
        }
    }

    /// Paints the pixel in column `x` of row `y`. Outside the image nothing
    /// is painted, and the answer is `false`.
    pub fn set_pixel(&mut self, x: u32, y: u32, color: Rgb) -> (painted: bool)
        requires
            old(self).wf(),
        ensures
            final(self).wf(),
            final(self).spec_width() == old(self).spec_width(),
            final(self).spec_height() == old(self).spec_height(),
            painted == (x < old(self).spec_width() && y < old(self).spec_height()),
            painted ==> final(self)@ == old(self)@.update(
                y as int,
                old(self)@[y as int].update(x as int, color),
            ),
            !painted ==> final(self)@ == old(self)@,
    {
        if x < self.width && y < self.height {
            self.rows[y as usize][x as usize] = color;
            assert(self@ =~= old(self)@.update(
                y as int,
                old(self)@[y as int].update(x as int, color),
            ));
            true
        } else {
            false
        }
    }

    /// Replaces row `y` by `pixels`. A row outside the image, or one of
    /// another width, is not taken, and the answer is `false`.
    pub fn set_row(&mut self, y: u32, pixels: Vec<Rgb>) -> (painted: bool)
        requires
            old(self).wf(),
        ensures
            final(self).wf(),
            final(self).spec_width() == old(self).spec_width(),
            final(self).spec_height() == old(self).spec_height(),
            painted == (y < old(self).spec_height() && pixels@.len() == old(self).spec_width()),
            painted ==> final(self)@ == old(self)@.update(y as int, pixels@),
            !painted ==> final(self)@ == old(self)@,
    {
        if y < self.height && pixels.len() == self.width as usize {
            self.rows[y as usize] = pixels;
            assert(self@ =~= old(self)@.update(y as int, pixels@));
            true
        } else {
            false
        }
    }

    /// The rows of the image from top to bottom, each from left to right.
    pub fn rows(&self) -> (rows: &Vec<Vec<Rgb>>)
        ensures
            rows@.len() == self@.len(),
            forall|y: int| 0 <= y < rows@.len() ==> (#[trigger] rows@[y])@ == self@[y],
    {
        &self.rows
    }
}

} // verus!
