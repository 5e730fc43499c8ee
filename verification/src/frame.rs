//! The bookkeeping of one frame: which rows were handed out as jobs, which
//! came back, and the image that grows from them.

use vstd::prelude::*;
use crate::color::{black, shade, shade_of, Rgb};
use crate::image::{blank_grid, ImageBuffer};
use crate::worker::Job;

verus! {

/// One row that came back from a worker: its index and, for each of its
/// pixels from left to right, the colour of the escape ratio, or `None`
/// where the point did not escape.
pub struct Delivery {
    pub row: nat,
    pub shades: Seq<Option<Rgb>>,
}

/// The colours painted for a row of entries.
pub open spec fn row_colors(shades: Seq<Option<Rgb>>) -> Seq<Rgb> {
    Seq::new(shades.len(), |x: int| shade_of(shades[x]))
}

/// The grid after the row of `delivery` has been painted into it. A row
/// that the grid does not have is not painted.
pub open spec fn paint(grid: Seq<Seq<Rgb>>, delivery: Delivery) -> Seq<Seq<Rgb>> {
    if delivery.row < grid.len() {
        grid.update(delivery.row as int, row_colors(delivery.shades))
    } else {
        grid
    }
}

/// The grid after the deliveries have been painted into it, first to last.
pub open spec fn painted(grid: Seq<Seq<Rgb>>, deliveries: Seq<Delivery>) -> Seq<Seq<Rgb>>
    decreases deliveries.len(),
{
    if deliveries.len() == 0 {
        grid
    } else {
        paint(painted(grid, deliveries.drop_last()), deliveries.last())
    }
}

/// No two of the deliveries are for the same row.
pub open spec fn distinct_rows(deliveries: Seq<Delivery>) -> bool {
    forall|i: int, j: int|
        0 <= i < j < deliveries.len() ==> (#[trigger] deliveries[i]).row != (
        #[trigger] deliveries[j]).row
}

/// Whether one of the deliveries is for row `row`.
pub open spec fn has_row(deliveries: Seq<Delivery>, row: nat) -> bool {
    exists|i: int| 0 <= i < deliveries.len() && (#[trigger] deliveries[i]).row == row
}

/// Painting keeps the number of rows.
pub proof fn lemma_painted_len(grid: Seq<Seq<Rgb>>, deliveries: Seq<Delivery>)
    ensures
        painted(grid, deliveries).len() == grid.len(),
    decreases deliveries.len(),
{
    if deliveries.len() > 0 {
        lemma_painted_len(grid, deliveries.drop_last());
    }
}

/// A row for which there is no delivery stays as it was.
pub proof fn lemma_painted_row_untouched(grid: Seq<Seq<Rgb>>, deliveries: Seq<Delivery>, row: nat)
    requires
        row < grid.len(),
        !has_row(deliveries, row),
    ensures
        painted(grid, deliveries)[row as int] == grid[row as int],
    decreases deliveries.len(),
{
    if deliveries.len() > 0 {
        let rest = deliveries.drop_last();
        assert(!has_row(rest, row)) by {
            if has_row(rest, row) {
                let i = choose|i: int| 0 <= i < rest.len() && (#[trigger] rest[i]).row == row;
                assert(deliveries[i].row == row);
            }
        }
        assert(deliveries[deliveries.len() - 1].row != row);
        lemma_painted_row_untouched(grid, rest, row);
        lemma_painted_len(grid, rest);
    }
}

/// With one delivery per row at most, a delivered row shows the colours of
/// its delivery, wherever in the order that delivery came.
pub proof fn lemma_painted_row_delivered(grid: Seq<Seq<Rgb>>, deliveries: Seq<Delivery>, i: int)
    requires
        distinct_rows(deliveries),
        0 <= i < deliveries.len(),
        deliveries[i].row < grid.len(),
    ensures
        painted(grid, deliveries)[deliveries[i].row as int] == row_colors(deliveries[i].shades),
    decreases deliveries.len(),
{
    let rest = deliveries.drop_last();
    let last = deliveries.len() - 1;
    lemma_painted_len(grid, rest);
    if i < last {
        assert(rest[i] == deliveries[i]);
        assert(deliveries[i].row != deliveries[last].row);
        lemma_painted_row_delivered(grid, rest, i);
    }
}

/// The order in which rows arrive does not matter: with one delivery per
/// row at most, the same deliveries in any other order paint the same image.
pub proof fn lemma_delivery_order_irrelevant(
    grid: Seq<Seq<Rgb>>,
    first: Seq<Delivery>,
    second: Seq<Delivery>,
)
    requires
        distinct_rows(first),
        first.to_multiset() == second.to_multiset(),
    ensures
        painted(grid, first) == painted(grid, second),
{
    lemma_painted_len(grid, first);
    lemma_painted_len(grid, second);
    lemma_reordering_keeps_rows(first, second);
    assert forall|y: int| 0 <= y < grid.len() implies painted(grid, first)[y] == painted(
        grid,
        second,
    )[y] by {
        if has_row(first, y as nat) {
            let i = choose|i: int| 0 <= i < first.len() && (#[trigger] first[i]).row == y as nat;
            lemma_same_members(first, second, first[i]);
            let j = choose|j: int| 0 <= j < second.len() && second[j] == first[i];
            lemma_painted_row_delivered(grid, first, i);
            lemma_painted_row_delivered(grid, second, j);
        } else {
            assert(!has_row(second, y as nat)) by {
                if has_row(second, y as nat) {
                    let j = choose|j: int|
                        0 <= j < second.len() && (#[trigger] second[j]).row == y as nat;
                    lemma_same_members(second, first, second[j]);
                    let i = choose|i: int| 0 <= i < first.len() && first[i] == second[j];
                    assert(first[i].row == y as nat);
                }
            }
            lemma_painted_row_untouched(grid, first, y as nat);
            lemma_painted_row_untouched(grid, second, y as nat);
        }
    }
    assert(painted(grid, first) =~= painted(grid, second));
}

/// Rows that arrive in reverse order paint the same image.
pub proof fn lemma_reverse_delivery(grid: Seq<Seq<Rgb>>, deliveries: Seq<Delivery>)
    requires
        distinct_rows(deliveries),
    ensures
        painted(grid, deliveries.reverse()) == painted(grid, deliveries),
{
    deliveries.lemma_reverse_to_multiset();
    lemma_delivery_order_irrelevant(grid, deliveries, deliveries.reverse());
}

/// What occurs in a sequence occurs in each of its reorderings.
proof fn lemma_same_members(first: Seq<Delivery>, second: Seq<Delivery>, delivery: Delivery)
    requires
        first.to_multiset() == second.to_multiset(),
        first.contains(delivery),
    ensures
        second.contains(delivery),
{
    vstd::seq_lib::to_multiset_contains(first, delivery);
    vstd::seq_lib::to_multiset_contains(second, delivery);
}

/// A reordering of deliveries with one delivery per row at most has one
/// delivery per row at most.
proof fn lemma_reordering_keeps_rows(first: Seq<Delivery>, second: Seq<Delivery>)
    requires
        distinct_rows(first),
        first.to_multiset() == second.to_multiset(),
    ensures
        distinct_rows(second),
{
    assert(first.no_duplicates());
    first.lemma_multiset_has_no_duplicates();
    second.lemma_multiset_has_no_duplicates_conv();
    assert forall|j: int, k: int| 0 <= j < k < second.len() implies (#[trigger] second[j]).row != (
    #[trigger] second[k]).row by {
        lemma_same_members(second, first, second[j]);
        lemma_same_members(second, first, second[k]);
        let a = choose|a: int| 0 <= a < first.len() && first[a] == second[j];
        let b = choose|b: int| 0 <= b < first.len() && first[b] == second[k];
        assert(second[j] != second[k]);
        assert(a != b);
        if a < b {
            assert(first[a].row != first[b].row);
        } else {
            assert(first[b].row != first[a].row);
        }
    }
}

/// Why a frame did not take a row, or could not be handed over.
#[derive(Clone, Copy, Debug, PartialEq, Eq, Structural)]
pub enum FrameError {
    /// No job was handed out for this row.
    UnknownRow,
    /// The row does not have as many pixels as the image is wide.
    WidthMismatch,
    /// The row was delivered before.
    DuplicateRow,
    /// Rows are still missing.
    Incomplete,
}

/// Number of rows that were not delivered yet.
spec fn count_missing(delivered: Seq<bool>) -> nat
    decreases delivered.len(),
{
    if delivered.len() == 0 {
        0
    } else {
        count_missing(delivered.drop_last()) + if delivered.last() {
            0nat
        } else {
            1nat
        }
    }
}

/// The count of missing rows is zero exactly when every row is in, and it
/// is the number of rows when none is.
proof fn lemma_count_missing_bound(delivered: Seq<bool>)
    ensures
        count_missing(delivered) <= delivered.len(),
        count_missing(delivered) == 0 <==> forall|y: int|
            0 <= y < delivered.len() ==> delivered[y],
        (forall|y: int| 0 <= y < delivered.len() ==> !delivered[y]) ==> count_missing(delivered)
            == delivered.len(),
    decreases delivered.len(),
{
    if delivered.len() > 0 {
        let rest = delivered.drop_last();
        lemma_count_missing_bound(rest);
        if count_missing(delivered) == 0 {
            assert forall|y: int| 0 <= y < delivered.len() implies delivered[y] by {
                if y < rest.len() {
                    assert(rest[y]);
                }
            }
        }
        if forall|y: int| 0 <= y < delivered.len() ==> delivered[y] {
            assert forall|y: int| 0 <= y < rest.len() implies rest[y] by {
                assert(delivered[y]);
            }
        }
        if forall|y: int| 0 <= y < delivered.len() ==> !delivered[y] {
            assert forall|y: int| 0 <= y < rest.len() implies !rest[y] by {
                assert(!delivered[y]);
            }
        }
    }
}

/// Taking one missing row lowers the count of missing rows by one.
proof fn lemma_count_missing_deliver(delivered: Seq<bool>, row: int)
    requires
        0 <= row < delivered.len(),
        !delivered[row],
    ensures
        count_missing(delivered.update(row, true)) + 1 == count_missing(delivered),
    decreases delivered.len(),
{
    let rest = delivered.drop_last();
    let after = delivered.update(row, true);
    if row == delivered.len() - 1 {
        assert(after.drop_last() =~= rest);
    } else {
        assert(after.drop_last() =~= rest.update(row, true));
        lemma_count_missing_deliver(rest, row);
    }
}

/// One frame in the making. Jobs are handed out for the rows from the top
/// down; the rows come back in any order and are painted as they come; the
/// image is handed over once every row is in.
pub struct FrameRender {
    image: ImageBuffer,
    max_iter: usize,
    submitted: u32,
    delivered: Vec<bool>,
    missing: u32,
    log: Ghost<Seq<Delivery>>,
}

impl FrameRender {
    /// Number of pixels in a row of the frame.
    pub closed spec fn width(&self) -> nat {
        self.image.spec_width()
    }

    /// Number of rows of the frame.
    pub closed spec fn height(&self) -> nat {
        self.image.spec_height()
    }

    /// Iteration budget given to every job of the frame.
    pub closed spec fn max_iter(&self) -> usize {
        self.max_iter
    }

    /// Number of rows for which a job was handed out: the rows below it.
    pub closed spec fn submitted(&self) -> nat {
        self.submitted as nat
    }

    /// The rows taken so far, in the order in which they came.
    pub closed spec fn deliveries(&self) -> Seq<Delivery> {
        self.log@
    }

    /// The image as it stands.
    pub closed spec fn image(&self) -> Seq<Seq<Rgb>> {
        self.image@
    }

    /// Whether every row of the frame has been delivered.
    pub open spec fn complete(&self) -> bool {
        forall|y: nat| y < self.height() ==> has_row(self.deliveries(), y)
    }

    /// The frame's books agree with its image.
    pub closed spec fn wf(&self) -> bool {
        &&& self.image.wf()
        &&& self.delivered@.len() == self.image.spec_height()
        &&& self.submitted <= self.image.spec_height()
        &&& self.missing == count_missing(self.delivered@)
        &&& self.log@.len() + self.missing == self.image.spec_height()
        &&& forall|y: int|
            0 <= y < self.delivered@.len() ==> (#[trigger] self.delivered@[y]) == has_row(
                self.log@,
                y as nat,
            )
        &&& distinct_rows(self.log@)
        &&& forall|i: int|
            0 <= i < self.log@.len() ==> (#[trigger] self.log@[i]).row < self.submitted
                && self.log@[i].shades.len() == self.image.spec_width()
        &&& self.image@ == painted(
            blank_grid(self.image.spec_width(), self.image.spec_height()),
            self.log@,
        )
    }

    /// What holds of every frame: jobs are handed out for rows of the frame
    /// only; rows are taken only where a job was handed out, once each and
    /// in full width; and the image is a blank image with the rows taken
    /// painted into it.
    pub proof fn lemma_books(&self)
        requires
            self.wf(),
        ensures
            self.submitted() <= self.height(),
            distinct_rows(self.deliveries()),
            forall|i: int|
                0 <= i < self.deliveries().len() ==> (#[trigger] self.deliveries()[i]).row
                    < self.submitted() && self.deliveries()[i].shades.len() == self.width(),
            self.image() == painted(blank_grid(self.width(), self.height()), self.deliveries()),
            self.image().len() == self.height(),
    {
        lemma_painted_len(blank_grid(self.width(), self.height()), self.deliveries());
    }

    /// A complete frame has taken as many rows as it has.
    pub proof fn lemma_complete_is_full(&self)
        requires
            self.wf(),
            self.complete(),
        ensures
            self.deliveries().len() == self.height(),
    {
        lemma_count_missing_bound(self.delivered@);
        assert forall|y: int| 0 <= y < self.delivered@.len() implies self.delivered@[y] by {
            assert(has_row(self.deliveries(), y as nat));
        }
    }

    /// Begins a frame of `image_dims.0` by `image_dims.1` pixels whose jobs
    /// get the iteration budget `max_iter`. Nothing is handed out or taken
    /// yet, and the image is black.
    pub fn new(image_dims: (u32, u32), max_iter: usize) -> (frame: FrameRender)
        ensures
            frame.wf(),
            frame.width() == image_dims.0,
            frame.height() == image_dims.1,
            frame.max_iter() == max_iter,
            frame.submitted() == 0,
            frame.deliveries() == Seq::<Delivery>::empty(),
            frame.image() == blank_grid(image_dims.0 as nat, image_dims.1 as nat),
    {
        let image = ImageBuffer::new(image_dims.0, image_dims.1);
        let mut delivered: Vec<bool> = Vec::new();
        let mut y: u32 = 0;
        while y < image_dims.1
            invariant
                y <= image_dims.1,
                delivered@.len() == y,
                forall|j: int| 0 <= j < delivered@.len() ==> !delivered@[j],
            decreases image_dims.1 - y,
        {
            delivered.push(false);
            y = y + 1;
        }
        proof {
            lemma_count_missing_bound(delivered@);
        }
        FrameRender {
            image,
            max_iter,
            submitted: 0,
            delivered,
            missing: image_dims.1,
            log: Ghost(Seq::empty()),
        }
    }

    /// The row for which the next job is due, or `None` once a job was
    /// handed out for every row.
    pub fn pending_row(&self) -> (row: Option<u32>)
        requires
            self.wf(),
        ensures
            row == (if self.submitted() < self.height() {
                Some(self.submitted() as u32)
            } else {
                None
            }),
    {
        if self.submitted < self.image.height() {
            Some(self.submitted)
        } else {
            None
        }
    }

    /// Makes the job for the next row, from the plane point of its leftmost
    /// pixel and the real step between its pixels. Once a job was handed out
    /// for every row, no job is made and the frame stays as it is.
    pub fn next_job<C, R>(&mut self, z_start: C, z_real_increase: R) -> (job: Option<Job<C, R>>)
        requires
            old(self).wf(),
        ensures
            final(self).wf(),
            final(self).width() == old(self).width(),
            final(self).height() == old(self).height(),
            final(self).max_iter() == old(self).max_iter(),
            final(self).deliveries() == old(self).deliveries(),
            final(self).image() == old(self).image(),
            job is Some == (old(self).submitted() < old(self).height()),
            job matches Some(j) ==> {
                &&& j.row == old(self).submitted()
                &&& j.image_width == old(self).width()
                &&& j.max_iter == old(self).max_iter()
                &&& j.z_start == z_start
                &&& j.z_real_increase == z_real_increase
                &&& final(self).submitted() == old(self).submitted() + 1
            },
            job is None ==> final(self).submitted() == old(self).submitted(),
    {
        if self.submitted < self.image.height() {
            let row = self.submitted;
            self.submitted = row + 1;
            Some(
                Job {
                    row,
                    image_width: self.image.width(),
                    z_start,
                    z_real_increase,
                    max_iter: self.max_iter,
                },
            )
        } else {
            None
        }
    }

    /// Takes the row `row` as it came back from a worker, each ratio already
    /// turned into its colour, and paints it: black where the entry is
    /// `None`, the entry's colour elsewhere.
    ///
    /// A row is refused, and the frame left as it is, when no job was handed
    /// out for it (`UnknownRow`), else when it has not the width of the
    /// image (`WidthMismatch`), else when it was taken before
    /// (`DuplicateRow`).
    pub fn accept(&mut self, row: u32, shades: &Vec<Option<Rgb>>) -> (outcome: Result<
        (),
        FrameError,
    >)
        requires
            old(self).wf(),
        ensures
            final(self).wf(),
            final(self).width() == old(self).width(),
            final(self).height() == old(self).height(),
            final(self).max_iter() == old(self).max_iter(),
            final(self).submitted() == old(self).submitted(),
            outcome == (if row >= old(self).submitted() {
                Err::<(), FrameError>(FrameError::UnknownRow)
            } else if shades@.len() != old(self).width() {
                Err(FrameError::WidthMismatch)
            } else if has_row(old(self).deliveries(), row as nat) {
                Err(FrameError::DuplicateRow)
            } else {
                Ok(())
            }),
            outcome is Ok ==> {
                let delivery = Delivery { row: row as nat, shades: shades@ };
                &&& final(self).deliveries() == old(self).deliveries().push(delivery)
                &&& final(self).image() == paint(old(self).image(), delivery)
                &&& final(self).image()[row as int].len() == shades@.len()
                &&& forall|x: int|
                    0 <= x < shades@.len() ==> final(self).image()[row as int][x] == shade_of(
                        #[trigger] shades@[x],
                    )
                &&& forall|x: int|
                    0 <= x < shades@.len() && (#[trigger] shades@[x]) is None
                        ==> final(self).image()[row as int][x] == black()
            },
            outcome is Err ==> {
                &&& final(self).deliveries() == old(self).deliveries()
                &&& final(self).image() == old(self).image()
            },
    {
        if row >= self.submitted {
            return Err(FrameError::UnknownRow);
        }
        if shades.len() != self.image.width() as usize {
            return Err(FrameError::WidthMismatch);
        }
        if self.delivered[row as usize] {
            return Err(FrameError::DuplicateRow);
        }
        let mut pixels: Vec<Rgb> = Vec::new();
        let mut x: usize = 0;
        while x < shades.len()
            invariant
                x <= shades@.len(),
                pixels@.len() == x,
                forall|i: int| 0 <= i < x ==> pixels@[i] == shade_of(shades@[i]),
            decreases shades@.len() - x,
        {
            pixels.push(shade(shades[x]));
            x = x + 1;
        }
        let ghost delivery = Delivery { row: row as nat, shades: shades@ };
        let ghost before = self.log@;
        assert(pixels@ =~= row_colors(shades@));
        proof {
            lemma_count_missing_bound(self.delivered@);
            lemma_count_missing_deliver(self.delivered@, row as int);
            lemma_painted_len(
                blank_grid(self.image.spec_width(), self.image.spec_height()),
                before,
            );
            self.image.lemma_view_is_grid();
        }
        self.image.set_row(row, pixels);
        self.delivered[row as usize] = true;
        self.missing = self.missing - 1;
        self.log = Ghost(before.push(delivery));
        proof {
            let after = self.log@;
            assert(after.drop_last() =~= before);
            assert(after.last() == delivery);
            assert forall|y: int| 0 <= y < self.delivered@.len() implies (
            #[trigger] self.delivered@[y]) == has_row(after, y as nat) by {
                if y == row {
                    assert(after[after.len() - 1].row == y as nat);
                } else if has_row(before, y as nat) {
                    let i = choose|i: int|
                        0 <= i < before.len() && (#[trigger] before[i]).row == y as nat;
                    assert(after[i].row == y as nat);
                } else if has_row(after, y as nat) {
                    let i = choose|i: int|
                        0 <= i < after.len() && (#[trigger] after[i]).row == y as nat;
                    assert(before[i].row == y as nat);
                }
            }
            assert forall|i: int, j: int| 0 <= i < j < after.len() implies (#[trigger] after[i]).row
                != (#[trigger] after[j]).row by {
                if j == after.len() - 1 {
                    assert(before[i].row != row as nat);
                } else {
                    assert(before[i].row != before[j].row);
                }
            }
            assert forall|i: int| 0 <= i < after.len() implies (#[trigger] after[i]).row
                < self.submitted && after[i].shades.len() == self.image.spec_width() by {
                if i < before.len() {
                    assert(before[i].row < self.submitted);
                }
            }
        }
        Ok(())
    }

    /// Whether every row of the frame has been delivered.
    pub fn is_complete(&self) -> (complete: bool)
        requires
            self.wf(),
        ensures
            complete == self.complete(),
    {
        proof {
            lemma_count_missing_bound(self.delivered@);
            if self.missing == 0 {
                assert forall|y: nat| y < self.height() implies has_row(self.deliveries(), y) by {
                    assert(self.delivered@[y as int]);
                }
            } else {
                let y = choose|y: int| 0 <= y < self.delivered@.len() && !self.delivered@[y];
                assert(!has_row(self.deliveries(), y as nat));
            }
        }
        self.missing == 0
    }

    /// Hands the image over once every row is in. While rows are missing no
    /// image is given out, and the answer is `Incomplete`.
    pub fn finish(self) -> (outcome: Result<ImageBuffer, FrameError>)
        requires
            self.wf(),
        ensures
            outcome is Ok == self.complete(),
            outcome matches Ok(image) ==> {
                &&& image.wf()
                &&& image.spec_width() == self.width()
                &&& image.spec_height() == self.height()
                &&& image@ == self.image()
            },
            outcome matches Err(error) ==> error == FrameError::Incomplete,
    {
        if self.is_complete() {
            Ok(self.image)
        } else {
            Err(FrameError::Incomplete)
        }
    }
}

/// A complete frame shows, in each of its rows, the colours of the one
/// delivery that was taken for that row: every row was painted, and painted
/// once.
pub proof fn lemma_complete_frame(frame: &FrameRender)
    requires
        frame.wf(),
        frame.complete(),
    ensures
        frame.deliveries().len() == frame.height(),
        frame.submitted() == frame.height(),
        forall|i: int|
            0 <= i < frame.deliveries().len() ==> frame.image()[(
            #[trigger] frame.deliveries()[i]).row as int] == row_colors(
                frame.deliveries()[i].shades,
            ),
        forall|y: nat| y < frame.height() ==> has_row(frame.deliveries(), y),
{
    frame.lemma_books();
    frame.lemma_complete_is_full();
    assert forall|i: int| 0 <= i < frame.deliveries().len() implies frame.image()[(
    #[trigger] frame.deliveries()[i]).row as int] == row_colors(frame.deliveries()[i].shades) by {
        lemma_painted_row_delivered(
            blank_grid(frame.width(), frame.height()),
            frame.deliveries(),
            i,
        );
    }
    if frame.height() > 0 {
        let last = (frame.height() - 1) as nat;
        assert(has_row(frame.deliveries(), last));
    }
}

/// Two frames of one size that took the same rows hold the same image,
/// whatever the order in which the rows came to each.
pub proof fn lemma_frames_agree(first: &FrameRender, second: &FrameRender)
    requires
        first.wf(),
        second.wf(),
        first.width() == second.width(),
        first.height() == second.height(),
        first.deliveries().to_multiset() == second.deliveries().to_multiset(),
    ensures
        first.image() == second.image(),
{
    first.lemma_books();
    second.lemma_books();
    lemma_delivery_order_irrelevant(
        blank_grid(first.width(), first.height()),
        first.deliveries(),
        second.deliveries(),
    );
}

} // verus!
