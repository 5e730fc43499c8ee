//! What a worker of the pool is handed, what it hands back, and how it
//! walks along a row.

use vstd::prelude::*;

verus! {

/// One scanline to compute. `C` is the backend's complex number, `R` its
/// real number; both are fixed when the job is made and only carried here.
pub struct Job<C, R> {
    /// Index of the row, counted from the top.
    pub row: u32,
    /// Number of pixels in the row.
    pub image_width: u32,
    /// Plane point of the leftmost pixel.
    pub z_start: C,
    /// Distance along the real axis from one pixel to the next.
    pub z_real_increase: R,
    /// Iteration budget of each pixel.
    pub max_iter: usize,
}

/// The outcome of one job: for each pixel of the row, from left to right,
/// `None` where the point did not escape and its smoothed ratio otherwise.
pub struct JobResult<T> {
    pub row: u32,
    pub ratios: Vec<Option<T>>,
}

/// A row in the making: the pixels evaluated so far, from the left.
pub struct RowScan<T> {
    row: u32,
    width: u32,
    ratios: Vec<Option<T>>,
}

impl<T> RowScan<T> {
    /// Index of the row that is scanned.
    pub closed spec fn row(&self) -> u32 {
        self.row
    }

    /// Number of pixels that the row has.
    pub closed spec fn width(&self) -> u32 {
        self.width
    }

    /// The outcomes recorded so far, from the left.
    pub closed spec fn ratios(&self) -> Seq<Option<T>> {
        self.ratios@
    }

    /// No more pixels are recorded than the row has.
    pub closed spec fn wf(&self) -> bool {
        self.ratios@.len() <= self.width
    }

    /// Whether every pixel of the row has its outcome.
    pub open spec fn complete(&self) -> bool {
        self.ratios().len() == self.width()
    }

    /// Begins the scan of row `row`, which has `width` pixels.
    pub fn new(row: u32, width: u32) -> (scan: RowScan<T>)
        ensures
            scan.wf(),
            scan.row() == row,
            scan.width() == width,
            scan.ratios() == Seq::<Option<T>>::empty(),
    {
        RowScan { row, width, ratios: Vec::new() }
    }

    /// The column of the pixel to evaluate next, or `None` once the row is
    /// complete.
    pub fn next_column(&self) -> (column: Option<u32>)
        requires
            self.wf(),
        ensures
            column == (if self.complete() {
                None
            } else {
                Some(self.ratios().len() as u32)
            }),
    {
        if self.ratios.len() < self.width as usize {
            Some(self.ratios.len() as u32)
        } else {
            None
        }
    }

    /// Records the outcome of the next pixel. Once the row is complete
    /// nothing more is taken, and the answer is `false`.
    pub fn record(&mut self, ratio: Option<T>) -> (taken: bool)
        requires
            old(self).wf(),
        ensures
            final(self).wf(),
            final(self).row() == old(self).row(),
            final(self).width() == old(self).width(),
            taken == !old(self).complete(),
            taken ==> final(self).ratios() == old(self).ratios().push(ratio),
            !taken ==> final(self).ratios() == old(self).ratios(),
    {
        if self.ratios.len() < self.width as usize {
            self.ratios.push(ratio);
            true
        } else {
            false
        }
    }

    /// Hands the row over as a job result; `None` while pixels are missing.
    pub fn finish(self) -> (result: Option<JobResult<T>>)
        requires
            self.wf(),
        ensures
            result is Some == self.complete(),
            result matches Some(r) ==> {
                &&& r.row == self.row()
                &&& r.ratios@ == self.ratios()
                &&& r.ratios@.len() == self.width()
            },
    {
        if self.ratios.len() == self.width as usize {
            Some(JobResult { row: self.row, ratios: self.ratios })
        } else {
            None
        }
    }
}

/// The number of workers for a configured count and the number of logical
/// processors at hand: the configured count, and where that is zero, one
/// worker per processor.
pub open spec fn resolved_worker_count(configured: usize, available: usize) -> usize {
    if configured != 0 {
        configured
    } else {
        available
    }
}

/// Computes [`resolved_worker_count`].
pub fn resolve_worker_count(configured: usize, available: usize) -> (count: usize)
    ensures
        count == resolved_worker_count(configured, available),
{
    if configured != 0 {
        configured
    } else {
        available
    }
}

/// Calls `num_cpus::get`, which counts the logical processors that this
/// process may use. The count depends on the machine and on how the process
/// was started; what the function's documentation promises of every outcome,
/// and what is claimed here, is that it is at least one.
#[verifier::external_body]
fn logical_cpus() -> (count: usize)
    ensures
        count >= 1,
{
    num_cpus::get()
}

/// The number of workers to start: `configured`, and where that is zero,
/// one per logical processor of this machine, which is one worker at least.
/// So there is always a worker to take the jobs.
pub fn worker_count(configured: usize) -> (count: usize)
    ensures
        configured != 0 ==> count == configured,
        configured == 0 ==> count >= 1,
{
    resolve_worker_count(configured, logical_cpus())
}

} // verus!
