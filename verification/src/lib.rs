//! Core of a Mandelbrot zoom renderer.
//!
//! The arithmetic on plane coordinates is left to a numeric backend chosen by
//! the caller; this crate holds everything that is decided on integers: the
//! exact geometry of the view, the control of the escape-time iteration, the
//! scan of a row, the bookkeeping of a frame, and the image buffer.

pub mod color;
pub mod escape;
pub mod frame;
pub mod image;
pub mod mandelbrot;
pub mod mapper;
pub mod worker;

pub use color::{channel_level, shade, Rgb};
pub use escape::{
    EscapeStage, EscapeStep, EscapeTracker, ESCAPE_RAD_SQR, EXTRA_ITERATIONS, ITER_COL_LIM,
};
pub use frame::{FrameError, FrameRender};
pub use image::ImageBuffer;
pub use mandelbrot::Mandelbrot;
pub use mapper::{Fraction, PlaneOffset};
pub use worker::{resolve_worker_count, worker_count, Job, JobResult, RowScan};
