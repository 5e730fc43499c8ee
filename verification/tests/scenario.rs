use mandelzoom::{
    EscapeStep, EscapeTracker, ImageBuffer, Job, JobResult, Mandelbrot, Rgb, RowScan,
    ESCAPE_RAD_SQR, ITER_COL_LIM,
};
use std::cell::RefCell;
use std::collections::VecDeque;

// The numeric backend of these tests works in double precision: a complex
// number is a pair.

type Complex = (f64, f64);
type View = Mandelbrot<Complex, f64>;
type RowJob = Job<Complex, f64>;

fn escape_and_get_ratio(max_iter: usize, z0: &Complex) -> Option<f32> {
    let mut tracker = EscapeTracker::new(max_iter);
    let mut z = *z0;
    loop {
        let within = z.0 * z.0 + z.1 * z.1 <= ESCAPE_RAD_SQR as f64;
        match tracker.advance(within) {
            EscapeStep::Iterate => z = (z.0 * z.0 - z.1 * z.1 + z0.0, 2.0 * z.0 * z.1 + z0.1),
            EscapeStep::InSet => return None,
            EscapeStep::Smooth { phase } => {
                let modulus = (z.0 * z.0 + z.1 * z.1).sqrt() as f32;
                let smooth = phase as f32 - modulus.log2().log2();
                return Some(smooth / ITER_COL_LIM as f32);
            }
        }
    }
}

fn get_pixel_color(ratio: f32) -> Rgb {
    let hsl = palette::Hsl::new(ratio * 360.0, 1.0, 0.5);
    let rgb: palette::rgb::Rgb = palette::rgb::Rgb::from(hsl);
    Rgb::from_scaled(
        (rgb.red * 256.0).floor() as i64,
        (rgb.green * 256.0).floor() as i64,
        (rgb.blue * 256.0).floor() as i64,
    )
}

fn plane_point(view: &View, p: (u32, u32), dims: (u32, u32)) -> Complex {
    let offset = view.image_coords_to_mandelbrot_coords(p, dims);
    (
        offset.re.numerator as f64 / (offset.re.denominator as f64 * view.zoom) + view.offset.0,
        offset.im.numerator as f64 / (offset.im.denominator as f64 * view.zoom) + view.offset.1,
    )
}

fn plane_step(view: &View, dims: (u32, u32)) -> Complex {
    let step = view.get_pixel_diff(dims);
    (
        step.re.numerator as f64 / (step.re.denominator as f64 * view.zoom),
        step.im.numerator as f64 / (step.im.denominator as f64 * view.zoom),
    )
}

fn compute_row(job: RowJob) -> JobResult<f32> {
    let mut scan = RowScan::new(job.row, job.image_width);
    let mut z0 = job.z_start;
    while scan.next_column().is_some() {
        scan.record(escape_and_get_ratio(job.max_iter, &z0));
        z0.0 += job.z_real_increase;
    }
    scan.finish().unwrap()
}

/// A stand-in for the pool of worker threads: `worker_num` workers that take
/// the jobs in turn, each keeping its results until it is asked for them.
/// The results come back worker by worker, the last worker first, so their
/// order differs from the order of the jobs and changes with the number of
/// workers.
struct Pool {
    workers: RefCell<Vec<VecDeque<JobResult<f32>>>>,
    next_worker: RefCell<usize>,
}

impl Pool {
    fn new(worker_num: usize) -> Pool {
        assert!(worker_num > 0);
        Pool {
            workers: RefCell::new((0..worker_num).map(|_| VecDeque::new()).collect()),
            next_worker: RefCell::new(0),
        }
    }

    fn send_job(&self, job: RowJob) {
        let mut workers = self.workers.borrow_mut();
        let mut next = self.next_worker.borrow_mut();
        workers[*next].push_back(compute_row(job));
        *next = (*next + 1) % workers.len();
    }

    fn get_job_result(&self) -> Option<JobResult<f32>> {
        self.workers.borrow_mut().iter_mut().rev().find_map(|results| results.pop_front())
    }
}

/// Renders a frame with the pool, as the renderer does.
fn render_pooled(view: &View, pool: &Pool, dims: (u32, u32)) -> (ImageBuffer, Vec<u32>) {
    let mut frame = view.generate_image(dims);
    let step = plane_step(view, dims);
    let mut left = plane_point(view, (0, 0), dims);
    while frame.pending_row().is_some() {
        pool.send_job(frame.next_job(left, step.0).unwrap());
        left.1 += step.1;
    }
    let mut arrival = Vec::new();
    while !frame.is_complete() {
        let result = pool.get_job_result().unwrap();
        let shades: Vec<Option<Rgb>> =
            result.ratios.iter().map(|ratio| ratio.map(get_pixel_color)).collect();
        frame.accept(result.row, &shades).unwrap();
        arrival.push(result.row);
    }
    assert!(pool.get_job_result().is_none());
    (frame.finish().unwrap(), arrival)
}

/// Renders a frame row by row without a pool: the same rows, computed one
/// after the other from the top down.
fn render_in_order(view: &View, dims: (u32, u32)) -> Vec<Vec<Rgb>> {
    let step = plane_step(view, dims);
    let mut left = plane_point(view, (0, 0), dims);
    let mut rows = Vec::new();
    for row in 0..dims.1 {
        let job =
            Job { row, image_width: dims.0, z_start: left, z_real_increase: step.0, max_iter: view.max_iter };
        let result = compute_row(job);
        rows.push(
            result
                .ratios
                .iter()
                .map(|ratio| match ratio {
                    Some(ratio) => get_pixel_color(*ratio),
                    None => Rgb { red: 0, green: 0, blue: 0 },
                })
                .collect(),
        );
        left.1 += step.1;
    }
    rows
}

/// Renders a frame pixel by pixel on the calling thread, each plane point
/// taken from the mapping itself.
fn render_direct(view: &View, dims: (u32, u32)) -> Vec<Vec<Rgb>> {
    let mut rows = Vec::new();
    for y in 0..dims.1 {
        let mut row = Vec::new();
        for x in 0..dims.0 {
            let point = plane_point(view, (x, y), dims);
            row.push(match escape_and_get_ratio(view.max_iter, &point) {
                Some(ratio) => get_pixel_color(ratio),
                None => Rgb { red: 0, green: 0, blue: 0 },
            });
        }
        rows.push(row);
    }
    rows
}

fn small_view(thread_count: usize) -> View {
    Mandelbrot::new(50, (0.0, 0.0), 0.5, thread_count)
}

#[test]
fn small_frame_has_the_expected_plane_points() {
    let view = small_view(1);
    let expected_re = [-2.5, -1.25, 0.0, 1.25];
    let expected_im = [-1.5, -0.75, 0.0, 0.75];
    for y in 0..4u32 {
        for x in 0..4u32 {
            let point = plane_point(&view, (x, y), (4, 4));
            assert_eq!(point, (expected_re[x as usize], expected_im[y as usize]));
        }
    }
    assert_eq!(plane_step(&view, (4, 4)), (1.25, 0.75));
}

#[test]
fn small_frame_is_classified_as_expected() {
    // For each pixel the ratio of its point, `None` for members.
    let expected: [[Option<f32>; 4]; 4] = [
        [Some(-0.002051026), Some(0.001172971), Some(0.003250025), Some(-0.001249940)],
        [Some(-0.000367328), Some(0.007856965), Some(0.164643686), Some(0.000667266)],
        [Some(0.000926813), None, None, Some(0.001595900)],
        [Some(-0.000367328), Some(0.007856965), Some(0.164643686), Some(0.000667266)],
    ];
    let view = small_view(1);
    for y in 0..4u32 {
        for x in 0..4u32 {
            let point = plane_point(&view, (x, y), (4, 4));
            let ratio = escape_and_get_ratio(50, &point);
            match expected[y as usize][x as usize] {
                None => assert_eq!(ratio, None),
                Some(value) => assert!((ratio.unwrap() - value).abs() < 1e-6),
            }
        }
    }
}

#[test]
fn ratios_below_zero_are_not_clamped() {
    let ratio = escape_and_get_ratio(50, &(-2.5, -1.5)).unwrap();
    assert!(ratio < 0.0);
    // The hue wraps around: the colour is that of the ratio one turn further.
    assert_eq!(get_pixel_color(ratio), get_pixel_color(ratio + 1.0));
}

#[test]
fn pooled_frame_matches_direct_computation() {
    let view = small_view(4);
    let pool = Pool::new(view.thread_count);
    let (pooled, arrival) = render_pooled(&view, &pool, (4, 4));
    assert_eq!(arrival, vec![3, 2, 1, 0]);
    assert_eq!(pooled.rows(), &render_direct(&view, (4, 4)));
    assert_eq!(pooled.rows(), &render_in_order(&view, (4, 4)));
    let black = Rgb { red: 0, green: 0, blue: 0 };
    for y in 0..4u32 {
        for x in 0..4u32 {
            let member = (x, y) == (1, 2) || (x, y) == (2, 2);
            assert_eq!(pooled.get_pixel(x, y) == Some(black), member);
        }
    }
}

#[test]
fn thread_count_does_not_change_the_frame() {
    let single = small_view(1);
    let many = small_view(8);
    let (one_worker, in_order) = render_pooled(&single, &Pool::new(single.thread_count), (4, 4));
    let (eight_workers, out_of_order) =
        render_pooled(&many, &Pool::new(many.thread_count), (4, 4));
    assert_eq!(in_order, vec![0, 1, 2, 3]);
    assert_eq!(out_of_order, vec![3, 2, 1, 0]);
    assert_eq!(one_worker.rows(), eight_workers.rows());
}

#[test]
fn larger_frame_is_the_same_for_any_thread_count() {
    let view: View = Mandelbrot::new(120, (-0.75, 0.1), 1.5, 1);
    let dims = (48, 27);
    let reference = render_in_order(&view, dims);
    assert!(reference.iter().flatten().any(|p| *p == Rgb { red: 0, green: 0, blue: 0 }));
    assert!(reference.iter().flatten().any(|p| *p != Rgb { red: 0, green: 0, blue: 0 }));
    for workers in [1usize, 2, 3, 8, 27, 64] {
        let pool = Pool::new(workers);
        let (image, _) = render_pooled(&view, &pool, dims);
        assert_eq!(image.rows(), &reference);
    }
}

#[test]
fn rendering_twice_gives_identical_frames() {
    let view = small_view(2);
    let pool = Pool::new(view.thread_count);
    let (first, _) = render_pooled(&view, &pool, (4, 4));
    let (second, _) = render_pooled(&view, &pool, (4, 4));
    assert_eq!(first.rows(), second.rows());
}

#[test]
fn pool_is_reused_across_frames() {
    let mut view = small_view(3);
    let pool = Pool::new(view.thread_count);
    for _ in 0..5 {
        let dims = (16, 9);
        let (image, _) = render_pooled(&view, &pool, dims);
        assert_eq!(image.rows(), &render_in_order(&view, dims));
        let scaled = view.zoom * 1.05;
        view.change_zoom_by(scaled, scaled.partial_cmp(&0.0));
        view.max_iter += 5;
    }
}
