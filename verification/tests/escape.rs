use mandelzoom::{
    EscapeStage, EscapeStep, EscapeTracker, ESCAPE_RAD_SQR, EXTRA_ITERATIONS, ITER_COL_LIM,
};

/// What an evaluation came to: the final step, the iterations counted while
/// searching, and the number of times the orbit was advanced.
struct Outcome {
    step: EscapeStep,
    iterations: usize,
    advanced: usize,
}

/// Follows the orbit of `c` in double precision.
fn evaluate(max_iter: usize, c: (f64, f64)) -> Outcome {
    let mut tracker = EscapeTracker::new(max_iter);
    let mut z = c;
    let mut advanced = 0;
    loop {
        let within = z.0 * z.0 + z.1 * z.1 <= ESCAPE_RAD_SQR as f64;
        match tracker.advance(within) {
            EscapeStep::Iterate => {
                z = (z.0 * z.0 - z.1 * z.1 + c.0, 2.0 * z.0 * z.1 + c.1);
                advanced += 1;
            }
            step => return Outcome { step, iterations: tracker.iterations(), advanced },
        }
    }
}

/// Reports the tests of `trace` one by one, then `true` for ever.
fn replay(max_iter: usize, trace: &[bool]) -> Outcome {
    let mut tracker = EscapeTracker::new(max_iter);
    let mut advanced = 0;
    loop {
        let within = trace.get(advanced).copied().unwrap_or(true);
        match tracker.advance(within) {
            EscapeStep::Iterate => advanced += 1,
            step => return Outcome { step, iterations: tracker.iterations(), advanced },
        }
    }
}

#[test]
fn constants_have_their_values() {
    assert_eq!(ITER_COL_LIM, 200);
    assert_eq!(ESCAPE_RAD_SQR, 16);
    assert_eq!(EXTRA_ITERATIONS, 2);
}

#[test]
fn tracker_starts_searching() {
    let tracker = EscapeTracker::new(7);
    assert_eq!(tracker.max_iter(), 7);
    assert_eq!(tracker.iterations(), 0);
    assert_eq!(tracker.stage(), EscapeStage::Searching);
    assert!(!tracker.is_finished());
}

#[test]
fn zero_budget_means_member() {
    let mut inside = EscapeTracker::new(0);
    assert_eq!(inside.advance(true), EscapeStep::InSet);
    let mut outside = EscapeTracker::new(0);
    assert_eq!(outside.advance(false), EscapeStep::InSet);
    assert_eq!(outside.iterations(), 0);
    assert_eq!(outside.stage(), EscapeStage::InSet);
}

#[test]
fn origin_spends_the_whole_budget() {
    let outcome = evaluate(50, (0.0, 0.0));
    assert_eq!(outcome.step, EscapeStep::InSet);
    assert_eq!(outcome.iterations, 50);
    assert_eq!(outcome.advanced, 50);
}

#[test]
fn far_point_escapes_at_once() {
    let outcome = evaluate(50, (10.0, 0.0));
    assert_eq!(outcome.step, EscapeStep::Smooth { phase: 2 });
    assert_eq!(outcome.iterations, 0);
    assert_eq!(outcome.advanced, 2);
}

#[test]
fn slow_point_escapes_below_the_budget() {
    let outcome = evaluate(50, (0.0, 0.75));
    assert_eq!(outcome.step, EscapeStep::Smooth { phase: 36 });
    assert_eq!(outcome.iterations, 34);
    assert_eq!(outcome.advanced, 36);
}

#[test]
fn slow_point_is_a_member_under_a_small_budget() {
    let outcome = evaluate(34, (0.0, 0.75));
    assert_eq!(outcome.step, EscapeStep::InSet);
    assert_eq!(outcome.iterations, 34);
    let outcome = evaluate(35, (0.0, 0.75));
    assert_eq!(outcome.step, EscapeStep::Smooth { phase: 36 });
    assert_eq!(outcome.iterations, 34);
}

#[test]
fn norm_of_exactly_sixteen_is_within_bailout() {
    // c = 4: |c|^2 is 16, so one iteration is counted before the escape.
    let outcome = evaluate(50, (4.0, 0.0));
    assert_eq!(outcome.step, EscapeStep::Smooth { phase: 3 });
    assert_eq!(outcome.iterations, 1);
}

#[test]
fn escape_is_followed_by_two_more_iterations() {
    let mut tracker = EscapeTracker::new(10);
    assert_eq!(tracker.advance(true), EscapeStep::Iterate);
    assert_eq!(tracker.advance(true), EscapeStep::Iterate);
    assert_eq!(tracker.stage(), EscapeStage::Searching);
    assert_eq!(tracker.advance(false), EscapeStep::Iterate);
    assert_eq!(tracker.stage(), EscapeStage::Escaping);
    assert_eq!(tracker.advance(true), EscapeStep::Iterate);
    assert_eq!(tracker.stage(), EscapeStage::Escaping);
    assert_eq!(tracker.advance(true), EscapeStep::Smooth { phase: 4 });
    assert_eq!(tracker.stage(), EscapeStage::Escaped);
    assert_eq!(tracker.iterations(), 2);
    assert!(tracker.is_finished());
}

#[test]
fn bailout_tests_after_the_escape_are_ignored() {
    let coming_back = replay(10, &[true, false, true, true, true]);
    let staying_out = replay(10, &[true, false, false, false, false]);
    assert_eq!(coming_back.step, EscapeStep::Smooth { phase: 3 });
    assert_eq!(staying_out.step, EscapeStep::Smooth { phase: 3 });
    assert_eq!(coming_back.iterations, staying_out.iterations);
}

#[test]
fn escape_at_the_last_iteration_counts_as_member() {
    let outcome = replay(3, &[true, true, true, false]);
    assert_eq!(outcome.step, EscapeStep::InSet);
    assert_eq!(outcome.iterations, 3);
    let outcome = replay(3, &[true, true, false]);
    assert_eq!(outcome.step, EscapeStep::Smooth { phase: 4 });
    assert_eq!(outcome.iterations, 2);
}

#[test]
fn phase_wraps_at_the_palette_period() {
    let mut trace = vec![true; 197];
    trace.push(false);
    assert_eq!(replay(1000, &trace).step, EscapeStep::Smooth { phase: 199 });
    let mut trace = vec![true; 198];
    trace.push(false);
    assert_eq!(replay(1000, &trace).step, EscapeStep::Smooth { phase: 0 });
    let mut trace = vec![true; 199];
    trace.push(false);
    assert_eq!(replay(1000, &trace).step, EscapeStep::Smooth { phase: 1 });
    let mut trace = vec![true; 598];
    trace.push(false);
    assert_eq!(replay(1000, &trace).step, EscapeStep::Smooth { phase: 0 });
}

#[test]
fn finished_tracker_repeats_its_answer() {
    let mut member = EscapeTracker::new(1);
    assert_eq!(member.advance(true), EscapeStep::Iterate);
    assert_eq!(member.advance(true), EscapeStep::InSet);
    assert_eq!(member.advance(false), EscapeStep::InSet);
    assert_eq!(member.iterations(), 1);
    let mut escaped = EscapeTracker::new(5);
    assert_eq!(escaped.advance(false), EscapeStep::Iterate);
    assert_eq!(escaped.advance(false), EscapeStep::Iterate);
    assert_eq!(escaped.advance(false), EscapeStep::Smooth { phase: 2 });
    assert_eq!(escaped.advance(true), EscapeStep::Smooth { phase: 2 });
    assert_eq!(escaped.iterations(), 0);
}

#[test]
fn huge_budget_does_not_overflow_the_phase() {
    let outcome = replay(usize::MAX, &[true, true, true, false]);
    assert_eq!(outcome.step, EscapeStep::Smooth { phase: 5 });
}

#[test]
fn escaped_points_stay_below_the_budget_and_members_reach_it() {
    for max_iter in [0usize, 1, 2, 3, 10, 50, 201] {
        for ix in -8..=8 {
            for iy in -8..=8 {
                let c = (ix as f64 * 0.3125, iy as f64 * 0.3125);
                let outcome = evaluate(max_iter, c);
                match outcome.step {
                    EscapeStep::InSet => {
                        assert_eq!(outcome.iterations, max_iter);
                        assert_eq!(outcome.advanced, max_iter);
                    }
                    EscapeStep::Smooth { phase } => {
                        assert!(outcome.iterations < max_iter);
                        assert_eq!(outcome.advanced, outcome.iterations + 2);
                        assert_eq!(phase, (outcome.iterations + 2) % 200);
                    }
                    EscapeStep::Iterate => unreachable!(),
                }
            }
        }
    }
}
