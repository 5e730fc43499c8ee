//! Control of the escape-time iteration of one point.
//!
//! The orbit `z <- z*z + c` itself is computed by the caller's numeric
//! backend. What is decided here is how long the orbit is followed: the
//! caller reports, for the current point of the orbit, whether it still lies
//! within the bailout radius, and is told what to do next.

use vstd::prelude::*;

verus! {

/// Number of iterations after which the colour palette repeats.
pub const ITER_COL_LIM: usize = 200;

/// Square of the bailout radius: a point of the orbit has escaped once its
/// squared norm exceeds this.
pub const ESCAPE_RAD_SQR: u32 = 16;

/// Number of iterations made past the escape, for the sake of the smoothing.
pub const EXTRA_ITERATIONS: usize = 2;

/// Where the evaluation of a point stands.
#[derive(Clone, Copy, Debug, PartialEq, Eq, Structural)]
pub enum EscapeStage {
    /// The orbit is followed and has stayed within the bailout radius so far.
    Searching,
    /// The orbit has left the bailout radius; the extra iterations are made.
    Escaping,
    /// The iteration budget ran out: the point counts as a member of the set.
    InSet,
    /// The point has escaped and is ready for smoothing.
    Escaped,
}

/// What the caller does next.
#[derive(Clone, Copy, Debug, PartialEq, Eq, Structural)]
pub enum EscapeStep {
    /// Replace `z` by `z*z + c` and ask again.
    Iterate,
    /// Stop: the point did not escape.
    InSet,
    /// Stop: the point escaped. Its ratio is `(phase - log2(log2(|z|)))`
    /// divided by the palette period, for the `z` now reached.
    Smooth { phase: usize },
}

/// The state of an evaluation as mathematical integers.
pub struct EscapeModel {
    /// Bound on the iterations spent looking for an escape.
    pub max_iter: nat,
    /// Iterations made while the orbit was within the bailout radius.
    pub iterations: nat,
    /// Iterations made after the escape.
    pub extra: nat,
    pub stage: EscapeStage,
}

impl EscapeModel {
    /// The state before the first point of the orbit is tested.
    pub open spec fn start(max_iter: nat) -> EscapeModel {
        EscapeModel { max_iter, iterations: 0, extra: 0, stage: EscapeStage::Searching }
    }

    /// What every reachable state satisfies. An escape is only ever found
    /// with `iterations < max_iter`, and membership is only ever declared
    /// with `iterations == max_iter`.
    pub open spec fn wf(self) -> bool {
        &&& self.iterations <= self.max_iter
        &&& match self.stage {
            EscapeStage::Searching => self.extra == 0,
            EscapeStage::Escaping => self.iterations < self.max_iter && self.extra
                <= EXTRA_ITERATIONS,
            EscapeStage::InSet => self.iterations == self.max_iter && self.extra == 0,
            EscapeStage::Escaped => self.iterations < self.max_iter && self.extra
                == EXTRA_ITERATIONS,
        }
    }

    /// Whether the evaluation has come to its result.
    pub open spec fn finished(self) -> bool {
        self.stage == EscapeStage::InSet || self.stage == EscapeStage::Escaped
    }

    /// Number of times the caller was told to iterate.
    pub open spec fn steps(self) -> nat {
        self.iterations + self.extra
    }

    /// A bound on the steps that are still to come: it drops with every
    /// step and is zero exactly when the evaluation has come to its result.
    pub open spec fn steps_left(self) -> nat {
        match self.stage {
            EscapeStage::Searching => (self.max_iter - self.iterations + EXTRA_ITERATIONS
                + 1) as nat,
            EscapeStage::Escaping => (EXTRA_ITERATIONS - self.extra + 1) as nat,
            EscapeStage::InSet => 0,
            EscapeStage::Escaped => 0,
        }
    }

    /// The place of the escape within the palette period.
    pub open spec fn phase(self) -> nat {
        ((self.iterations + EXTRA_ITERATIONS) % (ITER_COL_LIM as int)) as nat
    }

    /// The move made once the orbit is known to have escaped: the extra
    /// iterations one by one, then the smoothing.
    pub open spec fn next_after_escape(self) -> (EscapeModel, EscapeStep) {
        if self.extra < EXTRA_ITERATIONS {
            (
                EscapeModel { extra: self.extra + 1, stage: EscapeStage::Escaping, ..self },
                EscapeStep::Iterate,
            )
        } else {
            (
                EscapeModel { stage: EscapeStage::Escaped, ..self },
                EscapeStep::Smooth { phase: self.phase() as usize },
            )
        }
    }

    /// The next state and the step to take, given whether the current point
    /// of the orbit lies within the bailout radius. The answer is consulted
    /// only while searching with budget left.
    pub open spec fn next(self, within_bailout: bool) -> (EscapeModel, EscapeStep) {
        match self.stage {
            EscapeStage::Searching => {
                if self.iterations >= self.max_iter {
                    (EscapeModel { stage: EscapeStage::InSet, ..self }, EscapeStep::InSet)
                } else if within_bailout {
                    (EscapeModel { iterations: self.iterations + 1, ..self }, EscapeStep::Iterate)
                } else {
                    self.next_after_escape()
                }
            },
            EscapeStage::Escaping => self.next_after_escape(),
            EscapeStage::InSet => (self, EscapeStep::InSet),
            EscapeStage::Escaped => (self, EscapeStep::Smooth { phase: self.phase() as usize }),
        }
    }
}

/// Every move keeps the state well-formed and the budget unchanged.
/// Membership is declared only when the whole budget was spent inside the
/// bailout radius; smoothing is asked for only when the escape came earlier,
/// after all the extra iterations, and with the phase of the escape.
pub proof fn lemma_next_keeps_bounds(state: EscapeModel, within_bailout: bool)
    requires
        state.wf(),
    ensures
        ({
            let (after, step) = state.next(within_bailout);
            &&& after.wf()
            &&& after.max_iter == state.max_iter
            &&& after.iterations <= after.max_iter
            &&& step == EscapeStep::InSet ==> after.iterations == after.max_iter
            &&& step matches EscapeStep::Smooth { phase } ==> {
                &&& after.iterations < after.max_iter
                &&& after.extra == EXTRA_ITERATIONS
                &&& phase == (after.iterations + 2) % 200
                &&& phase < ITER_COL_LIM
            }
            &&& step == EscapeStep::Iterate ==> after.steps() == state.steps() + 1
            &&& step != EscapeStep::Iterate ==> after.finished() && after.steps() == state.steps()
        }),
{
}

/// Every evaluation ends: each step of an unfinished evaluation lowers the
/// bound on the steps to come, which starts at `max_iter` plus the extra
/// iterations plus one.
pub proof fn lemma_next_makes_progress(state: EscapeModel, within_bailout: bool)
    requires
        state.wf(),
        !state.finished(),
    ensures
        state.next(within_bailout).0.steps_left() < state.steps_left(),
        state.next(within_bailout).0.finished() <==> state.next(within_bailout).0.steps_left() == 0,
        EscapeModel::start(state.max_iter).steps_left() == state.max_iter + EXTRA_ITERATIONS + 1,
{
}

/// The state reached from `state` once the bailout tests in `trace` have
/// been reported one after the other.
pub open spec fn run(state: EscapeModel, trace: Seq<bool>) -> EscapeModel
    decreases trace.len(),
{
    if trace.len() == 0 {
        state
    } else {
        run(state, trace.drop_last()).next(trace.last()).0
    }
}

/// Reporting one more test moves the state by one step.
pub proof fn lemma_run_step(state: EscapeModel, trace: Seq<bool>, n: int)
    requires
        0 <= n < trace.len(),
    ensures
        run(state, trace.take(n + 1)) == run(state, trace.take(n)).next(trace[n]).0,
{
    assert(trace.take(n + 1).drop_last() =~= trace.take(n));
}

/// While the orbit stays within the bailout radius and budget is left, the
/// search goes on, with one iteration counted for each point tested.
pub proof fn lemma_run_searching(max_iter: nat, trace: Seq<bool>, n: int)
    requires
        0 <= n <= trace.len(),
        n <= max_iter,
        forall|i: int| 0 <= i < n ==> trace[i],
    ensures
        run(EscapeModel::start(max_iter), trace.take(n)) == (EscapeModel {
            max_iter,
            iterations: n as nat,
            extra: 0,
            stage: EscapeStage::Searching,
        }),
    decreases n,
{
    if n > 0 {
        lemma_run_searching(max_iter, trace, n - 1);
        lemma_run_step(EscapeModel::start(max_iter), trace, n - 1);
    }
}

/// A finished evaluation is not moved by further reports.
pub proof fn lemma_run_stays_finished(state: EscapeModel, trace: Seq<bool>, n: int, m: int)
    requires
        0 <= n <= m <= trace.len(),
        run(state, trace.take(n)).finished(),
    ensures
        run(state, trace.take(m)) == run(state, trace.take(n)),
    decreases m - n,
{
    if n < m {
        lemma_run_stays_finished(state, trace, n, m - 1);
        lemma_run_step(state, trace, m - 1);
    }
}

/// A point whose orbit stays within the bailout radius for `max_iter`
/// iterations is a member: the evaluation ends in `InSet` with exactly
/// `max_iter` iterations made.
pub proof fn lemma_run_in_set(max_iter: nat, trace: Seq<bool>)
    requires
        trace.len() > max_iter,
        forall|i: int| 0 <= i < max_iter ==> trace[i],
    ensures
        run(EscapeModel::start(max_iter), trace) == (EscapeModel {
            max_iter,
            iterations: max_iter,
            extra: 0,
            stage: EscapeStage::InSet,
        }),
{
    let start = EscapeModel::start(max_iter);
    lemma_run_searching(max_iter, trace, max_iter as int);
    lemma_run_step(start, trace, max_iter as int);
    lemma_run_stays_finished(start, trace, (max_iter + 1) as int, trace.len() as int);
    assert(trace.take(trace.len() as int) =~= trace);
}

/// A point whose orbit first leaves the bailout radius at iteration
/// `escape`, below `max_iter`, has escaped: the evaluation ends in `Escaped`
/// with `escape` iterations counted and the extra iterations made.
pub proof fn lemma_run_escaped(max_iter: nat, trace: Seq<bool>, escape: nat)
    requires
        escape < max_iter,
        trace.len() > escape + EXTRA_ITERATIONS,
        forall|i: int| 0 <= i < escape ==> trace[i],
        !trace[escape as int],
    ensures
        run(EscapeModel::start(max_iter), trace) == (EscapeModel {
            max_iter,
            iterations: escape,
            extra: EXTRA_ITERATIONS as nat,
            stage: EscapeStage::Escaped,
        }),
        run(EscapeModel::start(max_iter), trace).phase() == (escape + 2) % 200,
{
    let start = EscapeModel::start(max_iter);
    lemma_run_searching(max_iter, trace, escape as int);
    lemma_run_step(start, trace, escape as int);
    lemma_run_step(start, trace, (escape + 1) as int);
    lemma_run_step(start, trace, (escape + 2) as int);
    lemma_run_stays_finished(start, trace, (escape + 3) as int, trace.len() as int);
    assert(trace.take(trace.len() as int) =~= trace);
}

/// Follows the evaluation of one point.
pub struct EscapeTracker {
    max_iter: usize,
    iterations: usize,
    extra: usize,
    stage: EscapeStage,
}

impl View for EscapeTracker {
    type V = EscapeModel;

    closed spec fn view(&self) -> EscapeModel {
        EscapeModel {
            max_iter: self.max_iter as nat,
            iterations: self.iterations as nat,
            extra: self.extra as nat,
            stage: self.stage,
        }
    }
}

impl EscapeTracker {
    /// Begins the evaluation of a point with the given iteration budget.
    pub fn new(max_iter: usize) -> (tracker: EscapeTracker)
        ensures
            tracker@ == EscapeModel::start(max_iter as nat),
            tracker@.wf(),
    {
        EscapeTracker { max_iter, iterations: 0, extra: 0, stage: EscapeStage::Searching }
    }

    /// Takes the answer to "is the current point of the orbit within the
    /// bailout radius?" and says what to do next.
    pub fn advance(&mut self, within_bailout: bool) -> (step: EscapeStep)
        requires
            old(self)@.wf(),
        ensures
            (final(self)@, step) == old(self)@.next(within_bailout),
            final(self)@.wf(),
    {
        match self.stage {
            EscapeStage::Searching => {
                if self.iterations >= self.max_iter {
                    self.stage = EscapeStage::InSet;
                    EscapeStep::InSet
                } else if within_bailout {
                    self.iterations = self.iterations + 1;
                    EscapeStep::Iterate
                } else {
                    self.after_escape()
                }
            },
            EscapeStage::Escaping => self.after_escape(),
            EscapeStage::InSet => EscapeStep::InSet,
            EscapeStage::Escaped => EscapeStep::Smooth { phase: self.phase() },
        }
    }

    fn after_escape(&mut self) -> (step: EscapeStep)
        requires
            old(self)@.iterations < old(self)@.max_iter,
            old(self)@.extra <= EXTRA_ITERATIONS,
        ensures
            (final(self)@, step) == old(self)@.next_after_escape(),
    {
        if self.extra < EXTRA_ITERATIONS {
            self.extra = self.extra + 1;
            self.stage = EscapeStage::Escaping;
            EscapeStep::Iterate
        } else {
            self.stage = EscapeStage::Escaped;
            EscapeStep::Smooth { phase: self.phase() }
        }
    }

    fn phase(&self) -> (phase: usize)
        ensures
            phase == self@.phase(),
    {
        (self.iterations % ITER_COL_LIM + EXTRA_ITERATIONS) % ITER_COL_LIM
    }

    /// The iteration budget.
    pub fn max_iter(&self) -> (max_iter: usize)
        ensures
            max_iter == self@.max_iter,
    {
        self.max_iter
    }

    /// Iterations made so far while the orbit was within the bailout radius.
    pub fn iterations(&self) -> (iterations: usize)
        ensures
            iterations == self@.iterations,
    {
        self.iterations
    }

    /// Where the evaluation stands.
    pub fn stage(&self) -> (stage: EscapeStage)
        ensures
            stage == self@.stage,
    {
        self.stage
    }

    /// Whether the evaluation has come to its result.
    pub fn is_finished(&self) -> (finished: bool)
        ensures
            finished == self@.finished(),
    {
        match self.stage {
            EscapeStage::InSet => true,
            EscapeStage::Escaped => true,
            _ => false,
        }
    }
}

} // verus!
