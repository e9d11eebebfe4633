//! Runs of procedures that go from step to step.
//!
//! A procedure takes what came of its last step as an event and says what the next step is. A run
//! is what a caller sees that does each step and hands back what came of it.

use vstd::prelude::*;

verus! {

/// One turn of a procedure: an event and the step that follows it.
pub struct Turn<E, S> {
    pub event: E,
    pub step: S,
}

/// The event of a turn answers the step of the turn before.
pub open spec fn answered<E, S>(
    run: Seq<Turn<E, S>>,
    i: int,
    answers: spec_fn(S, E) -> bool,
) -> bool {
    answers(run[i - 1].step, run[i].event)
}

/// A run starts with an event that starts the procedure; each step follows its event, and each
/// later event answers the step before.
pub open spec fn is_run<E, S>(
    run: Seq<Turn<E, S>>,
    starts: spec_fn(E) -> bool,
    follows: spec_fn(E, S) -> bool,
    answers: spec_fn(S, E) -> bool,
) -> bool {
    &&& run.len() > 0 ==> starts(run[0].event)
    &&& forall|i: int| 0 <= i < run.len() ==> follows((#[trigger] run[i]).event, run[i].step)
    &&& forall|i: int| 0 < i < run.len() ==> #[trigger] answered(run, i, answers)
}

} // verus!
