//! Placing a trailing node on the recorded path.
//!
//! A node that follows the head at a given distance is found by walking the
//! polyline head -> newest checkpoint -> ... -> oldest checkpoint. The walk is
//! made here, and so is every decision on it: which formula gives the
//! direction of a stretch, and on which stretch the walk ends. Lengths and
//! angles are measured by functions that the caller hands in.

use crate::comparison::Comparison;
use crate::snake_model::{SnakeModel, TraceItem};
use std::collections::VecDeque;
use vstd::prelude::*;

verus! {

/// The formula that gives the signed angle of a vector `(x, y)`.
///
/// The mapping is this model's own convention and is no two-argument
/// arctangent: on the left half-plane both formulas land in the same range.
#[derive(Clone, Copy, Debug, PartialEq, Eq, Structural)]
pub enum AngleFormula {
    /// `atan(y / x)`
    Atan,
    /// `-atan(y / x)`
    NegatedAtan,
    /// `0`
    Zero,
    /// `pi - atan(y / x)`
    PiMinusAtan,
    /// `pi + atan(y / x)`
    PiPlusAtan,
    /// `pi / 2`
    HalfPi,
    /// `-pi / 2`
    NegatedHalfPi,
}

impl AngleFormula {
    /// Whether the formula takes the arctangent of the quotient `y / x`.
    pub open spec fn divides(self) -> bool {
        self == AngleFormula::Atan || self == AngleFormula::NegatedAtan || self
            == AngleFormula::PiMinusAtan || self == AngleFormula::PiPlusAtan
    }
}

/// The formula for the angle of a vector, by the way its coordinates compare
/// with zero. A coordinate that is neither above nor below zero counts as zero.
/// The vector without length has no angle.
pub open spec fn angle_formula(x: Comparison, y: Comparison) -> Option<AngleFormula> {
    if x.above() {
        if y.above() {
            Some(AngleFormula::Atan)
        } else if y.below() {
            Some(AngleFormula::NegatedAtan)
        } else {
            Some(AngleFormula::Zero)
        }
    } else if x.below() {
        if y.above() {
            Some(AngleFormula::PiMinusAtan)
        } else if y.below() {
            Some(AngleFormula::PiPlusAtan)
        } else {
            Some(AngleFormula::Zero)
        }
    } else {
        if y.above() {
            Some(AngleFormula::HalfPi)
        } else if y.below() {
            Some(AngleFormula::NegatedHalfPi)
        } else {
            None
        }
    }
}

/// Chooses the formula for the signed angle of a vector.
///
/// `x` and `y` say how the vector's coordinates compare with zero. The result
/// is `None` exactly for the vector whose coordinates are both zero: it has no
/// direction, and the caller keeps the direction it had. A formula that
/// divides by `x` is chosen only where `x` differs from zero.
pub fn vec_angle(x: Comparison, y: Comparison) -> (formula: Option<AngleFormula>)
    ensures
        formula == angle_formula(x, y),
        formula is None <==> !x.above() && !x.below() && !y.above() && !y.below(),
        formula matches Some(f) && f.divides() ==> x.above() || x.below(),
{
    if x.is_above() {
        if y.is_above() {
            Some(AngleFormula::Atan)
        } else if y.is_below() {
            Some(AngleFormula::NegatedAtan)
        } else {
            Some(AngleFormula::Zero)
        }
    } else if x.is_below() {
        if y.is_above() {
            Some(AngleFormula::PiMinusAtan)
        } else if y.is_below() {
            Some(AngleFormula::PiPlusAtan)
        } else {
            Some(AngleFormula::Zero)
        }
    } else {
        if y.is_above() {
            Some(AngleFormula::HalfPi)
        } else if y.is_below() {
            Some(AngleFormula::NegatedHalfPi)
        } else {
            None
        }
    }
}

/// Why a node cannot be placed.
#[derive(Clone, Copy, Debug, PartialEq, Eq, Structural)]
pub enum TraceError {
    /// The path holds no checkpoint, so there is no stretch to walk.
    EmptyTrace,
}

/// What the walk does with the stretch from its current position to a
/// checkpoint.
#[derive(Clone, Copy, Debug, PartialEq, Eq, Structural)]
pub enum TraceStep {
    /// The walk ends on this stretch: the node lies at the remaining distance
    /// from the current position, in the direction of the checkpoint.
    Finish,
    /// The stretch is used up: the walk moves to the checkpoint, takes the
    /// stretch's length off the remaining distance and goes on.
    Advance,
}

/// The position of the oldest checkpoint in a path of `trace_length`
/// checkpoints, counted from the newest, which has position 0.
pub fn last_trace_index(trace_length: usize) -> (r: Result<usize, TraceError>)
    ensures
        trace_length == 0 <==> r is Err,
        r matches Ok(last) ==> last == trace_length - 1,
        r matches Err(e) ==> e == TraceError::EmptyTrace,
{
    if trace_length == 0 {
        Err(TraceError::EmptyTrace)
    } else {
        Ok(trace_length - 1)
    }
}

/// The step the walk takes at a checkpoint.
///
/// The walk ends where the remaining distance is less than the stretch, and
/// in any case at the oldest checkpoint: there the remaining distance is gone
/// along the last stretch's direction, past the checkpoint if need be.
pub open spec fn step_at(
    checkpoint_index: usize,
    last_trace_index: usize,
    remaining: Comparison,
) -> TraceStep {
    if remaining.below() || checkpoint_index == last_trace_index {
        TraceStep::Finish
    } else {
        TraceStep::Advance
    }
}

/// Decides the step of the walk at the checkpoint with position
/// `checkpoint_index`, the newest having position 0.
///
/// `remaining` compares the distance that is still to go with the length of
/// the stretch from the current position to the checkpoint.
pub fn trace_step(checkpoint_index: usize, last_trace_index: usize, remaining: Comparison) -> (step:
    TraceStep)
    ensures
        step == step_at(checkpoint_index, last_trace_index, remaining),
        checkpoint_index == last_trace_index ==> step == TraceStep::Finish,
        step == TraceStep::Advance <==> !remaining.below() && checkpoint_index != last_trace_index,
{
    if remaining.is_below() || checkpoint_index == last_trace_index {
        TraceStep::Finish
    } else {
        TraceStep::Advance
    }
}

/// The walk that stands in `state` before the checkpoint at position `from`
/// may end in `end`.
///
/// `measured(state, checkpoint, seen, remaining)` says that looking from
/// `state` at the checkpoint may give the state `seen` and the comparison
/// `remaining`; `gone(seen, checkpoint, step, next)` says that taking `step`
/// from `seen` may give `next`. Checkpoint after checkpoint, newest first, the
/// stretch is measured and the step it calls for is taken. The walk ends with
/// the first step that is a finish, or, where none is, behind the last
/// checkpoint of the path.
pub open spec fn walk_ends<P, S>(
    trace: Seq<TraceItem<P>>,
    last_trace_index: usize,
    measured: spec_fn(S, P, S, Comparison) -> bool,
    gone: spec_fn(S, P, TraceStep, S) -> bool,
    from: int,
    state: S,
    end: S,
) -> bool
    decreases trace.len() - from,
{
    if from < 0 || from >= trace.len() {
        end == state
    } else {
        exists|seen: S, remaining: Comparison, next: S|
            {
                &&& #[trigger] measured(state, trace[from].pos, seen, remaining)
                &&& #[trigger] gone(
                    seen,
                    trace[from].pos,
                    step_at(from as usize, last_trace_index, remaining),
                    next,
                )
                &&& if step_at(from as usize, last_trace_index, remaining) == TraceStep::Finish {
                    end == next
                } else {
                    walk_ends(trace, last_trace_index, measured, gone, from + 1, next, end)
                }
            }
    }
}

/// Where measuring and stepping each give one outcome only, the walk has one
/// end only.
pub proof fn lemma_walk_has_one_end<P, S>(
    trace: Seq<TraceItem<P>>,
    last_trace_index: usize,
    measured: spec_fn(S, P, S, Comparison) -> bool,
    gone: spec_fn(S, P, TraceStep, S) -> bool,
    from: int,
    state: S,
    end: S,
    other_end: S,
)
    requires
        forall|state: S, checkpoint: P, seen: S, remaining: Comparison, seen2: S, remaining2: Comparison|
            #[trigger] measured(state, checkpoint, seen, remaining) && #[trigger] measured(
                state,
                checkpoint,
                seen2,
                remaining2,
            ) ==> seen == seen2 && remaining == remaining2,
        forall|seen: S, checkpoint: P, step: TraceStep, next: S, next2: S|
            #[trigger] gone(seen, checkpoint, step, next) && #[trigger] gone(
                seen,
                checkpoint,
                step,
                next2,
            ) ==> next == next2,
        walk_ends(trace, last_trace_index, measured, gone, from, state, end),
        walk_ends(trace, last_trace_index, measured, gone, from, state, other_end),
    ensures
        end == other_end,
    decreases trace.len() - from,
{
    if 0 <= from < trace.len() {
        let (seen, remaining, next) = choose|seen: S, remaining: Comparison, next: S|
            {
                &&& #[trigger] measured(state, trace[from].pos, seen, remaining)
                &&& #[trigger] gone(seen, trace[from].pos, step_at(from as usize, last_trace_index, remaining), next)
                &&& if step_at(from as usize, last_trace_index, remaining) == TraceStep::Finish {
                    end == next
                } else {
                    walk_ends(trace, last_trace_index, measured, gone, from + 1, next, end)
                }
            };
        let (seen2, remaining2, next2) = choose|seen: S, remaining: Comparison, next: S|
            {
                &&& #[trigger] measured(state, trace[from].pos, seen, remaining)
                &&& #[trigger] gone(seen, trace[from].pos, step_at(from as usize, last_trace_index, remaining), next)
                &&& if step_at(from as usize, last_trace_index, remaining) == TraceStep::Finish {
                    other_end == next
                } else {
                    walk_ends(trace, last_trace_index, measured, gone, from + 1, next, other_end)
                }
            };
        assert(seen == seen2 && remaining == remaining2);
        assert(next == next2);
        if step_at(from as usize, last_trace_index, remaining) != TraceStep::Finish {
            lemma_walk_has_one_end(
                trace,
                last_trace_index,
                measured,
                gone,
                from + 1,
                next,
                end,
                other_end,
            );
        }
    }
}

/// Walks the path from the head towards the oldest checkpoint and hands back
/// the state in which the walk ends.
///
/// What is measured is the caller's: `start` holds where the walk begins, how
/// far it has to go and the direction it starts with. `measure` looks from a
/// state at a checkpoint, notes direction and length of the stretch between
/// them, and says how the distance that is left compares with that length.
/// `go` takes the step that this function has decided on: on a finish it goes
/// the distance that is left along the stretch, else it moves to the
/// checkpoint and takes the length of the stretch off the distance.
///
/// The checkpoints are visited newest first. The walk finishes on the first
/// stretch that is longer than the distance left, and on the stretch to the
/// checkpoint at position `trace_length - 1` in any case. A path said to hold
/// no checkpoint is an error.
pub fn calculate_node_pos_traced_on_distance_from_head<P, S, M, G>(
    start: S,
    trace: &VecDeque<TraceItem<P>>,
    trace_length: usize,
    measure: M,
    go: G,
) -> (r: Result<S, TraceError>) where
    M: Fn(S, &P) -> (S, Comparison),
    G: Fn(S, &P, TraceStep) -> S,

    requires
        forall|state: S, i: int|
            0 <= i < trace@.len() ==> call_requires(measure, (state, &#[trigger] trace@[i].pos)),
        forall|state: S, i: int, step: TraceStep|
            0 <= i < trace@.len() ==> call_requires(go, (state, &#[trigger] trace@[i].pos, step)),
    ensures
        trace_length == 0 <==> r is Err,
        r matches Err(e) ==> e == TraceError::EmptyTrace,
        r matches Ok(end) ==> walk_ends(
            trace@,
            (trace_length - 1) as usize,
            |state: S, checkpoint: P, seen: S, remaining: Comparison|
                call_ensures(measure, (state, &checkpoint), (seen, remaining)),
            |seen: S, checkpoint: P, step: TraceStep, next: S|
                call_ensures(go, (seen, &checkpoint, step), next),
            0,
            start,
            end,
        ),
{
    let last: usize = match last_trace_index(trace_length) {
        Ok(last) => last,
        Err(e) => {
            return Err(e);
        },
    };
    let ghost measured = |state: S, checkpoint: P, seen: S, remaining: Comparison|
        call_ensures(measure, (state, &checkpoint), (seen, remaining));
    let ghost gone = |seen: S, checkpoint: P, step: TraceStep, next: S|
        call_ensures(go, (seen, &checkpoint, step), next);
    let mut state = start;
    let mut i: usize = 0;
    while i < trace.len()
        invariant
            i <= trace@.len(),
            trace_length > 0,
            last == trace_length - 1,
            measured == |state: S, checkpoint: P, seen: S, remaining: Comparison|
                call_ensures(measure, (state, &checkpoint), (seen, remaining)),
            gone == |seen: S, checkpoint: P, step: TraceStep, next: S|
                call_ensures(go, (seen, &checkpoint, step), next),
            forall|state: S, i: int|
                0 <= i < trace@.len() ==> call_requires(
                    measure,
                    (state, &#[trigger] trace@[i].pos),
                ),
            forall|state: S, i: int, step: TraceStep|
                0 <= i < trace@.len() ==> call_requires(
                    go,
                    (state, &#[trigger] trace@[i].pos, step),
                ),
            forall|end: S| #[trigger]
                walk_ends(trace@, last, measured, gone, i as int, state, end) ==> walk_ends(
                    trace@,
                    last,
                    measured,
                    gone,
                    0,
                    start,
                    end,
                ),
        decreases trace@.len() - i,
    {
        let ghost before = state;
        let checkpoint = &trace[i].pos;
        let (seen, remaining) = measure(state, checkpoint);
        let step = trace_step(i, last, remaining);
        let ghost noted = seen;
        let next = go(seen, checkpoint, step);
        proof {
            assert(measured(before, trace@[i as int].pos, noted, remaining));
            assert(gone(noted, trace@[i as int].pos, step, next));
        }
        match step {
            TraceStep::Finish => {
                assert(walk_ends(trace@, last, measured, gone, i as int, before, next));
                return Ok(next);
            },
            TraceStep::Advance => {
                assert forall|end: S| #[trigger]
                    walk_ends(trace@, last, measured, gone, i + 1, next, end) implies walk_ends(
                    trace@,
                    last,
                    measured,
                    gone,
                    i as int,
                    before,
                    end,
                ) by {}
                state = next;
                i += 1;
            },
        }
    }
    assert(walk_ends(trace@, last, measured, gone, i as int, state, state));
    Ok(state)
}

/// Places a piece that trails the head of a body: walks the whole history of
/// the body, as [`calculate_node_pos_traced_on_distance_from_head`] does with
/// a path of as many checkpoints as the history holds.
///
/// `start` holds the head's position and direction and the distance at which
/// the piece trails. A history without records is an error.
pub fn trailing_position<P, S, M, G>(snake: &SnakeModel<P>, start: S, measure: M, go: G) -> (r:
    Result<S, TraceError>) where M: Fn(S, &P) -> (S, Comparison), G: Fn(S, &P, TraceStep) -> S
    requires
        forall|state: S, i: int|
            0 <= i < snake.trace@.len() ==> call_requires(
                measure,
                (state, &#[trigger] snake.trace@[i].pos),
            ),
        forall|state: S, i: int, step: TraceStep|
            0 <= i < snake.trace@.len() ==> call_requires(
                go,
                (state, &#[trigger] snake.trace@[i].pos, step),
            ),
    ensures
        snake.trace@.len() == 0 <==> r is Err,
        r matches Err(e) ==> e == TraceError::EmptyTrace,
        r matches Ok(end) ==> walk_ends(
            snake.trace@,
            (snake.trace@.len() - 1) as usize,
            |state: S, checkpoint: P, seen: S, remaining: Comparison|
                call_ensures(measure, (state, &checkpoint), (seen, remaining)),
            |seen: S, checkpoint: P, step: TraceStep, next: S|
                call_ensures(go, (seen, &checkpoint, step), next),
            0,
            start,
            end,
        ),
{
    calculate_node_pos_traced_on_distance_from_head(
        start,
        &snake.trace,
        snake.trace.len(),
        measure,
        go,
    )
}

} // verus!
