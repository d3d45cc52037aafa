use vstd::prelude::*;
use crate::calc::CalcView;
use crate::error::CalculationError;
use crate::operation::{
    Operation, Sign, ValueFacts, domain_error, operation_error, validation_error,
};

verus! {

/// The value that an accumulator reaches from `start` by applying each step's
/// function in turn.
pub open spec fn accumulate<V>(start: V, steps: Seq<(spec_fn(V) -> V, Option<Operation>)>) -> V
    decreases steps.len(),
{
    if steps.len() == 0 {
        start
    } else {
        (steps.last().0)(accumulate(start, steps.drop_last()))
    }
}

/// The calculator after each step has recorded, as a new current node, the
/// value that the step's function gives on the result before it.
pub open spec fn replay<V>(c: CalcView<V>, steps: Seq<(spec_fn(V) -> V, Option<Operation>)>) -> CalcView<V>
    decreases steps.len(),
{
    if steps.len() == 0 {
        c
    } else {
        let before = replay(c, steps.drop_last());
        before.inserted((steps.last().0)(before.value()), steps.last().1)
    }
}

pub proof fn lemma_replay_len<V>(c: CalcView<V>, steps: Seq<(spec_fn(V) -> V, Option<Operation>)>)
    requires
        c.live.current < c.nodes.len(),
        c.nodes.len() + steps.len() <= usize::MAX,
    ensures
        replay(c, steps).nodes.len() == c.nodes.len() + steps.len(),
        replay(c, steps).live.current < replay(c, steps).nodes.len(),
    decreases steps.len(),
{
    if steps.len() > 0 {
        lemma_replay_len(c, steps.drop_last());
    }
}

/// Replaying successful steps on the calculator ends on the result that the
/// same steps give on a plain accumulator started at the current result:
/// each successful step records exactly the value computed from the result
/// before it (see `apply_op` and `input`).
pub proof fn replay_matches_accumulator<V>(
    c: CalcView<V>,
    steps: Seq<(spec_fn(V) -> V, Option<Operation>)>,
)
    requires
        c.wf(),
        c.nodes.len() + steps.len() <= usize::MAX,
    ensures
        replay(c, steps).value() == accumulate(c.value(), steps),
    decreases steps.len(),
{
    if steps.len() > 0 {
        let rest = steps.drop_last();
        assert(c.live.history[c.live.cursor as int] < c.nodes.len());
        replay_matches_accumulator(c, rest);
        lemma_replay_len(c, rest);
        let before = replay(c, rest);
        let v = (steps.last().0)(before.value());
        assert(before.inserted(v, steps.last().1).nodes[before.nodes.len() as int].value == v);
    }
}

/// Dividing by exactly zero is always rejected with `DivisionByZero`, whatever
/// the candidate; a rejected operation leaves the calculator unchanged.
pub proof fn division_by_zero_rejected(facts: ValueFacts)
    ensures
        operation_error(Operation::Divide, Sign::Zero, facts) == Some(
            CalculationError::DivisionByZero,
        ),
{
}

/// An operation that its domain rule lets through fails exactly when the
/// validator rejects its candidate, and with the validator's error; a failed
/// operation leaves the calculator unchanged (see `apply_op`).
pub proof fn validator_decides_past_domain(op: Operation, guard: Sign, facts: ValueFacts)
    requires
        domain_error(op, guard) is None,
    ensures
        operation_error(op, guard, facts) == validation_error(facts),
{
}

/// The square root of a negative value, and the natural logarithm of a
/// negative value or of zero, are always rejected with `OutOfBounds`.
pub proof fn root_and_log_domains(guard: Sign, facts: ValueFacts)
    ensures
        operation_error(Operation::SquareRoot, Sign::Negative, facts) == Some(
            CalculationError::OutOfBounds,
        ),
        guard == Sign::Negative || guard == Sign::Zero ==> operation_error(
            Operation::NaturalLog,
            guard,
            facts,
        ) == Some(CalculationError::OutOfBounds),
{
}

/// Undo followed by redo restores the live position, and with it the current
/// node and its value; navigation leaves every node as it was.
pub proof fn backwards_then_forwards<V>(c: CalcView<V>)
    requires
        c.wf(),
        c.live.cursor > 0,
    ensures
        c.backwards().forwards() == c,
        c.backwards().nodes == c.nodes,
{
    assert(c.backwards().forwards().live == c.live);
}

/// Redo followed by undo restores the live position, and with it the current
/// node and its value; navigation leaves every node as it was.
pub proof fn forwards_then_backwards<V>(c: CalcView<V>)
    requires
        c.wf(),
        c.live.cursor + 1 < c.live.history.len(),
    ensures
        c.forwards().backwards() == c,
        c.forwards().nodes == c.nodes,
{
    assert(c.forwards().backwards().live == c.live);
}

/// A reset followed by a recovery restores the live position and the result
/// held before the reset, and leaves the stack of snapshots as it was.
pub proof fn reset_then_recover<V>(c: CalcView<V>)
    requires
        c.wf(),
    ensures
        c.after_reset().recovered().live == c.live,
        c.after_reset().recovered().snapshots == c.snapshots,
        c.after_reset().recovered().value() == c.value(),
{
    assert(c.live.history[c.live.cursor as int] < c.nodes.len());
    assert(c.after_reset().recovered().snapshots =~= c.snapshots);
}

} // verus!
