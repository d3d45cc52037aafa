use vstd::prelude::*;
use crate::error::CalculationError;

verus! {

/// The operations that derive a new value from the current one.
#[derive(Debug, Clone, Copy, PartialEq, Eq, Structural)]
pub enum Operation {
    Add,
    Subtract,
    Multiply,
    Divide,
    Power,
    Square,
    SquareRoot,
    NaturalLog,
}

/// The sign of a value, as the domain rules read it; `Unordered` is a value
/// that compares neither below, at nor above zero (not a number).
#[derive(Debug, Clone, Copy, PartialEq, Eq, Structural)]
pub enum Sign {
    Negative,
    Zero,
    Positive,
    Unordered,
}

/// What the validator reads of a candidate value.
#[derive(Debug, Clone, Copy, PartialEq, Eq, Structural)]
pub struct ValueFacts {
    /// The value is neither infinite nor not-a-number.
    pub finite: bool,
    /// The floor of the base-10 logarithm of the value's magnitude; 0 for zero.
    pub magnitude: i32,
    /// The magnitude exceeds half of the largest representable value.
    pub beyond_half_max: bool,
}

/// The largest decimal order of magnitude that keeps full precision.
pub const MAX_MAGNITUDE: i32 = 15;

impl Operation {
    /// Whether the operation reads an operand besides the current value.
    pub open spec fn spec_is_binary(self) -> bool {
        match self {
            Operation::Add | Operation::Subtract | Operation::Multiply | Operation::Divide
            | Operation::Power => true,
            _ => false,
        }
    }

    pub fn is_binary(&self) -> (r: bool)
        ensures
            r == self.spec_is_binary(),
    {
        match self {
            Operation::Add | Operation::Subtract | Operation::Multiply | Operation::Divide
            | Operation::Power => true,
            _ => false,
        }
    }

    pub open spec fn spec_label(self) -> Seq<char> {
        match self {
            Operation::Add => seq!['+'],
            Operation::Subtract => seq!['-'],
            Operation::Multiply => seq!['*'],
            Operation::Divide => seq!['/'],
            Operation::Power => seq!['^'],
            Operation::Square => seq!['s', 'q', 'r'],
            Operation::SquareRoot => seq!['\u{221a}'],
            Operation::NaturalLog => seq!['l', 'n'],
        }
    }

    /// The short symbolic tag that labels a node made by this operation.
    pub fn label(&self) -> (r: &'static str)
        ensures
            r@ == self.spec_label(),
    {
        let r = match self {
            Operation::Add => "+",
            Operation::Subtract => "-",
            Operation::Multiply => "*",
            Operation::Divide => "/",
            Operation::Power => "^",
            Operation::Square => "sqr",
            Operation::SquareRoot => "\u{221a}",
            Operation::NaturalLog => "ln",
        };
        proof {
            reveal_strlit("+");
            reveal_strlit("-");
            reveal_strlit("*");
            reveal_strlit("/");
            reveal_strlit("^");
            reveal_strlit("sqr");
            reveal_strlit("\u{221a}");
            reveal_strlit("ln");
        }
        r
    }
}

/// The error that an operation's domain rule raises before anything is
/// computed. `guard` is the sign of the divisor for `Divide` and of the current
/// value for `SquareRoot` and `NaturalLog`; the other operations have no rule.
pub open spec fn domain_error(op: Operation, guard: Sign) -> Option<CalculationError> {
    match op {
        Operation::Divide => if guard == Sign::Zero {
            Some(CalculationError::DivisionByZero)
        } else {
            None
        },
        Operation::SquareRoot => if guard == Sign::Negative {
            Some(CalculationError::OutOfBounds)
        } else {
            None
        },
        Operation::NaturalLog => if guard == Sign::Negative || guard == Sign::Zero {
            Some(CalculationError::OutOfBounds)
        } else {
            None
        },
        _ => None,
    }
}

/// The error that the validator raises for a candidate with these facts.
pub open spec fn validation_error(facts: ValueFacts) -> Option<CalculationError> {
    if !facts.finite {
        Some(CalculationError::OutOfBounds)
    } else if facts.magnitude > MAX_MAGNITUDE || facts.beyond_half_max {
        Some(CalculationError::PrecisionLoss)
    } else {
        None
    }
}

/// The sign that the domain rule of `op` reads: the operand's for a binary
/// operation, the current value's otherwise.
pub fn guard_of(op: Operation, operand_sign: Sign, current_sign: Sign) -> (r: Sign)
    ensures
        r == if op.spec_is_binary() {
            operand_sign
        } else {
            current_sign
        },
{
    if op.is_binary() {
        operand_sign
    } else {
        current_sign
    }
}

/// The error of an operation: its domain rule first, then the validator.
pub open spec fn operation_error(op: Operation, guard: Sign, facts: ValueFacts) -> Option<
    CalculationError,
> {
    match domain_error(op, guard) {
        Some(e) => Some(e),
        None => validation_error(facts),
    }
}

/// Applies the domain rule of `op` (see `domain_error`).
pub fn check_domain(op: Operation, guard: Sign) -> (r: Result<(), CalculationError>)
    ensures
        r is Err <==> domain_error(op, guard) is Some,
        r is Err ==> r->Err_0 == domain_error(op, guard)->0,
{
    match op {
        Operation::Divide => if guard == Sign::Zero {
            return Err(CalculationError::DivisionByZero);
        },
        Operation::SquareRoot => if guard == Sign::Negative {
            return Err(CalculationError::OutOfBounds);
        },
        Operation::NaturalLog => if guard == Sign::Negative || guard == Sign::Zero {
            return Err(CalculationError::OutOfBounds);
        },
        _ => {},
    }
    Ok(())
}

/// Validates a candidate value: it must be finite, and neither of an order of
/// magnitude above `MAX_MAGNITUDE` nor beyond half of the largest value.
/// A valid candidate comes back unchanged.
pub fn checked_value<V>(candidate: V, facts: ValueFacts) -> (r: Result<V, CalculationError>)
    ensures
        r is Err <==> validation_error(facts) is Some,
        r is Err ==> r->Err_0 == validation_error(facts)->0,
        r is Ok ==> r->Ok_0 == candidate,
{
    if !facts.finite {
        return Err(CalculationError::OutOfBounds);
    }
    if facts.magnitude > MAX_MAGNITUDE || facts.beyond_half_max {
        return Err(CalculationError::PrecisionLoss);
    }
    Ok(candidate)
}

} // verus!
