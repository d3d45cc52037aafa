use vstd::prelude::*;
use vstd::string::StringExecFns;

verus! {

/// Every way an operation of the calculator can fail.
#[derive(Debug, Clone, PartialEq, Eq)]
pub enum CalculationError {
    /// A division whose divisor is exactly zero.
    DivisionByZero,
    /// Malformed input text, with a message saying what was wrong.
    ParseError(String),
    /// A result too large to keep its precision.
    PrecisionLoss,
    /// Pruning was asked of the root node, which has no parent.
    CannotDeleteRoot,
    /// A branch selection outside the children of the current node.
    InvalidChildIndex,
    /// Undo asked at the start of the linear history.
    CannotGoBackwards,
    /// Redo asked at the end of the linear history.
    CannotGoForwards,
    /// A value outside an operation's domain, or a result that is not finite.
    OutOfBounds,
    /// Recovery asked while no saved session is left.
    NoSnapshotAvailable,
}

impl CalculationError {
    /// The text that describes the error to a user.
    pub open spec fn spec_message(&self) -> Seq<char> {
        match self {
            CalculationError::DivisionByZero => "Division by zero"@,
            CalculationError::ParseError(msg) => "Parse error: "@ + msg@,
            CalculationError::PrecisionLoss => "Precision loss detected"@,
            CalculationError::CannotDeleteRoot => "Cannot delete root node"@,
            CalculationError::InvalidChildIndex => "Invalid child index"@,
            CalculationError::CannotGoBackwards => "Cannot go backwards"@,
            CalculationError::CannotGoForwards => "Cannot go forwards"@,
            CalculationError::OutOfBounds => "Value out of bounds"@,
            CalculationError::NoSnapshotAvailable => "No cached snapshot available"@,
        }
    }

    /// The text that describes the error to a user.
    pub fn message(&self) -> (r: String)
        ensures
            r@ == self.spec_message(),
    {
        match self {
            CalculationError::DivisionByZero => String::from_str("Division by zero"),
            CalculationError::ParseError(msg) => {
                let mut r = String::from_str("Parse error: ");
                r.append(msg.as_str());
                r
            },
            CalculationError::PrecisionLoss => String::from_str("Precision loss detected"),
            CalculationError::CannotDeleteRoot => String::from_str("Cannot delete root node"),
            CalculationError::InvalidChildIndex => String::from_str("Invalid child index"),
            CalculationError::CannotGoBackwards => String::from_str("Cannot go backwards"),
            CalculationError::CannotGoForwards => String::from_str("Cannot go forwards"),
            CalculationError::OutOfBounds => String::from_str("Value out of bounds"),
            CalculationError::NoSnapshotAvailable => String::from_str(
                "No cached snapshot available",
            ),
        }
    }
}

} // verus!
