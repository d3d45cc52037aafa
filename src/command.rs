use vstd::prelude::*;
use crate::operation::Operation;

verus! {

/// What a numbered menu choice of the interactive session asks for.
#[derive(Debug, Clone, Copy, PartialEq, Eq, Structural)]
pub enum Command {
    /// Derive a new value; a binary operation first asks for its operand.
    Apply(Operation),
    Redo,
    Undo,
    Reset,
    ShowHistory,
    Recover,
    Exit,
}

pub open spec fn spec_command_of(n: i32) -> Option<Command> {
    if n == 1 {
        Some(Command::Apply(Operation::Add))
    } else if n == 2 {
        Some(Command::Apply(Operation::Subtract))
    } else if n == 3 {
        Some(Command::Apply(Operation::Multiply))
    } else if n == 4 {
        Some(Command::Apply(Operation::Divide))
    } else if n == 5 {
        Some(Command::Apply(Operation::Power))
    } else if n == 6 {
        Some(Command::Apply(Operation::SquareRoot))
    } else if n == 7 {
        Some(Command::Apply(Operation::Square))
    } else if n == 8 {
        Some(Command::Apply(Operation::NaturalLog))
    } else if n == 9 {
        Some(Command::Redo)
    } else if n == 10 {
        Some(Command::Undo)
    } else if n == 11 {
        Some(Command::Reset)
    } else if n == 12 {
        Some(Command::ShowHistory)
    } else if n == 13 {
        Some(Command::Recover)
    } else if n == 14 {
        Some(Command::Exit)
    } else {
        None
    }
}

/// The command of menu choice `n` (1 to 14), or `None` for any other number.
pub fn command_of(n: i32) -> (r: Option<Command>)
    ensures
        r == spec_command_of(n),
        r is Some <==> 1 <= n <= 14,
{
    match n {
        1 => Some(Command::Apply(Operation::Add)),
        2 => Some(Command::Apply(Operation::Subtract)),
        3 => Some(Command::Apply(Operation::Multiply)),
        4 => Some(Command::Apply(Operation::Divide)),
        5 => Some(Command::Apply(Operation::Power)),
        6 => Some(Command::Apply(Operation::SquareRoot)),
        7 => Some(Command::Apply(Operation::Square)),
        8 => Some(Command::Apply(Operation::NaturalLog)),
        9 => Some(Command::Redo),
        10 => Some(Command::Undo),
        11 => Some(Command::Reset),
        12 => Some(Command::ShowHistory),
        13 => Some(Command::Recover),
        14 => Some(Command::Exit),
        _ => None,
    }
}

} // verus!
