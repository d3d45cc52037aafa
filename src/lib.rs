//! A calculator whose every value is a node of a history tree, with linear
//! undo/redo over the path to the current node and a stack of saved sessions.
//!
//! The library is generic over the value type: the caller computes candidate
//! values and reports the few facts about them that the rules read (their sign,
//! finiteness and order of magnitude); the library decides, records and
//! navigates.

pub mod error;
pub mod operation;
pub mod calc;
pub mod laws;
pub mod command;
