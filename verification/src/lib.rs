//! A verified interpreter for the Brainfuck esoteric language.
//!
//! The library tokenizes a source string, precomputes the jump table that
//! pairs each `[` with its matching `]`, and executes the instructions
//! against a fixed-size byte tape. Cell values wrap modulo 256; the data
//! pointer never leaves the tape (a move past either end is a typed error);
//! a malformed program is rejected before any instruction runs.

use vstd::prelude::*;

pub mod brackets;
pub mod engine;
pub mod program;
pub mod token;

verus! {

/// The fatal error kinds of a run. All are final: nothing is retried.
#[derive(Clone, Copy, Debug, PartialEq, Eq, Structural)]
pub enum BfError {
    /// The source's brackets do not form a balanced, properly nested
    /// sequence; detected at program construction, before execution.
    UnbalancedBrackets,
    /// The data pointer would move past the last tape cell.
    TapeOverflow,
    /// The data pointer would move below the first tape cell.
    TapeUnderflow,
    /// A byte sink or byte source failed for a reason other than a clean
    /// end of input. The engine itself never produces it; a caller driving
    /// real input and output reports such a failure under this kind.
    IoError,
}

} // verus!
