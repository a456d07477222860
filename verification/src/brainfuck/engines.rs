//! The two kinds of tape as engines with one interface.

use vstd::prelude::*;
use crate::brainfuck::errors::BrainfuckError;
use crate::brainfuck::interpreters::{interpret_fast, interpret_with_wrapping};
use crate::brainfuck::memory::{Linear, Memory, Wrapping};
use crate::brainfuck::program::is_interpretation;

verus! {

/// The engine whose tape begins at the first cell.
pub struct LinearEngine;

/// The engine whose tape wraps around at both ends.
pub struct WrappingEngine;

/// An engine runs a program text with an input, for a number of steps at most.
pub trait BrainfuckEngine {
    /// The kind of tape that the engine runs on.
    type Tape: Memory;

    /// Runs `src` with `input`, cut off after `max_steps` steps.
    fn run(src: &str, input: &str, max_steps: usize) -> (r: Result<String, BrainfuckError>)
        ensures
            is_interpretation::<Self::Tape>(src@, input@, max_steps as nat, r),
    ;
}

impl BrainfuckEngine for LinearEngine {
    type Tape = Linear;

    fn run(src: &str, input: &str, max_steps: usize) -> (r: Result<String, BrainfuckError>) {
        interpret_fast(src, input, max_steps)
    }
}

impl BrainfuckEngine for WrappingEngine {
    type Tape = Wrapping;

    fn run(src: &str, input: &str, max_steps: usize) -> (r: Result<String, BrainfuckError>) {
        interpret_with_wrapping(src, input, max_steps)
    }
}

} // verus!
