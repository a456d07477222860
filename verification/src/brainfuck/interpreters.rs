//! Whole runs of a program text in one call.

use vstd::prelude::*;
use crate::brainfuck::errors::BrainfuckError;
use crate::brainfuck::memory::{Linear, Wrapping};
use crate::brainfuck::program::{BrainfuckProgram, is_interpretation};

verus! {

/// Runs a program on a tape whose index wraps around at both ends, so that
/// a program may step to the left of the first cell. The program reads the
/// characters of `input` and is cut off after `max_steps` steps.
pub fn interpret_with_wrapping(prog: &str, input: &str, max_steps: usize) -> (r: Result<
    String,
    BrainfuckError,
>)
    ensures
        is_interpretation::<Wrapping>(prog@, input@, max_steps as nat, r),
{
    let mut program = match BrainfuckProgram::<Wrapping>::wrapping_executor(prog) {
        Ok(p) => p,
        Err(e) => {
            return Err(e);
        },
    };
    program.feed(input);
    proof {
        assert(Seq::<char>::empty() + input@ =~= input@);
    }
    program.run(max_steps)
}

/// Runs a program on a tape that begins at the first cell: a step to the
/// left of it is an error. The program reads the characters of `input` and
/// is cut off after `max_steps` steps.
pub fn interpret_fast(prog: &str, input: &str, max_steps: usize) -> (r: Result<
    String,
    BrainfuckError,
>)
    ensures
        is_interpretation::<Linear>(prog@, input@, max_steps as nat, r),
{
    let mut program = match BrainfuckProgram::<Linear>::linear_memory_executor(prog) {
        Ok(p) => p,
        Err(e) => {
            return Err(e);
        },
    };
    program.feed(input);
    proof {
        assert(Seq::<char>::empty() + input@ =~= input@);
    }
    program.run(max_steps)
}

} // verus!
