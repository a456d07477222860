//! The machine as mathematics: its state, one step, and a run of many steps.

use vstd::prelude::*;
use crate::brainfuck::errors::{Error, ExecutionContext, ExecutionErrorType, LoopType};
use crate::brainfuck::loops::{CLOSE, OPEN, is_pair};
use crate::brainfuck::memory::{Cell, Memory};

verus! {

/// One instruction of a program. Every byte that is none of the eight
/// instructions is `Other` and does nothing.
#[derive(Debug, PartialEq, Eq, Clone, Copy, Structural)]
pub enum Token {
    Increment,
    Decrement,
    MoveLeft,
    MoveRight,
    Print,
    Input,
    Loop(LoopType),
    Other,
}

/// The instruction that the byte `b` stands for.
pub open spec fn spec_token(b: u8) -> Token {
    if b == 43 {
        Token::Increment
    } else if b == 45 {
        Token::Decrement
    } else if b == 60 {
        Token::MoveLeft
    } else if b == 62 {
        Token::MoveRight
    } else if b == 46 {
        Token::Print
    } else if b == 44 {
        Token::Input
    } else if b == OPEN {
        Token::Loop(LoopType::Start)
    } else if b == CLOSE {
        Token::Loop(LoopType::End)
    } else {
        Token::Other
    }
}

/// The instructions of a program, byte by byte.
pub open spec fn spec_tokens(prog: Seq<u8>) -> Seq<Token> {
    Seq::new(prog.len(), |i: int| spec_token(prog[i]))
}

/// The state of a run between two steps.
pub struct RunState {
    /// The place of the next instruction.
    pub ip: usize,
    /// The number of steps taken; it stops counting at the largest number.
    pub cycle: usize,
    /// The index of the current cell.
    pub index: usize,
    /// The cells that exist, each with its value.
    pub cells: Map<usize, Cell>,
    /// The input that is still unread.
    pub input: Seq<char>,
    /// The text printed so far.
    pub output: Seq<char>,
}

impl RunState {
    /// The state in which every run begins.
    pub open spec fn initial(input: Seq<char>) -> RunState {
        RunState {
            ip: 0,
            cycle: 0,
            index: 0,
            cells: Map::<usize, Cell>::empty().insert(0, 0),
            input,
            output: Seq::empty(),
        }
    }

    /// Where the run stands.
    pub open spec fn context(self) -> ExecutionContext {
        ExecutionContext { instruction_ptr: self.ip, cycle: self.cycle, cell_index: self.index }
    }

    /// The state after the instruction at `self.ip` is done: one step
    /// counted, and the next instruction in line.
    pub open spec fn advanced(self) -> RunState {
        RunState {
            ip: (self.ip + 1) as usize,
            cycle: if self.cycle < usize::MAX {
                (self.cycle + 1) as usize
            } else {
                self.cycle
            },
            ..self
        }
    }

    /// The same state with `value` in the current cell.
    pub open spec fn with_value(self, value: Cell) -> RunState {
        RunState { cells: self.cells.insert(self.index, value), ..self }
    }
}

/// The bracket that belongs to the bracket at `i`.
pub open spec fn spec_partner(prog: Seq<u8>, i: int) -> int {
    if prog[i] == OPEN {
        choose|j: int| is_pair(prog, i, j)
    } else {
        choose|j: int| is_pair(prog, j, i)
    }
}

/// The byte that a character of the input puts into a cell: its code, cut
/// to eight bits.
pub open spec fn spec_input_byte(c: char) -> Cell {
    ((c as u32) % 256) as Cell
}

/// The fault of a run that touches a cell which does not exist.
pub open spec fn no_cell(index: usize) -> ExecutionErrorType {
    ExecutionErrorType::MemoryError(Error::CellAccessError(index))
}

/// One step of a run on a tape of kind `M`: what the instruction at `s.ip`
/// does to the state, or the fault on which it stops.
pub open spec fn spec_step<M: Memory>(prog: Seq<u8>, s: RunState) -> Result<
    RunState,
    ExecutionErrorType,
> {
    let here = s.cells.contains_key(s.index);
    let value = s.cells[s.index];
    match spec_token(prog[s.ip as int]) {
        Token::Increment => if here {
            Ok(s.with_value(((value + 1) % 256) as Cell).advanced())
        } else {
            Err(no_cell(s.index))
        },
        Token::Decrement => if here {
            Ok(s.with_value(((value - 1) % 256) as Cell).advanced())
        } else {
            Err(no_cell(s.index))
        },
        Token::MoveLeft => match M::spec_left(s.cells, s.index) {
            Ok((index, cells)) => Ok((RunState { index, cells, ..s }).advanced()),
            Err(e) => Err(ExecutionErrorType::MemoryError(e)),
        },
        Token::MoveRight => match M::spec_right(s.cells, s.index) {
            Ok((index, cells)) => Ok((RunState { index, cells, ..s }).advanced()),
            Err(e) => Err(ExecutionErrorType::MemoryError(e)),
        },
        Token::Print => if here {
            Ok((RunState { output: s.output.push(value as char), ..s }).advanced())
        } else {
            Err(no_cell(s.index))
        },
        Token::Input => if s.input.len() == 0 {
            Err(ExecutionErrorType::InputError)
        } else if here {
            Ok(
                (RunState { input: s.input.drop_first(), ..s }).with_value(
                    spec_input_byte(s.input[0]),
                ).advanced(),
            )
        } else {
            Err(no_cell(s.index))
        },
        Token::Loop(LoopType::Start) => if !here {
            Err(no_cell(s.index))
        } else if value == 0 {
            Ok((RunState { ip: spec_partner(prog, s.ip as int) as usize, ..s }).advanced())
        } else {
            Ok(s.advanced())
        },
        Token::Loop(LoopType::End) => if !here {
            Err(no_cell(s.index))
        } else if value != 0 {
            Ok((RunState { ip: spec_partner(prog, s.ip as int) as usize, ..s }).advanced())
        } else {
            Ok(s.advanced())
        },
        Token::Other => Ok(s.advanced()),
    }
}

/// How far a run has come.
pub enum Progress {
    /// The run goes on from this state, or has come to the program's end in it.
    Going(RunState),
    /// The run stopped in this state on this fault.
    Failed(RunState, ExecutionErrorType),
}

/// The run one step further. A run that has failed, or has come to the end
/// of the program, stays as it is.
pub open spec fn spec_turn<M: Memory>(prog: Seq<u8>, p: Progress) -> Progress {
    match p {
        Progress::Going(s) => if s.ip < prog.len() {
            match spec_step::<M>(prog, s) {
                Ok(next) => Progress::Going(next),
                Err(e) => Progress::Failed(s, e),
            }
        } else {
            p
        },
        Progress::Failed(_, _) => p,
    }
}

/// The run after `n` steps from `s`, or as it ended if it ended earlier.
pub open spec fn spec_trace<M: Memory>(prog: Seq<u8>, s: RunState, n: nat) -> Progress
    decreases n,
{
    if n == 0 {
        Progress::Going(s)
    } else {
        spec_turn::<M>(prog, spec_trace::<M>(prog, s, (n - 1) as nat))
    }
}

/// What a run from `s` gives that is cut off after `fuel` steps: the text
/// that the program printed, if it came to its end; else where it stopped
/// and why, a run that was cut off stopping on `StepLimit`.
pub open spec fn spec_run<M: Memory>(prog: Seq<u8>, s: RunState, fuel: nat) -> Result<
    Seq<char>,
    (ExecutionContext, ExecutionErrorType),
> {
    match spec_trace::<M>(prog, s, fuel) {
        Progress::Going(last) => if last.ip < prog.len() {
            Err((last.context(), ExecutionErrorType::StepLimit))
        } else {
            Ok(last.output)
        },
        Progress::Failed(last, e) => Err((last.context(), e)),
    }
}

/// A run that has ended stays as it ended, however many steps follow.
pub proof fn lemma_trace_ended<M: Memory>(prog: Seq<u8>, s: RunState, n: nat, k: nat)
    requires
        n <= k,
        match spec_trace::<M>(prog, s, n) {
            Progress::Going(last) => last.ip >= prog.len(),
            Progress::Failed(_, _) => true,
        },
    ensures
        spec_trace::<M>(prog, s, k) == spec_trace::<M>(prog, s, n),
    decreases k,
{
    if k > n {
        lemma_trace_ended::<M>(prog, s, n, (k - 1) as nat);
    }
}

} // verus!
