//! What can go wrong while a program is read or run.

use vstd::prelude::*;
use vstd::string::StringExecFns;

verus! {

/// A fault of the tape.
#[derive(Debug, PartialEq, Eq, Clone, Copy, Structural)]
pub enum Error {
    /// The cell index would have fallen below zero.
    CellIndexUnderflow,
    /// The cell index would have risen above the largest index.
    CellIndexOverflow,
    /// The tape has no cell at this index.
    CellAccessError(usize),
}

/// Why a program's brackets do not pair.
#[derive(Debug, PartialEq, Eq, Clone, Copy, Structural)]
pub enum LoopErrorType {
    UnclosedBracket,
    UnexpectedClosingBracket,
}

/// Whether a bracket opens or closes a loop.
#[derive(Debug, PartialEq, Eq, Clone, Copy, Structural)]
pub enum LoopType {
    Start,
    End,
}

/// Why a run stopped.
#[derive(Debug, PartialEq, Eq, Clone, Copy, Structural)]
pub enum ExecutionErrorType {
    /// The program asked for input and none was left.
    InputError,
    /// The tape refused an access.
    MemoryError(Error),
    /// A bracket at this place has no partner in the loop table.
    LoopError(usize),
    /// The run was cut off after the steps it was allowed.
    StepLimit,
}

/// Where a run stands: the next instruction, the steps taken, and the
/// current cell.
#[derive(Debug, PartialEq, Eq, Clone, Copy, Structural)]
pub struct ExecutionContext {
    pub instruction_ptr: usize,
    pub cycle: usize,
    pub cell_index: usize,
}

impl Default for ExecutionContext {
    fn default() -> (r: Self)
        ensures
            r.instruction_ptr == 0,
            r.cycle == 0,
            r.cell_index == 0,
    {
        ExecutionContext { instruction_ptr: 0, cycle: 0, cell_index: 0 }
    }
}

/// An error with the program text it arose in and the place it points to.
#[derive(Debug)]
#[allow(inconsistent_fields)]
pub enum BrainfuckError {
    ParseError { src: String, location: usize, err_type: LoopErrorType, char_index: usize },
    ExecutionError {
        src: String,
        location: usize,
        ctx: ExecutionContext,
        err_type: ExecutionErrorType,
    },
}

impl Error {
    /// The fault in words.
    pub fn message(&self) -> (s: String)
        ensures
            s@ == match *self {
                Error::CellIndexUnderflow => "Unsigned integer underflow ocurred in cell index"@,
                Error::CellIndexOverflow => "Unsigned integer overflow ocurred in cell index"@,
                Error::CellAccessError(i) => "Could not access cell at index: "@
                    + crate::text::decimal(i as nat),
            },
    {
        match self {
            Error::CellIndexUnderflow => String::from_str(
                "Unsigned integer underflow ocurred in cell index",
            ),
            Error::CellIndexOverflow => String::from_str(
                "Unsigned integer overflow ocurred in cell index",
            ),
            Error::CellAccessError(i) => {
                let mut s = String::from_str("Could not access cell at index: ");
                crate::text::push_decimal(&mut s, *i as u64);
                s
            },
        }
    }
}

impl LoopErrorType {
    /// The error in words.
    pub fn message(&self) -> (s: String)
        ensures
            s@ == match *self {
                LoopErrorType::UnclosedBracket => "Unclosed bracket"@,
                LoopErrorType::UnexpectedClosingBracket => "Unexpected closing bracket"@,
            },
    {
        match self {
            LoopErrorType::UnclosedBracket => String::from_str("Unclosed bracket"),
            LoopErrorType::UnexpectedClosingBracket => String::from_str(
                "Unexpected closing bracket",
            ),
        }
    }
}

impl ExecutionErrorType {
    /// The error in words.
    pub fn message(&self) -> (s: String)
        ensures
            s@ == match *self {
                ExecutionErrorType::InputError => "Could not retrieve user input"@,
                ExecutionErrorType::MemoryError(_) =>
                    "An error occurred while interacting with the program's memory"@,
                ExecutionErrorType::LoopError(i) => "Attempted to jump to unknown loop location: "@
                    + crate::text::decimal(i as nat),
                ExecutionErrorType::StepLimit => "The run was cut off after the steps it was allowed"@,
            },
    {
        match self {
            ExecutionErrorType::InputError => String::from_str("Could not retrieve user input"),
            ExecutionErrorType::MemoryError(_) => String::from_str(
                "An error occurred while interacting with the program's memory",
            ),
            ExecutionErrorType::LoopError(i) => {
                let mut s = String::from_str("Attempted to jump to unknown loop location: ");
                crate::text::push_decimal(&mut s, *i as u64);
                s
            },
            ExecutionErrorType::StepLimit => String::from_str(
                "The run was cut off after the steps it was allowed",
            ),
        }
    }
}

impl BrainfuckError {
    /// The error in words.
    pub fn message(&self) -> (s: String)
        ensures
            s@ == match *self {
                BrainfuckError::ParseError { .. } => "Could not parse program"@,
                BrainfuckError::ExecutionError { .. } =>
                    "An error occurred while executing the program"@,
            },
    {
        match self {
            BrainfuckError::ParseError { .. } => String::from_str("Could not parse program"),
            BrainfuckError::ExecutionError { .. } => String::from_str(
                "An error occurred while executing the program",
            ),
        }
    }
}

} // verus!
