//! A machine on a tape of byte cells with eight instructions.

pub mod engines;
pub mod errors;
pub mod interpreters;
pub mod iterator;
pub mod loops;
pub mod machine;
pub mod memory;
pub mod parsers;
pub mod program;
pub mod utils;

pub use crate::brainfuck::engines::{BrainfuckEngine, LinearEngine, WrappingEngine};
pub use crate::brainfuck::errors::{
    BrainfuckError, ExecutionContext, ExecutionErrorType, LoopErrorType, LoopType,
};
pub use crate::brainfuck::interpreters::{interpret_fast, interpret_with_wrapping};
pub use crate::brainfuck::iterator::{BrainfuckIterator, Snapshot};
pub use crate::brainfuck::loops::verify_loops;
pub use crate::brainfuck::memory::Memory;
pub use crate::brainfuck::program::BrainfuckProgram;
