//! The characters that write each instruction.

pub mod arithmetic;
pub mod flow_control;
pub mod heap_access;
pub mod imp;
pub mod io;
pub mod stack;
