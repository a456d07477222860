//! A stack machine on a fixed grid of cells that the program can read and rewrite.
//!
//! The grid has 25 rows and 80 columns. The instruction pointer walks over
//! it and wraps around at every edge. The stack holds numbers of sixteen
//! bits, arithmetic wraps, and a pop from the empty stack gives zero.
//!
//! Three things stop a run with a fault instead of passing in silence: a
//! division or a remainder by zero, a write to a place outside the grid, and
//! a read when the input has nothing left. A run is also cut off after the
//! number of steps that its caller allows, and says so.
//!
//! [`model`] holds the machine as mathematics, [`program`] the interpreter
//! that is proved against it, and [`laws`] what holds of every program.

pub mod cell;
pub mod chance;
pub mod input;
pub mod laws;
pub mod model;
pub mod program;
pub mod space;
pub mod tokens;

pub use crate::befunge::cell::{to_char, Cell};
pub use crate::befunge::input::Input;
pub use crate::befunge::model::{Fault, Status};
pub use crate::befunge::program::{Outcome, Program};
pub use crate::befunge::space::{Direction, Grid, Pos, MAX_HEIGHT, MAX_WIDTH};
pub use crate::befunge::tokens::{Data, Token};
