//! Interpreters and encoders for a handful of esoteric programming languages.
//!
//! The centre of the crate is [`befunge`]: a stack machine whose program lives
//! on a fixed two-dimensional grid that the running program may read and
//! rewrite. Beside it stand a machine on a tape of byte cells
//! ([`brainfuck`]), a language of spaces, tabs and line feeds
//! ([`whitespace`]), the ternary arithmetic of [`malbolge`], and two encoders
//! of JavaScript into a handful of characters ([`lbp`], [`aemkei`]).
//!
//! The executable functions carry contracts over a mathematical model
//! of what it computes, and the contracts are machine-checked.

pub mod text;
pub mod befunge;
pub mod brainfuck;
pub mod malbolge;
pub mod lbp;
pub mod whitespace;
pub mod iter_utils;
pub mod aemkei;
