//! The five operations of arithmetic.

use vstd::prelude::*;

verus! {

pub const ADD: &'static str = "  ";

pub const SUB: &'static str = " \t";

pub const MUL: &'static str = " \n";

pub const DIV: &'static str = "\t ";

pub const MOD: &'static str = "\t\t";

} // verus!
