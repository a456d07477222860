//! Reading and printing.

use vstd::prelude::*;

verus! {

pub const READ_CHAR: &'static str = "\t ";

pub const READ_NUM: &'static str = "\t\t";

pub const PRINT_NUM: &'static str = " \t";

pub const PRINT_CHAR: &'static str = "  ";

} // verus!
