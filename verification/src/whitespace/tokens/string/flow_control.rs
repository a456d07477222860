//! Labels, jumps, calls and the end.

use vstd::prelude::*;

verus! {

pub const MARK: &'static str = "  ";

pub const CALL: &'static str = " \t";

pub const JUMP: &'static str = " \n";

pub const JUMP_ZERO: &'static str = "\t ";

pub const JUMP_NEGATIVE: &'static str = "\t\t";

pub const RETURN: &'static str = "\t\n";

pub const EXIT: &'static str = "\n\n";

} // verus!
