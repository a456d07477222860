//! The five kinds of instruction, by the characters that open them.

use vstd::prelude::*;

verus! {

pub const IO: &'static str = "\t\n";

pub const STACK: &'static str = " ";

pub const ARITHMETIC: &'static str = "\t ";

pub const FLOW_CONTROL: &'static str = "\n";

pub const HEAP_ACCESS: &'static str = "\t\t";

} // verus!
