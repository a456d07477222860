//! Work on the stack.

use vstd::prelude::*;

verus! {

pub const PUSH: &'static str = " ";

pub const DUPLICATE: &'static str = "\n ";

pub const SWAP: &'static str = "\n\t";

pub const DISCARD: &'static str = "\n\n";

pub const COPY: &'static str = "\t ";

pub const SLIDE: &'static str = "\t\n";

} // verus!
