//! Storing to the heap and loading from it.

use vstd::prelude::*;

verus! {

pub const STORE: &'static str = " ";

pub const RETRIEVE: &'static str = "\t";

} // verus!
