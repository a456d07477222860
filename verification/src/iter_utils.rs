//! A shorthand on iterators.

use vstd::prelude::*;
use vstd::std_specs::iter::IteratorSpec;

verus! {

/// Gathering what an iterator yields.
pub trait IteratorUtils: Iterator {
    /// All that the iterator yields, in order. The iterator must be one
    /// that ends.
    fn collect_vec(self) -> (v: Vec<Self::Item>) where Self: Sized
        requires
            self.obeys_prophetic_iter_laws(),
            self.decrease() is Some,
        ensures
            v@ == self.remaining(),
    ;
}

impl<T: Iterator> IteratorUtils for T {
    fn collect_vec(self) -> (v: Vec<Self::Item>) {
        let mut v: Vec<Self::Item> = Vec::new();
        let mut it = self;
        loop
            invariant
                it.obeys_prophetic_iter_laws(),
                it.decrease() is Some,
                self.remaining() == v@ + it.remaining(),
            decreases it.decrease()->0,
        {
            let ghost before = it.remaining();
            match it.next() {
                Some(x) => {
                    v.push(x);
                    proof {
                        assert(v@ + it.remaining() =~= v@.drop_last() + before);
                    }
                },
                None => {
                    proof {
                        assert(v@ + it.remaining() =~= v@);
                    }
                    return v;
                },
            }
        }
    }
}

} // verus!
