//! Helpers for looking at a run.

use vstd::prelude::*;
use vstd::string::StringExecFns;
use crate::brainfuck::memory::Cell;
use crate::text::{decimal, push_decimal};

verus! {

pub use crate::brainfuck::loops::find_loops;

/// The values of `tape` in decimal notation, with a comma and a space
/// between two neighbours.
pub open spec fn spec_cells_text(tape: Seq<Cell>) -> Seq<char>
    decreases tape.len(),
{
    if tape.len() == 0 {
        Seq::empty()
    } else if tape.len() == 1 {
        decimal(tape[0] as nat)
    } else {
        spec_cells_text(tape.drop_last()) + ", "@ + decimal(tape.last() as nat)
    }
}

/// One line that shows a tape: the place of the instruction, a colon, and
/// the cells between square brackets.
pub open spec fn spec_tape_text(ip: usize, tape: Seq<Cell>) -> Seq<char> {
    decimal(ip as nat) + ": ["@ + spec_cells_text(tape) + "]"@
}

/// The line that shows `tape` at the instruction `ip`.
pub fn tape_text(ip: usize, tape: &[Cell]) -> (s: String)
    ensures
        s@ == spec_tape_text(ip, tape@),
{
    let mut s = String::new();
    push_decimal(&mut s, ip as u64);
    s.append(": [");
    let ghost head = s@;
    let mut i: usize = 0;
    while i < tape.len()
        invariant
            i <= tape@.len(),
            s@ == head + spec_cells_text(tape@.take(i as int)),
        decreases tape@.len() - i,
    {
        proof {
            assert(tape@.take(i + 1).drop_last() =~= tape@.take(i as int));
        }
        let ghost before = s@;
        if i > 0 {
            s.append(", ");
        }
        push_decimal(&mut s, tape[i] as u64);
        proof {
            let cells = spec_cells_text(tape@.take(i as int));
            let number = decimal(tape@[i as int] as nat);
            if i > 0 {
                assert(head + cells + ", "@ + number =~= head + (cells + ", "@ + number));
            } else {
                assert(head + cells + number =~= head + number);
            }
        }
        i = i + 1;
    }
    proof {
        assert(tape@.take(i as int) =~= tape@);
        assert(Seq::<char>::empty() + decimal(ip as nat) =~= decimal(ip as nat));
    }
    s.append("]");
    s
}

} // verus!
