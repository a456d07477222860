//! A second reading of a program, in which each bracket knows its place.

use vstd::prelude::*;
use crate::text::chars_of;

verus! {

/// One character of a program, read as an operation. A bracket carries the
/// place of its first byte in the program's text.
#[derive(Debug, PartialEq, Eq, Clone, Copy, Structural)]
pub enum Operation {
    Increment,
    Decrement,
    MoveLeft,
    MoveRight,
    Print,
    Input,
    LoopStart(usize),
    LoopEnd(usize),
    Other(char),
}

/// The number of bytes that write `c`.
pub open spec fn spec_width(c: char) -> nat {
    if (c as u32) < 0x80 {
        1
    } else if (c as u32) < 0x800 {
        2
    } else if (c as u32) < 0x1_0000 {
        3
    } else {
        4
    }
}

/// The place of the first byte of character `i` of `text`.
pub open spec fn spec_offset(text: Seq<char>, i: int) -> nat
    decreases i,
{
    if i <= 0 {
        0
    } else {
        spec_offset(text, i - 1) + spec_width(text[i - 1])
    }
}

/// The operation that the character `c` at the byte `ip` stands for.
pub open spec fn spec_operation(ip: usize, c: char) -> Operation {
    if c == '+' {
        Operation::Increment
    } else if c == '-' {
        Operation::Decrement
    } else if c == '<' {
        Operation::MoveLeft
    } else if c == '>' {
        Operation::MoveRight
    } else if c == '.' {
        Operation::Print
    } else if c == ',' {
        Operation::Input
    } else if c == '[' {
        Operation::LoopStart(ip)
    } else if c == ']' {
        Operation::LoopEnd(ip)
    } else {
        Operation::Other(c)
    }
}

/// The number of bytes that write `c`.
pub fn width(c: char) -> (n: usize)
    ensures
        n == spec_width(c),
{
    let code: u32 = c as u32;
    if code < 0x80 {
        1
    } else if code < 0x800 {
        2
    } else if code < 0x1_0000 {
        3
    } else {
        4
    }
}

/// The operations of a program, one for each character. It gives `None`
/// where the places of the characters do not fit into `usize`.
pub fn parse(prog: &str) -> (r: Option<Vec<Operation>>)
    ensures
        match r {
            Some(ops) => {
                &&& ops@.len() == prog@.len()
                &&& spec_offset(prog@, prog@.len() as int) <= usize::MAX
                &&& forall|i: int|
                    0 <= i < prog@.len() ==> #[trigger] ops@[i] == spec_operation(
                        spec_offset(prog@, i) as usize,
                        prog@[i],
                    )
            },
            None => spec_offset(prog@, prog@.len() as int) > usize::MAX,
        },
{
    let chars = chars_of(prog);
    let mut ops: Vec<Operation> = Vec::new();
    let mut ip: usize = 0;
    let mut i: usize = 0;
    while i < chars.len()
        invariant
            i <= chars@.len(),
            chars@ == prog@,
            ops@.len() == i,
            ip == spec_offset(prog@, i as int),
            forall|k: int|
                0 <= k < i ==> #[trigger] ops@[k] == spec_operation(
                    spec_offset(prog@, k) as usize,
                    prog@[k],
                ),
        decreases chars@.len() - i,
    {
        let c = chars[i];
        let op = if c == '+' {
            Operation::Increment
        } else if c == '-' {
            Operation::Decrement
        } else if c == '<' {
            Operation::MoveLeft
        } else if c == '>' {
            Operation::MoveRight
        } else if c == '.' {
            Operation::Print
        } else if c == ',' {
            Operation::Input
        } else if c == '[' {
            Operation::LoopStart(ip)
        } else if c == ']' {
            Operation::LoopEnd(ip)
        } else {
            Operation::Other(c)
        };
        let w = width(c);
        if ip > usize::MAX - w {
            proof {
                lemma_offset_grows(prog@, i + 1, prog@.len() as int);
            }
            return None;
        }
        ops.push(op);
        assert(ops@[i as int] == spec_operation(spec_offset(prog@, i as int) as usize, prog@[i as int]));
        ip = ip + w;
        i = i + 1;
    }
    Some(ops)
}

/// The places of the characters never fall.
proof fn lemma_offset_grows(text: Seq<char>, i: int, j: int)
    requires
        0 <= i <= j,
    ensures
        spec_offset(text, i) <= spec_offset(text, j),
    decreases j,
{
    if i < j {
        lemma_offset_grows(text, i, j - 1);
    }
}

} // verus!
