//! One unit of program space.

use vstd::prelude::*;
use vstd::std_specs::convert::FromSpecImpl;
use crate::befunge::tokens::{Data, Token, spec_decode, spec_is_instruction};
use crate::text::is_scalar_value;

verus! {

/// A cell holds one number. Outside string mode the number is read as the
/// instruction that its character names; inside it is read as it stands.
#[derive(Debug, PartialEq, Eq, Clone, Copy, Structural)]
pub struct Cell {
    pub raw: Data,
}

/// The number that stands for `c` in a cell: its code, cut to sixteen bits.
pub open spec fn spec_char_code(c: char) -> Data {
    ((c as int) % 0x1_0000) as Data
}

/// The character whose code is `raw`, where there is one.
pub open spec fn spec_cell_char(raw: Data) -> Option<char> {
    if is_scalar_value(raw as int) {
        Some(raw as char)
    } else {
        None
    }
}

/// The instruction that a cell holding `raw` names, where it names one.
pub open spec fn spec_cell_token(raw: Data) -> Option<Token> {
    match spec_cell_char(raw) {
        Some(c) => if spec_is_instruction(spec_decode(c)) {
            Some(spec_decode(c))
        } else {
            None
        },
        None => None,
    }
}

/// The token of a cell holding `raw`, read as an instruction.
pub open spec fn spec_cell_opcode(raw: Data) -> Token {
    match spec_cell_char(raw) {
        Some(c) => spec_decode(c),
        None => Token::Blank,
    }
}

/// The two readings of a cell as an instruction agree: the cell names the
/// instruction that its token is, and names none where its token is a blank
/// or unknown.
pub proof fn lemma_cell_token_is_opcode(raw: Data)
    ensures
        spec_cell_token(raw) == if spec_is_instruction(spec_cell_opcode(raw)) {
            Some(spec_cell_opcode(raw))
        } else {
            None
        },
{
}

impl View for Cell {
    type V = Data;

    open spec fn view(&self) -> Data {
        self.raw
    }
}

impl From<Data> for Cell {
    fn from(value: Data) -> (r: Self) {
        Cell::new(value)
    }
}

impl FromSpecImpl<Data> for Cell {
    open spec fn obeys_from_spec() -> bool {
        true
    }

    open spec fn from_spec(value: Data) -> Self {
        Cell { raw: value }
    }
}

impl From<char> for Cell {
    fn from(value: char) -> (r: Self) {
        Cell::from_char(value)
    }
}

impl FromSpecImpl<char> for Cell {
    open spec fn obeys_from_spec() -> bool {
        true
    }

    open spec fn from_spec(value: char) -> Self {
        Cell { raw: spec_char_code(value) }
    }
}

impl Cell {
    /// The cell that holds `raw`.
    pub fn new(raw: Data) -> (r: Self)
        ensures
            r@ == raw,
    {
        Self { raw }
    }

    /// The number in the cell.
    pub fn to_num(self) -> (r: Data)
        ensures
            r == self@,
    {
        self.raw
    }

    /// The instruction that the cell names; `None` for a blank, for a
    /// character that names no instruction and for a number that is no
    /// character's code.
    pub fn to_token(self) -> (r: Option<Token>)
        ensures
            r == spec_cell_token(self@),
    {
        match self.to_char() {
            Some(c) => {
                let t = Token::decode(c);
                if t.is_instruction() {
                    Some(t)
                } else {
                    None
                }
            },
            None => None,
        }
    }

    /// The character whose code the cell holds; `None` for a surrogate code.
    pub fn to_char(self) -> (r: Option<char>)
        ensures
            r == spec_cell_char(self@),
    {
        char::from_u32(self.raw as u32)
    }

    /// The cell read as an instruction. Total: a blank and every character
    /// that names no instruction have tokens of their own, and a number
    /// that is no character's code counts as a blank.
    pub fn as_opcode(self) -> (t: Token)
        ensures
            t == spec_cell_opcode(self@),
    {
        match self.to_char() {
            Some(c) => Token::decode(c),
            None => Token::Blank,
        }
    }

    /// The cell read as it stands: the number that string mode pushes.
    pub fn as_raw_character(self) -> (r: Data)
        ensures
            r == self@,
    {
        self.raw
    }

    /// The cell for a character of the source text.
    pub fn from_char(c: char) -> (r: Self)
        ensures
            r@ == spec_char_code(c),
    {
        let code: u32 = c as u32;
        Cell::new((code % 0x1_0000) as Data)
    }
}

/// The character that the machine prints for `n`: the one whose code is the
/// remainder of `n` by 255. It is the null character for 0 and for each
/// multiple of 255.
pub open spec fn spec_to_char(n: Data) -> char {
    ((n % 255) as u8) as char
}

/// The character that the machine prints for `n`.
pub fn to_char(n: Data) -> (c: char)
    ensures
        c == spec_to_char(n),
{
    ((n % 255) as u8) as char
}

} // verus!
