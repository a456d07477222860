//! Ternary numbers and the "crazy" operation of a machine that computes in
//! base three, with the memory that a program text is loaded into.

use vstd::prelude::*;
use vstd::std_specs::convert::FromSpecImpl;
use vstd::string::{StrSliceExecFns, StringSliceAdditionalSpecFns};
use vstd::utf8::encode_utf8;
use crate::text::chars_of;

verus! {

/// The value of one memory cell.
pub type Cell = u16;

/// A register of the machine.
pub type Register = usize;

/// The number of cells of the full machine: three to the tenth power.
pub const SIZE: usize = 59049;

/// The number of cells that a program is loaded into.
pub const LOADED: usize = 20;

/// A number written in digits, most significant digit first.
#[derive(Debug, Clone, PartialEq, Eq)]
pub struct Ternary {
    pub digits: Vec<u8>,
}

impl View for Ternary {
    type V = Seq<u8>;

    open spec fn view(&self) -> Seq<u8> {
        self.digits@
    }
}

/// The number that `digits` write in base three.
pub open spec fn spec_value(digits: Seq<u8>) -> nat
    decreases digits.len(),
{
    if digits.len() == 0 {
        0
    } else {
        spec_value(digits.drop_last()) * 3 + digits.last() as nat
    }
}

/// The digits of `n` in base three, without leading zeros; none for zero.
pub open spec fn spec_digits(n: nat) -> Seq<u8>
    decreases n,
{
    if n == 0 {
        Seq::empty()
    } else {
        spec_digits(n / 3).push((n % 3) as u8)
    }
}

/// Whether every digit is 0, 1 or 2.
pub open spec fn spec_ternary(digits: Seq<u8>) -> bool {
    forall|i: int| 0 <= i < digits.len() ==> #[trigger] digits[i] < 3
}

/// The result of the crazy operation on two digits.
pub open spec fn spec_crazy_digit(x: u8, y: u8) -> u8 {
    if x == 0 {
        if y == 0 {
            1
        } else {
            0
        }
    } else if x == 1 {
        if y == 0 {
            1
        } else if y == 1 {
            0
        } else {
            2
        }
    } else {
        if y == 2 {
            1
        } else {
            2
        }
    }
}

/// The crazy operation digit by digit, both numbers read from their first
/// digit on, as far as the shorter one reaches.
pub open spec fn spec_crazy(a: Seq<u8>, b: Seq<u8>) -> Seq<u8> {
    Seq::new(
        if a.len() <= b.len() {
            a.len()
        } else {
            b.len()
        },
        |i: int| spec_crazy_digit(a[i], b[i]),
    )
}

/// The digits that the decimal digit characters of `text` name, or nothing
/// where a character is no decimal digit.
pub open spec fn spec_parse(text: Seq<char>) -> Option<Seq<u8>> {
    if forall|i: int| 0 <= i < text.len() ==> '0' <= #[trigger] text[i] <= '9' {
        Some(Seq::new(text.len(), |i: int| (text[i] as u8 - 48) as u8))
    } else {
        None
    }
}

impl From<Vec<u8>> for Ternary {
    fn from(value: Vec<u8>) -> (r: Self) {
        Self { digits: value }
    }
}

impl FromSpecImpl<Vec<u8>> for Ternary {
    open spec fn obeys_from_spec() -> bool {
        true
    }

    open spec fn from_spec(value: Vec<u8>) -> Self {
        Ternary { digits: value }
    }
}

impl Ternary {
    /// The digits of `n` in base three, without leading zeros.
    pub fn new(n: Cell) -> (r: Self)
        ensures
            r@ == spec_digits(n as nat),
    {
        let mut n = n;
        let ghost whole = n;
        let mut digits: Vec<u8> = Vec::new();
        while n > 0
            invariant
                spec_digits(whole as nat) == spec_digits(n as nat) + digits@,
            decreases n,
        {
            let quo = n / 3;
            let rem = n % 3;
            proof {
                let ghost before = digits@;
                assert(spec_digits(n as nat) == spec_digits((n / 3) as nat).push((n % 3) as u8));
                assert(spec_digits((n / 3) as nat).push((n % 3) as u8) + before =~= spec_digits(
                    (n / 3) as nat,
                ) + before.insert(0, (n % 3) as u8));
            }
            digits.insert(0, rem as u8);
            n = quo;
        }
        proof {
            assert(spec_digits(0) + digits@ =~= digits@);
        }
        Self { digits }
    }

    /// Reads a number from decimal digit characters, each giving one digit;
    /// `None` where a character is no decimal digit.
    pub fn parse(value: &str) -> (r: Option<Self>)
        ensures
            match r {
                Some(t) => spec_parse(value@) == Some(t@),
                None => spec_parse(value@) is None,
            },
    {
        let chars = chars_of(value);
        let mut digits: Vec<u8> = Vec::new();
        let mut i: usize = 0;
        while i < chars.len()
            invariant
                i <= chars@.len(),
                chars@ == value@,
                digits@.len() == i,
                forall|k: int| 0 <= k < i ==> '0' <= #[trigger] chars@[k] <= '9',
                forall|k: int| 0 <= k < i ==> #[trigger] digits@[k] == (chars@[k] as u8 - 48) as u8,
            decreases chars@.len() - i,
        {
            let c = chars[i];
            if '0' <= c && c <= '9' {
                let code: u32 = c as u32;
                digits.push((code - 48) as u8);
            } else {
                return None;
            }
            i = i + 1;
        }
        proof {
            assert(digits@ =~= spec_parse(value@).unwrap());
        }
        Some(Self { digits })
    }

    /// The number that the digits write in base three; `None` where it does
    /// not fit into a cell.
    pub fn to_cell(&self) -> (r: Option<Cell>)
        ensures
            match r {
                Some(v) => v == spec_value(self@),
                None => spec_value(self@) > Cell::MAX,
            },
    {
        let mut value: u32 = 0;
        let mut i: usize = 0;
        while i < self.digits.len()
            invariant
                i <= self.digits@.len(),
                value == spec_value(self.digits@.take(i as int)),
                value <= Cell::MAX,
            decreases self.digits@.len() - i,
        {
            proof {
                assert(self.digits@.take(i + 1).drop_last() =~= self.digits@.take(i as int));
            }
            value = value * 3 + self.digits[i] as u32;
            if value > 0xFFFF {
                proof {
                    lemma_value_grows(self.digits@, i + 1);
                }
                return None;
            }
            i = i + 1;
        }
        proof {
            assert(self.digits@.take(i as int) =~= self.digits@);
        }
        Some(value as Cell)
    }
}

/// A number is no smaller than what its first digits write.
proof fn lemma_value_grows(digits: Seq<u8>, i: int)
    requires
        0 <= i <= digits.len(),
    ensures
        spec_value(digits.take(i)) <= spec_value(digits),
    decreases digits.len() - i,
{
    if i < digits.len() {
        lemma_value_grows(digits, i + 1);
        assert(digits.take(i + 1).drop_last() =~= digits.take(i));
    } else {
        assert(digits.take(i) =~= digits);
    }
}

/// The digits of a number write that number, and each is 0, 1 or 2.
pub proof fn lemma_digits_write_the_number(n: nat)
    ensures
        spec_value(spec_digits(n)) == n,
        spec_ternary(spec_digits(n)),
        n > 0 ==> spec_digits(n)[0] != 0,
    decreases n,
{
    if n > 0 {
        lemma_digits_write_the_number(n / 3);
        assert(spec_digits(n).drop_last() =~= spec_digits(n / 3));
    }
}

/// The result of the crazy operation on two digits.
pub fn crazy_digit(x: u8, y: u8) -> (r: u8)
    requires
        x < 3,
        y < 3,
    ensures
        r == spec_crazy_digit(x, y),
        r < 3,
{
    if x == 0 {
        if y == 0 {
            1
        } else {
            0
        }
    } else if x == 1 {
        if y == 0 {
            1
        } else if y == 1 {
            0
        } else {
            2
        }
    } else {
        if y == 2 {
            1
        } else {
            2
        }
    }
}

/// The crazy operation on two numbers, digit by digit from the first digit
/// on, as far as the shorter number reaches.
pub fn crazy(input1: &Ternary, input2: &Ternary) -> (r: Ternary)
    requires
        spec_ternary(input1@),
        spec_ternary(input2@),
    ensures
        r@ == spec_crazy(input1@, input2@),
        spec_ternary(r@),
{
    let mut digits: Vec<u8> = Vec::new();
    let mut i: usize = 0;
    while i < input1.digits.len() && i < input2.digits.len()
        invariant
            i <= input1.digits@.len(),
            i <= input2.digits@.len(),
            spec_ternary(input1@),
            spec_ternary(input2@),
            digits@.len() == i,
            forall|k: int|
                0 <= k < i ==> #[trigger] digits@[k] == spec_crazy_digit(input1@[k], input2@[k]),
            spec_ternary(digits@),
        decreases input1.digits@.len() - i,
    {
        digits.push(crazy_digit(input1.digits[i], input2.digits[i]));
        i = i + 1;
    }
    proof {
        assert(digits@ =~= spec_crazy(input1@, input2@));
    }
    Ternary::from(digits)
}

/// The cell that follows the cells `last` and `before` in a loaded memory:
/// the crazy operation on their digits, or nothing where the result does
/// not fit into a cell.
pub open spec fn spec_next_cell(last: Cell, before: Cell) -> Option<Cell> {
    let value = spec_value(spec_crazy(spec_digits(last as nat), spec_digits(before as nat)));
    if value <= Cell::MAX {
        Some(value as Cell)
    } else {
        None
    }
}

/// The memory `cells` filled up to `size` cells, each new cell made from the
/// two before it; nothing where a new cell does not fit.
pub open spec fn spec_filled(cells: Seq<Cell>, size: nat) -> Option<Seq<Cell>>
    decreases size - cells.len(),
{
    if cells.len() >= size || cells.len() < 2 {
        Some(cells)
    } else {
        match spec_next_cell(cells[cells.len() - 1], cells[cells.len() - 2]) {
            Some(v) => spec_filled(cells.push(v), size),
            None => None,
        }
    }
}

/// The memory that a program text of `bytes` is loaded into: its bytes, and
/// then cells made from the two before them; nothing where the text has
/// fewer than two bytes or more than the memory holds, or a cell does not fit.
pub open spec fn spec_memory(bytes: Seq<u8>) -> Option<Seq<Cell>> {
    if 2 <= bytes.len() <= LOADED {
        spec_filled(Seq::new(bytes.len(), |i: int| bytes[i] as Cell), LOADED as nat)
    } else {
        None
    }
}

/// A loaded program with the machine's registers.
#[derive(Debug)]
pub struct Program {
    /// Accumulator
    pub a: Register,
    /// Code pointer
    pub c: Register,
    /// Data pointer
    pub d: Register,
    pub memory: Vec<Cell>,
    pub src: String,
}

impl Program {
    /// Loads a program text: its bytes fill the first cells, and every
    /// further cell is made by the crazy operation from the two before it.
    /// `None` where the text has fewer than two bytes or more than the
    /// memory holds, or where a cell would not fit.
    pub fn new(src: String) -> (r: Option<Self>)
        ensures
            match r {
                Some(p) => {
                    &&& spec_memory(encode_utf8(src@)) == Some(p.memory@)
                    &&& p.a == 0
                    &&& p.c == 0
                    &&& p.d == 0
                    &&& p.src == src
                },
                None => spec_memory(encode_utf8(src@)) is None,
            },
    {
        let bytes = src.as_str().as_bytes_vec();
        if bytes.len() < 2 || bytes.len() > LOADED {
            return None;
        }
        let mut memory: Vec<Cell> = Vec::new();
        let mut i: usize = 0;
        while i < bytes.len()
            invariant
                i <= bytes@.len(),
                memory@.len() == i,
                forall|k: int| 0 <= k < i ==> #[trigger] memory@[k] == bytes@[k] as Cell,
            decreases bytes@.len() - i,
        {
            memory.push(bytes[i] as Cell);
            i = i + 1;
        }
        let ghost loaded = memory@;
        proof {
            assert(loaded =~= Seq::new(bytes@.len(), |i: int| bytes@[i] as Cell));
            assert(spec_memory(encode_utf8(src@)) == spec_filled(loaded, LOADED as nat));
        }
        while memory.len() < LOADED
            invariant
                2 <= memory@.len() <= LOADED,
                spec_memory(encode_utf8(src@)) == spec_filled(loaded, LOADED as nat),
                spec_filled(loaded, LOADED as nat) == spec_filled(memory@, LOADED as nat),
            decreases LOADED - memory@.len(),
        {
            let last = Ternary::new(memory[memory.len() - 1]);
            let before = Ternary::new(memory[memory.len() - 2]);
            proof {
                lemma_digits_write_the_number(memory@[memory@.len() - 1] as nat);
                lemma_digits_write_the_number(memory@[memory@.len() - 2] as nat);
            }
            match crazy(&last, &before).to_cell() {
                Some(v) => {
                    memory.push(v);
                },
                None => {
                    return None;
                },
            }
        }
        Some(Self { a: 0, c: 0, d: 0, memory, src })
    }
}

} // verus!
