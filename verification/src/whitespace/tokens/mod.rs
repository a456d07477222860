//! The instructions of a program and the numbers and labels they carry.

pub mod string;

use vstd::prelude::*;
use vstd::std_specs::convert::FromSpecImpl;
use vstd::string::{StrSliceExecFns, StringExecFns, StringSliceAdditionalSpecFns};
use crate::text::{push_signed_decimal, signed_decimal};
use crate::whitespace::Describe;

verus! {

/// The integer type of a program's numbers.
pub type NumType = isize;

/// The greatest length of a label's name.
pub const LABEL_MAX_LENGTH: usize = 128;

/// A number of a program.
#[derive(Debug, PartialEq, Eq, Clone, Copy, Structural)]
pub struct Num(pub NumType);

/// Whether the byte writes the binary digit zero: a space, or `S`.
pub open spec fn is_zero_bit(b: u8) -> bool {
    b == 32 || b == 83
}

/// Whether the byte writes the binary digit one: a tab, or `T`.
pub open spec fn is_one_bit(b: u8) -> bool {
    b == 9 || b == 84
}

/// The number that the binary digits among `bytes` write; bytes that write
/// no digit are passed over.
pub open spec fn spec_bits_value(bytes: Seq<u8>) -> nat
    decreases bytes.len(),
{
    if bytes.len() == 0 {
        0
    } else if is_zero_bit(bytes.last()) {
        spec_bits_value(bytes.drop_last()) * 2
    } else if is_one_bit(bytes.last()) {
        spec_bits_value(bytes.drop_last()) * 2 + 1
    } else {
        spec_bits_value(bytes.drop_last())
    }
}

/// The number that `bytes` write: the first byte is the sign, positive for
/// a zero digit and negative for anything else, and the binary digits behind
/// it are the magnitude. Nothing where there is no byte at all, or where
/// the magnitude does not fit.
pub open spec fn spec_num(bytes: Seq<u8>) -> Option<int> {
    if bytes.len() == 0 || spec_bits_value(bytes.skip(1)) > NumType::MAX {
        None
    } else if is_zero_bit(bytes[0]) {
        Some(spec_bits_value(bytes.skip(1)) as int)
    } else {
        Some(-(spec_bits_value(bytes.skip(1)) as int))
    }
}

/// `bytes` without the pairs of carriage return and line feed at its end.
pub open spec fn spec_trim_line_ends(bytes: Seq<u8>) -> Seq<u8>
    decreases bytes.len(),
{
    if bytes.len() >= 2 && bytes[bytes.len() - 2] == 13 && bytes[bytes.len() - 1] == 10 {
        spec_trim_line_ends(bytes.take(bytes.len() - 2))
    } else {
        bytes
    }
}

/// `bytes` without the line feeds and the letters `L` at its end.
pub open spec fn spec_trim_marks(bytes: Seq<u8>) -> Seq<u8>
    decreases bytes.len(),
{
    if bytes.len() >= 1 && (bytes.last() == 10 || bytes.last() == 76) {
        spec_trim_marks(bytes.drop_last())
    } else {
        bytes
    }
}

/// The number that a text writes, its line end and end mark left aside.
pub open spec fn spec_num_text(bytes: Seq<u8>) -> Option<int> {
    spec_num(spec_trim_marks(spec_trim_line_ends(bytes)))
}

/// The letter for a binary digit: `S` for zero and `T` for one.
pub open spec fn spec_bit_letter(bit: nat) -> char {
    if bit == 0 {
        'S'
    } else {
        'T'
    }
}

/// The binary notation of `n` in the letters `S` and `T`, without leading zeros.
pub open spec fn spec_bit_letters(n: nat) -> Seq<char>
    decreases n,
{
    if n < 2 {
        seq![spec_bit_letter(n)]
    } else {
        spec_bit_letters(n / 2).push(spec_bit_letter(n % 2))
    }
}

/// A number in visible letters: `SL` for zero; else the sign, `S` for a
/// positive and `T` for a negative number, the binary digits and `L`. The
/// digits of a negative number are those of its two's complement.
pub open spec fn spec_describe_num(n: int) -> Seq<char> {
    if n == 0 {
        "SL"@
    } else if n > 0 {
        seq!['S'] + spec_bit_letters(n as nat) + seq!['L']
    } else {
        seq!['T'] + spec_bit_letters((usize::MAX + 1 + n) as nat) + seq!['L']
    }
}

impl From<NumType> for Num {
    fn from(n: NumType) -> (r: Self) {
        Self(n)
    }
}

impl FromSpecImpl<NumType> for Num {
    open spec fn obeys_from_spec() -> bool {
        true
    }

    open spec fn from_spec(n: NumType) -> Self {
        Num(n)
    }
}

/// The value of the first digits among `bytes` is no greater than the value of all.
proof fn lemma_bits_value_grows(bytes: Seq<u8>, i: int)
    requires
        0 <= i <= bytes.len(),
    ensures
        spec_bits_value(bytes.take(i)) <= spec_bits_value(bytes),
    decreases bytes.len() - i,
{
    if i < bytes.len() {
        lemma_bits_value_grows(bytes, i + 1);
        assert(bytes.take(i + 1).drop_last() =~= bytes.take(i));
    } else {
        assert(bytes.take(i) =~= bytes);
    }
}

impl Num {
    /// The number itself.
    pub fn value(&self) -> (n: NumType)
        ensures
            n == self.0,
    {
        self.0
    }

    /// Reads a number from its bytes: the sign, and then the binary digits.
    /// It fails where there is no byte, and where the magnitude does not fit.
    pub fn from_bytes(num_bytes: &[u8]) -> (r: Result<Self, String>)
        ensures
            match r {
                Ok(n) => spec_num(num_bytes@) == Some(n.0 as int),
                Err(_) => spec_num(num_bytes@) is None,
            },
    {
        if num_bytes.len() == 0 {
            return Err(String::from_str("A number needs a sign"));
        }
        let positive = num_bytes[0] == 32 || num_bytes[0] == 83;
        let ghost digits = num_bytes@.skip(1);
        let limit: usize = NumType::MAX as usize;
        let mut magnitude: usize = 0;
        let mut i: usize = 1;
        proof {
            assert(digits.take(0) =~= Seq::<u8>::empty());
        }
        while i < num_bytes.len()
            invariant
                1 <= i <= num_bytes@.len(),
                digits == num_bytes@.skip(1),
                limit == NumType::MAX,
                magnitude == spec_bits_value(digits.take(i - 1)),
                magnitude <= limit,
            decreases num_bytes@.len() - i,
        {
            let b = num_bytes[i];
            proof {
                assert(digits.take(i as int).drop_last() =~= digits.take(i - 1));
                assert(digits.take(i as int).last() == b);
            }
            if b == 32 || b == 83 {
                if magnitude > limit / 2 {
                    proof {
                        lemma_bits_value_grows(digits, i as int);
                    }
                    return Err(String::from_str("The number is too large"));
                }
                magnitude = magnitude * 2;
            } else if b == 9 || b == 84 {
                if magnitude > (limit - 1) / 2 {
                    proof {
                        lemma_bits_value_grows(digits, i as int);
                    }
                    return Err(String::from_str("The number is too large"));
                }
                magnitude = magnitude * 2 + 1;
            }
            i = i + 1;
        }
        proof {
            assert(digits.take(i - 1) =~= digits);
        }
        if positive {
            Ok(Num(magnitude as NumType))
        } else {
            Ok(Num(0 - (magnitude as NumType)))
        }
    }

    /// Reads a number from a text. Line ends and the end mark `L` at the
    /// end of the text are left aside.
    pub fn from_text(s: &str) -> (r: Result<Self, String>)
        ensures
            match r {
                Ok(n) => spec_num_text(s.spec_bytes()) == Some(n.0 as int),
                Err(_) => spec_num_text(s.spec_bytes()) is None,
            },
    {
        Num::from_line(s.as_bytes())
    }

    /// Reads a number from the bytes of a text. Line ends and the end mark
    /// `L` at the end of the text are left aside.
    pub fn from_line(bytes: &[u8]) -> (r: Result<Self, String>)
        ensures
            match r {
                Ok(n) => spec_num_text(bytes@) == Some(n.0 as int),
                Err(_) => spec_num_text(bytes@) is None,
            },
    {
        let mut end: usize = bytes.len();
        proof {
            assert(bytes@.take(end as int) =~= bytes@);
        }
        while end >= 2 && bytes[end - 2] == 13 && bytes[end - 1] == 10
            invariant
                end <= bytes@.len(),
                spec_trim_line_ends(bytes@) == spec_trim_line_ends(bytes@.take(end as int)),
            decreases end,
        {
            proof {
                assert(bytes@.take(end as int).take(end - 2) =~= bytes@.take(end - 2));
            }
            end = end - 2;
        }
        let ghost lines_off = bytes@.take(end as int);
        proof {
            assert(lines_off.take(end as int) =~= lines_off);
        }
        while end >= 1 && (bytes[end - 1] == 10 || bytes[end - 1] == 76)
            invariant
                end <= bytes@.len(),
                end <= lines_off.len(),
                lines_off == spec_trim_line_ends(bytes@),
                forall|k: int| 0 <= k < end ==> lines_off[k] == bytes@[k],
                spec_trim_marks(lines_off) == spec_trim_marks(lines_off.take(end as int)),
            decreases end,
        {
            proof {
                assert(lines_off.take(end as int).drop_last() =~= lines_off.take(end - 1));
            }
            end = end - 1;
        }
        proof {
            assert(lines_off.take(end as int) =~= bytes@.subrange(0, end as int));
        }
        Num::from_bytes(vstd::slice::slice_subrange(bytes, 0, end))
    }

    /// The magnitude that the binary digits of `describe` write: the number
    /// itself, or the two's complement of a negative number.
    fn pattern(&self) -> (r: usize)
        ensures
            self.0 >= 0 ==> r == self.0,
            self.0 < 0 ==> r == usize::MAX + 1 + self.0,
    {
        if self.0 >= 0 {
            self.0 as usize
        } else {
            usize::MAX - ((-(self.0 + 1)) as usize)
        }
    }
}

impl std::str::FromStr for Num {
    type Err = String;

    /// Reads a number from a text, as `from_text` does: line ends and the
    /// end mark `L` at the end of the text are left aside, the first byte
    /// is the sign and the binary digits behind it are the magnitude. It
    /// fails where no byte is left, and where the magnitude does not fit.
    fn from_str(s: &str) -> (r: Result<Self, Self::Err>)
        ensures
            match r {
                Ok(n) => spec_num_text(s.spec_bytes()) == Some(n.0 as int),
                Err(_) => spec_num_text(s.spec_bytes()) is None,
            },
    {
        Num::from_text(s)
    }
}

/// Appends the binary notation of `n` in the letters `S` and `T` to `out`.
pub fn push_bit_letters(out: &mut String, n: usize)
    ensures
        final(out)@ == old(out)@ + spec_bit_letters(n as nat),
    decreases n,
{
    if n >= 2 {
        push_bit_letters(out, n / 2);
    }
    if n % 2 == 0 {
        out.push('S');
    } else {
        out.push('T');
    }
}

impl Describe for Num {
    open spec fn spec_describe(&self) -> Seq<char> {
        spec_describe_num(self.0 as int)
    }

    fn describe(&self) -> (s: String) {
        if self.0 == 0 {
            return String::from_str("SL");
        }
        let mut s = String::new();
        if self.0 >= 0 {
            s.push('S');
        } else {
            s.push('T');
        }
        let pattern = self.pattern();
        push_bit_letters(&mut s, pattern);
        s.push('L');
        proof {
            let sign = if self.0 >= 0 {
                'S'
            } else {
                'T'
            };
            let digits = spec_bit_letters(pattern as nat);
            assert(Seq::<char>::empty().push(sign) + digits =~= seq![sign] + digits);
            assert((seq![sign] + digits).push('L') =~= seq![sign] + digits + seq!['L']);
        }
        s
    }
}

/// The name of a place in a program: a number, and how many zero digits
/// stand in front of it.
#[derive(Debug, PartialEq, Eq, Clone, Hash, Copy, Structural)]
pub struct Label {
    pub value: NumType,
    pub prefixed_zeroes: u8,
}

/// How many zero digits stand at the front of `bytes`.
pub open spec fn spec_leading_zeroes(bytes: Seq<u8>) -> nat
    decreases bytes.len(),
{
    if bytes.len() > 0 && is_zero_bit(bytes[0]) {
        1 + spec_leading_zeroes(bytes.drop_first())
    } else {
        0
    }
}

/// The label that `bytes` write: their number, and the count of the zero
/// digits at their front, cut to eight bits. Nothing where the bytes write
/// no number.
pub open spec fn spec_label(bytes: Seq<u8>) -> Option<Label> {
    match spec_num(bytes) {
        Some(n) => Some(
            Label {
                value: n as NumType,
                prefixed_zeroes: (spec_leading_zeroes(bytes) % 256) as u8,
            },
        ),
        None => None,
    }
}

impl Label {
    /// Reads a label from its bytes. It fails where the bytes write no number.
    pub fn from_bytes(value: &[u8]) -> (r: Result<Self, String>)
        ensures
            match r {
                Ok(l) => spec_label(value@) == Some(l),
                Err(_) => spec_label(value@) is None,
            },
    {
        let mut count: usize = 0;
        proof {
            assert(value@.skip(0) =~= value@);
        }
        while count < value.len() && (value[count] == 32 || value[count] == 83)
            invariant
                count <= value@.len(),
                spec_leading_zeroes(value@) == count + spec_leading_zeroes(
                    value@.skip(count as int),
                ),
            decreases value@.len() - count,
        {
            proof {
                assert(value@.skip(count as int).drop_first() =~= value@.skip(count + 1));
            }
            count = count + 1;
        }
        match Num::from_bytes(value) {
            Ok(n) => Ok(Label { value: n.0, prefixed_zeroes: (count % 256) as u8 }),
            Err(e) => Err(e),
        }
    }

    /// Reads a label from a text.
    pub fn from_text(value: &str) -> (r: Result<Self, String>)
        ensures
            match r {
                Ok(l) => spec_label(value.spec_bytes()) == Some(l),
                Err(_) => spec_label(value.spec_bytes()) is None,
            },
    {
        Label::from_bytes(value.as_bytes())
    }
}

impl Describe for Label {
    open spec fn spec_describe(&self) -> Seq<char> {
        Seq::empty()
    }

    fn describe(&self) -> (s: String) {
        String::new()
    }
}

/// One instruction.
#[derive(Debug, PartialEq, Eq, Clone, Copy, Structural)]
pub enum OpCode {
    IO(IoOp),
    Stack(StackOp),
    Arithmetic(ArithmeticOp),
    FlowControl(FlowControlOp),
    HeapAccess(HeapAccessOp),
}

/// Reading and printing.
#[derive(Debug, PartialEq, Eq, Clone, Copy, Structural)]
pub enum IoOp {
    ReadChar,
    ReadNum,
    PrintChar,
    PrintNum,
}

/// Work on the stack.
#[derive(Debug, PartialEq, Eq, Clone, Copy, Structural)]
pub enum StackOp {
    Push(Num),
    Duplicate,
    Swap,
    Discard,
    /// Copy the nth item on the stack (given by the argument) onto the top of the stack
    Copy(Num),
    Slide(Num),
}

/// The five operations of arithmetic.
#[derive(Debug, PartialEq, Eq, Clone, Copy, Structural)]
pub enum ArithmeticOp {
    Add,
    Subtract,
    Multiply,
    Divide,
    Modulo,
}

/// Labels, jumps, calls and the end.
#[derive(Debug, PartialEq, Eq, Clone, Copy, Structural)]
pub enum FlowControlOp {
    Label(Label),
    Call(Label),
    Jump(Label),
    JumpIfZero(Label),
    JumpIfNegative(Label),
    Return,
    Exit,
}

/// Storing to the heap and loading from it.
#[derive(Debug, PartialEq, Eq, Clone, Copy, Structural)]
pub enum HeapAccessOp {
    Store,
    Load,
}

impl IoOp {
    /// The short name of the operation.
    pub open spec fn spec_text(&self) -> Seq<char> {
        match self {
            IoOp::ReadChar => "readc"@,
            IoOp::ReadNum => "readn"@,
            IoOp::PrintChar => "prtc"@,
            IoOp::PrintNum => "prtn"@,
        }
    }

    /// The short name of the operation.
    pub fn to_text(&self) -> (s: String)
        ensures
            s@ == self.spec_text(),
    {
        match self {
            IoOp::ReadChar => String::from_str("readc"),
            IoOp::ReadNum => String::from_str("readn"),
            IoOp::PrintChar => String::from_str("prtc"),
            IoOp::PrintNum => String::from_str("prtn"),
        }
    }
}

/// `letters`, a space, and `name` in round brackets.
pub open spec fn spec_named(letters: Seq<char>, name: Seq<char>) -> Seq<char> {
    letters + " ("@ + name + ")"@
}

/// `letters`, a space, and `name` in round brackets.
fn named(letters: &str, name: &str) -> (s: String)
    ensures
        s@ == spec_named(letters@, name@),
{
    let mut s = String::from_str(letters);
    s.append(" (");
    s.append(name);
    s.append(")");
    s
}

/// `letters`, a space, and `rest`.
pub open spec fn spec_spaced(letters: Seq<char>, rest: Seq<char>) -> Seq<char> {
    letters + " "@ + rest
}

/// `letters`, a space, and `rest`.
fn spaced(letters: &str, rest: &str) -> (s: String)
    ensures
        s@ == spec_spaced(letters@, rest@),
{
    let mut s = String::from_str(letters);
    s.append(" ");
    s.append(rest);
    s
}

impl Describe for IoOp {
    open spec fn spec_describe(&self) -> Seq<char> {
        match self {
            IoOp::ReadChar => spec_named("TS"@, self.spec_text()),
            IoOp::ReadNum => spec_named("TT"@, self.spec_text()),
            IoOp::PrintChar => spec_named("SS"@, self.spec_text()),
            IoOp::PrintNum => spec_named("ST"@, self.spec_text()),
        }
    }

    fn describe(&self) -> (s: String) {
        let name = self.to_text();
        match self {
            IoOp::ReadChar => named("TS", name.as_str()),
            IoOp::ReadNum => named("TT", name.as_str()),
            IoOp::PrintChar => named("SS", name.as_str()),
            IoOp::PrintNum => named("ST", name.as_str()),
        }
    }
}

/// A number in visible letters, the name of an operation and the number in
/// decimal notation.
pub open spec fn spec_with_number(n: Num, name: Seq<char>) -> Seq<char> {
    n.spec_describe() + " "@ + name + " "@ + signed_decimal(n.0 as int)
}

/// A number in visible letters, the name of an operation and the number in
/// decimal notation.
fn with_number(n: &Num, name: &str) -> (s: String)
    ensures
        s@ == spec_with_number(*n, name@),
{
    let mut s = n.describe();
    s.append(" ");
    s.append(name);
    s.append(" ");
    push_signed_decimal(&mut s, n.0 as i64);
    s
}

impl StackOp {
    /// The short name of the operation, with its number where it has one.
    pub open spec fn spec_text(&self) -> Seq<char> {
        match self {
            StackOp::Push(n) => spec_with_number(*n, "push"@),
            StackOp::Duplicate => "dup"@,
            StackOp::Swap => "swap"@,
            StackOp::Discard => "pop"@,
            StackOp::Copy(n) => spec_with_number(*n, "copy"@),
            StackOp::Slide(n) => spec_with_number(*n, "slide"@),
        }
    }

    /// The short name of the operation, with its number where it has one.
    pub fn to_text(&self) -> (s: String)
        ensures
            s@ == self.spec_text(),
    {
        match self {
            StackOp::Push(n) => with_number(n, "push"),
            StackOp::Duplicate => String::from_str("dup"),
            StackOp::Swap => String::from_str("swap"),
            StackOp::Discard => String::from_str("pop"),
            StackOp::Copy(n) => with_number(n, "copy"),
            StackOp::Slide(n) => with_number(n, "slide"),
        }
    }
}

impl Describe for StackOp {
    open spec fn spec_describe(&self) -> Seq<char> {
        match self {
            StackOp::Push(_) => spec_spaced("S"@, self.spec_text()),
            StackOp::Duplicate => spec_spaced("LS"@, self.spec_text()),
            StackOp::Swap => spec_spaced("LT"@, self.spec_text()),
            StackOp::Discard => spec_spaced("LL"@, self.spec_text()),
            StackOp::Copy(_) => spec_spaced("TS"@, self.spec_text()),
            StackOp::Slide(_) => spec_spaced("TL"@, self.spec_text()),
        }
    }

    fn describe(&self) -> (s: String) {
        let text = self.to_text();
        match self {
            StackOp::Push(_) => spaced("S", text.as_str()),
            StackOp::Duplicate => spaced("LS", text.as_str()),
            StackOp::Swap => spaced("LT", text.as_str()),
            StackOp::Discard => spaced("LL", text.as_str()),
            StackOp::Copy(_) => spaced("TS", text.as_str()),
            StackOp::Slide(_) => spaced("TL", text.as_str()),
        }
    }
}

impl ArithmeticOp {
    /// The short name of the operation.
    pub open spec fn spec_text(&self) -> Seq<char> {
        match self {
            ArithmeticOp::Add => "add"@,
            ArithmeticOp::Subtract => "sub"@,
            ArithmeticOp::Multiply => "mul"@,
            ArithmeticOp::Divide => "div"@,
            ArithmeticOp::Modulo => "mod"@,
        }
    }

    /// The short name of the operation.
    pub fn to_text(&self) -> (s: String)
        ensures
            s@ == self.spec_text(),
    {
        match self {
            ArithmeticOp::Add => String::from_str("add"),
            ArithmeticOp::Subtract => String::from_str("sub"),
            ArithmeticOp::Multiply => String::from_str("mul"),
            ArithmeticOp::Divide => String::from_str("div"),
            ArithmeticOp::Modulo => String::from_str("mod"),
        }
    }
}

impl Describe for ArithmeticOp {
    open spec fn spec_describe(&self) -> Seq<char> {
        match self {
            ArithmeticOp::Add => spec_named("SS"@, self.spec_text()),
            ArithmeticOp::Subtract => spec_named("ST"@, self.spec_text()),
            ArithmeticOp::Multiply => spec_named("SL"@, self.spec_text()),
            ArithmeticOp::Divide => spec_named("TS"@, self.spec_text()),
            ArithmeticOp::Modulo => spec_named("TT"@, self.spec_text()),
        }
    }

    fn describe(&self) -> (s: String) {
        let name = self.to_text();
        match self {
            ArithmeticOp::Add => named("SS", name.as_str()),
            ArithmeticOp::Subtract => named("ST", name.as_str()),
            ArithmeticOp::Multiply => named("SL", name.as_str()),
            ArithmeticOp::Divide => named("TS", name.as_str()),
            ArithmeticOp::Modulo => named("TT", name.as_str()),
        }
    }
}

/// The letters of a flow instruction, its label as described, and its short
/// name in round brackets.
pub open spec fn spec_labelled(letters: Seq<char>, label: Label, name: Seq<char>) -> Seq<char> {
    letters + " "@ + label.spec_describe() + " ("@ + name + ")"@
}

/// The letters of a flow instruction, its label as described, and its short
/// name in round brackets.
fn labelled(letters: &str, label: &Label, name: &str) -> (s: String)
    ensures
        s@ == spec_labelled(letters@, *label, name@),
{
    let mut s = String::from_str(letters);
    s.append(" ");
    s.append(label.describe().as_str());
    s.append(" (");
    s.append(name);
    s.append(")");
    s
}

impl FlowControlOp {
    /// The short name of the operation, with its label as described.
    pub open spec fn spec_text(&self) -> Seq<char> {
        match self {
            FlowControlOp::Label(l) => "label "@ + l.spec_describe(),
            FlowControlOp::Call(l) => "call "@ + l.spec_describe(),
            FlowControlOp::Jump(l) => "jmp "@ + l.spec_describe(),
            FlowControlOp::JumpIfZero(l) => "jmpz "@ + l.spec_describe(),
            FlowControlOp::JumpIfNegative(l) => "jmpn "@ + l.spec_describe(),
            FlowControlOp::Return => "ret"@,
            FlowControlOp::Exit => "end"@,
        }
    }

    /// The short name of the operation, with its label as described.
    pub fn to_text(&self) -> (s: String)
        ensures
            s@ == self.spec_text(),
    {
        match self {
            FlowControlOp::Label(l) => {
                let mut s = String::from_str("label ");
                s.append(l.describe().as_str());
                s
            },
            FlowControlOp::Call(l) => {
                let mut s = String::from_str("call ");
                s.append(l.describe().as_str());
                s
            },
            FlowControlOp::Jump(l) => {
                let mut s = String::from_str("jmp ");
                s.append(l.describe().as_str());
                s
            },
            FlowControlOp::JumpIfZero(l) => {
                let mut s = String::from_str("jmpz ");
                s.append(l.describe().as_str());
                s
            },
            FlowControlOp::JumpIfNegative(l) => {
                let mut s = String::from_str("jmpn ");
                s.append(l.describe().as_str());
                s
            },
            FlowControlOp::Return => String::from_str("ret"),
            FlowControlOp::Exit => String::from_str("end"),
        }
    }
}

impl Describe for FlowControlOp {
    open spec fn spec_describe(&self) -> Seq<char> {
        match self {
            FlowControlOp::Label(l) => spec_labelled("SS"@, *l, self.spec_text()),
            FlowControlOp::Call(l) => spec_labelled("ST"@, *l, self.spec_text()),
            FlowControlOp::Jump(l) => spec_labelled("SL"@, *l, self.spec_text()),
            FlowControlOp::JumpIfZero(l) => spec_labelled("TS"@, *l, self.spec_text()),
            FlowControlOp::JumpIfNegative(l) => spec_labelled("TT"@, *l, self.spec_text()),
            FlowControlOp::Return => spec_named("TL"@, self.spec_text()),
            FlowControlOp::Exit => spec_named("LL"@, self.spec_text()),
        }
    }

    fn describe(&self) -> (s: String) {
        let name = self.to_text();
        match self {
            FlowControlOp::Label(l) => labelled("SS", l, name.as_str()),
            FlowControlOp::Call(l) => labelled("ST", l, name.as_str()),
            FlowControlOp::Jump(l) => labelled("SL", l, name.as_str()),
            FlowControlOp::JumpIfZero(l) => labelled("TS", l, name.as_str()),
            FlowControlOp::JumpIfNegative(l) => labelled("TT", l, name.as_str()),
            FlowControlOp::Return => named("TL", name.as_str()),
            FlowControlOp::Exit => named("LL", name.as_str()),
        }
    }
}

impl HeapAccessOp {
    /// The short name of the operation.
    pub open spec fn spec_text(&self) -> Seq<char> {
        match self {
            HeapAccessOp::Store => "store"@,
            HeapAccessOp::Load => "load"@,
        }
    }

    /// The short name of the operation.
    pub fn to_text(&self) -> (s: String)
        ensures
            s@ == self.spec_text(),
    {
        match self {
            HeapAccessOp::Store => String::from_str("store"),
            HeapAccessOp::Load => String::from_str("load"),
        }
    }
}

impl Describe for HeapAccessOp {
    open spec fn spec_describe(&self) -> Seq<char> {
        match self {
            HeapAccessOp::Store => spec_named("S"@, self.spec_text()),
            HeapAccessOp::Load => spec_named("T"@, self.spec_text()),
        }
    }

    fn describe(&self) -> (s: String) {
        let name = self.to_text();
        match self {
            HeapAccessOp::Store => named("S", name.as_str()),
            HeapAccessOp::Load => named("T", name.as_str()),
        }
    }
}

impl OpCode {
    /// The short name of the instruction.
    pub open spec fn spec_text(&self) -> Seq<char> {
        match self {
            OpCode::IO(x) => x.spec_text(),
            OpCode::Stack(x) => x.spec_text(),
            OpCode::Arithmetic(x) => x.spec_text(),
            OpCode::FlowControl(x) => x.spec_text(),
            OpCode::HeapAccess(x) => x.spec_text(),
        }
    }

    /// The short name of the instruction.
    pub fn to_text(&self) -> (s: String)
        ensures
            s@ == self.spec_text(),
    {
        match self {
            OpCode::IO(x) => x.to_text(),
            OpCode::Stack(x) => x.to_text(),
            OpCode::Arithmetic(x) => x.to_text(),
            OpCode::FlowControl(x) => x.to_text(),
            OpCode::HeapAccess(x) => x.to_text(),
        }
    }
}

impl Describe for OpCode {
    open spec fn spec_describe(&self) -> Seq<char> {
        match self {
            OpCode::IO(o) => spec_spaced("TL"@, o.spec_describe()),
            OpCode::Stack(o) => spec_spaced("S"@, o.spec_describe()),
            OpCode::Arithmetic(o) => spec_spaced("TS"@, o.spec_describe()),
            OpCode::FlowControl(o) => spec_spaced("L"@, o.spec_describe()),
            OpCode::HeapAccess(o) => spec_spaced("TT"@, o.spec_describe()),
        }
    }

    fn describe(&self) -> (s: String) {
        match self {
            OpCode::IO(o) => spaced("TL", o.describe().as_str()),
            OpCode::Stack(o) => spaced("S", o.describe().as_str()),
            OpCode::Arithmetic(o) => spaced("TS", o.describe().as_str()),
            OpCode::FlowControl(o) => spaced("L", o.describe().as_str()),
            OpCode::HeapAccess(o) => spaced("TT", o.describe().as_str()),
        }
    }
}

} // verus!
