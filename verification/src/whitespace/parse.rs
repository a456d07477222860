//! Reading a program text: the grammar of the language as functions on bytes.
//!
//! Every function here reads one piece of the grammar from the front of its
//! input and gives what it read together with the rest of the input.

use vstd::prelude::*;
use vstd::slice::slice_subrange;
use vstd::string::StringSliceAdditionalSpecFns;
use crate::whitespace::program::Program;
use crate::whitespace::tokens::{
    ArithmeticOp, FlowControlOp, HeapAccessOp, IoOp, Label, Num, OpCode, StackOp, spec_label,
    spec_num_text,
};

verus! {

/// The byte of a space.
pub const SPACE: u8 = 32;

/// The byte of a tab.
pub const TAB: u8 = 9;

/// The byte of a line feed.
pub const LF: u8 = 10;

/// What was wrong with a program text.
#[derive(Debug, PartialEq, Eq, Clone, Copy, Structural)]
pub enum ParseErrorKind {
    /// The bytes write no instruction.
    UnknownInstruction,
    /// A number or a label is not closed by a line feed.
    MissingLineFeed,
    /// A number or a label has no byte at all.
    EmptyArgument,
    /// The bytes of a number write no number that fits.
    BadNumber,
    /// The bytes of a label write no label that fits.
    BadLabel,
}

/// An error with the place in the input where the piece began that could
/// not be read.
#[derive(Debug, PartialEq, Eq, Clone, Copy, Structural)]
pub struct ParseError {
    pub at: usize,
    pub kind: ParseErrorKind,
}

/// What reading a piece gives: the place behind the piece and its value,
/// or an error.
pub type Parsed<T> = Result<(int, T), ParseError>;

/// Whether the byte `b` stands at place `at`.
pub open spec fn has1(s: Seq<u8>, at: int, b: u8) -> bool {
    0 <= at < s.len() && s[at] == b
}

/// Whether the bytes `b0` and `b1` stand at place `at`.
pub open spec fn has2(s: Seq<u8>, at: int, b0: u8, b1: u8) -> bool {
    0 <= at && at + 1 < s.len() && s[at] == b0 && s[at + 1] == b1
}

/// An error of kind `kind` at place `at`.
pub open spec fn failure<T>(at: int, kind: ParseErrorKind) -> Parsed<T> {
    Err(ParseError { at: at as usize, kind })
}

/// The place of the first line feed at or behind `at`; the length of the
/// input where there is none.
pub open spec fn spec_line_end(s: Seq<u8>, at: int) -> int
    decreases s.len() - at,
{
    if at < 0 || at >= s.len() {
        s.len() as int
    } else if s[at] == LF {
        at
    } else {
        spec_line_end(s, at + 1)
    }
}

/// A text of one byte at least that a line feed closes: the place behind
/// the line feed, and the text without it.
pub open spec fn spec_newline_terminated(s: Seq<u8>, at: int) -> Parsed<Seq<u8>> {
    let end = spec_line_end(s, at);
    if end >= s.len() {
        failure(at, ParseErrorKind::MissingLineFeed)
    } else if end == at {
        failure(at, ParseErrorKind::EmptyArgument)
    } else {
        Ok((end + 1, s.subrange(at, end)))
    }
}

/// A number: a sign and binary digits, closed by a line feed.
pub open spec fn spec_number(s: Seq<u8>, at: int) -> Parsed<Num> {
    match spec_newline_terminated(s, at) {
        Ok((next, text)) => match spec_num_text(text) {
            Some(n) => Ok((next, Num(n as isize))),
            None => failure(at, ParseErrorKind::BadNumber),
        },
        Err(e) => Err(e),
    }
}

/// A label: its bytes, closed by a line feed.
pub open spec fn spec_label_name(s: Seq<u8>, at: int) -> Parsed<Label> {
    match spec_newline_terminated(s, at) {
        Ok((next, text)) => match spec_label(text) {
            Some(l) => Ok((next, l)),
            None => failure(at, ParseErrorKind::BadLabel),
        },
        Err(e) => Err(e),
    }
}

/// Reading or printing: tab and space read a character, two tabs read a
/// number, two spaces print a character, space and tab print a number.
pub open spec fn spec_io_op(s: Seq<u8>, at: int) -> Parsed<IoOp> {
    if has2(s, at, TAB, SPACE) {
        Ok((at + 2, IoOp::ReadChar))
    } else if has2(s, at, TAB, TAB) {
        Ok((at + 2, IoOp::ReadNum))
    } else if has2(s, at, SPACE, SPACE) {
        Ok((at + 2, IoOp::PrintChar))
    } else if has2(s, at, SPACE, TAB) {
        Ok((at + 2, IoOp::PrintNum))
    } else {
        failure(at, ParseErrorKind::UnknownInstruction)
    }
}

/// Heap access: a space stores, a tab loads.
pub open spec fn spec_heap_access_op(s: Seq<u8>, at: int) -> Parsed<HeapAccessOp> {
    if has1(s, at, SPACE) {
        Ok((at + 1, HeapAccessOp::Store))
    } else if has1(s, at, TAB) {
        Ok((at + 1, HeapAccessOp::Load))
    } else {
        failure(at, ParseErrorKind::UnknownInstruction)
    }
}

/// `value` made from the number that was read, where one was read.
pub open spec fn with_num(r: Parsed<Num>, make: spec_fn(Num) -> StackOp) -> Parsed<StackOp> {
    match r {
        Ok((next, n)) => Ok((next, make(n))),
        Err(e) => Err(e),
    }
}

/// Work on the stack: a space and a number push it; line feed and space
/// duplicate, line feed and tab swap, two line feeds discard; tab, space
/// and a number copy; tab, line feed and a number slide.
pub open spec fn spec_stack_op(s: Seq<u8>, at: int) -> Parsed<StackOp> {
    if has1(s, at, SPACE) {
        with_num(spec_number(s, at + 1), |n: Num| StackOp::Push(n))
    } else if has2(s, at, LF, SPACE) {
        Ok((at + 2, StackOp::Duplicate))
    } else if has2(s, at, LF, TAB) {
        Ok((at + 2, StackOp::Swap))
    } else if has2(s, at, LF, LF) {
        Ok((at + 2, StackOp::Discard))
    } else if has2(s, at, TAB, SPACE) {
        with_num(spec_number(s, at + 2), |n: Num| StackOp::Copy(n))
    } else if has2(s, at, TAB, LF) {
        with_num(spec_number(s, at + 2), |n: Num| StackOp::Slide(n))
    } else {
        failure(at, ParseErrorKind::UnknownInstruction)
    }
}

/// Arithmetic: two spaces add, space and tab subtract, space and line feed
/// multiply, tab and space divide, two tabs take the remainder.
pub open spec fn spec_arithmetic_op(s: Seq<u8>, at: int) -> Parsed<ArithmeticOp> {
    if has2(s, at, SPACE, SPACE) {
        Ok((at + 2, ArithmeticOp::Add))
    } else if has2(s, at, SPACE, TAB) {
        Ok((at + 2, ArithmeticOp::Subtract))
    } else if has2(s, at, SPACE, LF) {
        Ok((at + 2, ArithmeticOp::Multiply))
    } else if has2(s, at, TAB, SPACE) {
        Ok((at + 2, ArithmeticOp::Divide))
    } else if has2(s, at, TAB, TAB) {
        Ok((at + 2, ArithmeticOp::Modulo))
    } else {
        failure(at, ParseErrorKind::UnknownInstruction)
    }
}

/// `value` made from the label that was read, where one was read.
pub open spec fn with_label(r: Parsed<Label>, make: spec_fn(Label) -> FlowControlOp) -> Parsed<
    FlowControlOp,
> {
    match r {
        Ok((next, l)) => Ok((next, make(l))),
        Err(e) => Err(e),
    }
}

/// Flow of control: two spaces and a label mark a place; space, tab and a
/// label call; space, line feed and a label jump; tab, space and a label
/// jump on zero; two tabs and a label jump on a negative number; tab and
/// line feed return; two line feeds end the run.
pub open spec fn spec_flow_control_op(s: Seq<u8>, at: int) -> Parsed<FlowControlOp> {
    if has2(s, at, SPACE, SPACE) {
        with_label(spec_label_name(s, at + 2), |l: Label| FlowControlOp::Label(l))
    } else if has2(s, at, SPACE, TAB) {
        with_label(spec_label_name(s, at + 2), |l: Label| FlowControlOp::Call(l))
    } else if has2(s, at, SPACE, LF) {
        with_label(spec_label_name(s, at + 2), |l: Label| FlowControlOp::Jump(l))
    } else if has2(s, at, TAB, SPACE) {
        with_label(spec_label_name(s, at + 2), |l: Label| FlowControlOp::JumpIfZero(l))
    } else if has2(s, at, TAB, TAB) {
        with_label(spec_label_name(s, at + 2), |l: Label| FlowControlOp::JumpIfNegative(l))
    } else if has2(s, at, TAB, LF) {
        Ok((at + 2, FlowControlOp::Return))
    } else if has2(s, at, LF, LF) {
        Ok((at + 2, FlowControlOp::Exit))
    } else {
        failure(at, ParseErrorKind::UnknownInstruction)
    }
}

/// One instruction: tab and line feed open reading and printing, a space
/// opens work on the stack, tab and space open arithmetic, a line feed opens
/// flow of control, and two tabs open heap access.
pub open spec fn spec_op_code(s: Seq<u8>, at: int) -> Parsed<OpCode> {
    if has2(s, at, TAB, LF) {
        match spec_io_op(s, at + 2) {
            Ok((next, op)) => Ok((next, OpCode::IO(op))),
            Err(e) => Err(e),
        }
    } else if has1(s, at, SPACE) {
        match spec_stack_op(s, at + 1) {
            Ok((next, op)) => Ok((next, OpCode::Stack(op))),
            Err(e) => Err(e),
        }
    } else if has2(s, at, TAB, SPACE) {
        match spec_arithmetic_op(s, at + 2) {
            Ok((next, op)) => Ok((next, OpCode::Arithmetic(op))),
            Err(e) => Err(e),
        }
    } else if has1(s, at, LF) {
        match spec_flow_control_op(s, at + 1) {
            Ok((next, op)) => Ok((next, OpCode::FlowControl(op))),
            Err(e) => Err(e),
        }
    } else if has2(s, at, TAB, TAB) {
        match spec_heap_access_op(s, at + 2) {
            Ok((next, op)) => Ok((next, OpCode::HeapAccess(op))),
            Err(e) => Err(e),
        }
    } else {
        failure(at, ParseErrorKind::UnknownInstruction)
    }
}

/// As many instructions as can be read one after the other from `at` on:
/// the place where reading stopped, and the instructions.
pub open spec fn spec_op_codes(s: Seq<u8>, at: int) -> (int, Seq<OpCode>)
    decreases s.len() - at,
{
    match spec_op_code(s, at) {
        Ok((next, op)) => if at < next <= s.len() {
            let (end, rest) = spec_op_codes(s, next);
            (end, seq![op] + rest)
        } else {
            (at, Seq::empty())
        },
        Err(_) => (at, Seq::empty()),
    }
}

/// A whole program text: its instructions, if they reach to its end; else
/// the error of the first piece that is no instruction.
pub open spec fn spec_parse(s: Seq<u8>) -> Result<Seq<OpCode>, ParseError> {
    let (end, ops) = spec_op_codes(s, 0);
    if end >= s.len() {
        Ok(ops)
    } else {
        match spec_op_code(s, end) {
            Ok(_) => Ok(ops),
            Err(e) => Err(e),
        }
    }
}

/// Whether `r` is what reading at `at` in `input` gives, the rest of the
/// input standing for the place behind the piece.
pub open spec fn reads<T>(r: Result<(&[u8], T), ParseError>, input: Seq<u8>, want: Parsed<T>) -> bool {
    match (r, want) {
        (Ok((rest, value)), Ok((next, wanted))) => {
            &&& 0 <= next <= input.len()
            &&& rest@ == input.skip(next)
            &&& value == wanted
        },
        (Err(e), Err(wanted)) => e == wanted,
        _ => false,
    }
}

/// Whether `r` is what reading at `at` gives, by places.
pub open spec fn reads_at<T>(r: Result<(usize, T), ParseError>, len: nat, want: Parsed<T>) -> bool {
    match (r, want) {
        (Ok((next, value)), Ok((wanted_next, wanted))) => {
            &&& next == wanted_next
            &&& next <= len
            &&& value == wanted
        },
        (Err(e), Err(wanted)) => e == wanted,
        _ => false,
    }
}

fn is1(input: &[u8], at: usize, b: u8) -> (r: bool)
    ensures
        r == has1(input@, at as int, b),
        r ==> at + 1 <= usize::MAX,
{
    at < input.len() && input[at] == b
}

fn is2(input: &[u8], at: usize, b0: u8, b1: u8) -> (r: bool)
    ensures
        r == has2(input@, at as int, b0, b1),
        r ==> at + 2 <= usize::MAX,
{
    at < input.len() && input.len() - at > 1 && input[at] == b0 && input[at + 1] == b1
}

fn newline_terminated_at(input: &[u8], at: usize) -> (r: Result<(usize, (usize, usize)), ParseError>)
    requires
        at <= input@.len(),
    ensures
        match (r, spec_newline_terminated(input@, at as int)) {
            (Ok((next, (from, to))), Ok((wanted_next, text))) => {
                &&& next == wanted_next
                &&& next <= input@.len()
                &&& from == at
                &&& from < to < input@.len()
                &&& next == to + 1
                &&& text == input@.subrange(from as int, to as int)
            },
            (Err(e), Err(wanted)) => e == wanted,
            _ => false,
        },
{
    let mut end: usize = at;
    while end < input.len() && input[end] != LF
        invariant
            at <= end <= input@.len(),
            spec_line_end(input@, at as int) == spec_line_end(input@, end as int),
        decreases input@.len() - end,
    {
        end = end + 1;
    }
    if end >= input.len() {
        Err(ParseError { at, kind: ParseErrorKind::MissingLineFeed })
    } else if end == at {
        Err(ParseError { at, kind: ParseErrorKind::EmptyArgument })
    } else {
        Ok((end + 1, (at, end)))
    }
}

fn number_at(input: &[u8], at: usize) -> (r: Result<(usize, Num), ParseError>)
    requires
        at <= input@.len(),
    ensures
        reads_at(r, input@.len(), spec_number(input@, at as int)),
        r is Ok ==> r->Ok_0.0 > at,
{
    match newline_terminated_at(input, at) {
        Ok((next, (from, to))) => {
            match Num::from_line(slice_subrange(input, from, to)) {
                Ok(n) => Ok((next, n)),
                Err(_) => Err(ParseError { at, kind: ParseErrorKind::BadNumber }),
            }
        },
        Err(e) => Err(e),
    }
}

fn label_at(input: &[u8], at: usize) -> (r: Result<(usize, Label), ParseError>)
    requires
        at <= input@.len(),
    ensures
        reads_at(r, input@.len(), spec_label_name(input@, at as int)),
        r is Ok ==> r->Ok_0.0 > at,
{
    match newline_terminated_at(input, at) {
        Ok((next, (from, to))) => {
            match Label::from_bytes(slice_subrange(input, from, to)) {
                Ok(l) => Ok((next, l)),
                Err(_) => Err(ParseError { at, kind: ParseErrorKind::BadLabel }),
            }
        },
        Err(e) => Err(e),
    }
}

fn io_op_at(input: &[u8], at: usize) -> (r: Result<(usize, IoOp), ParseError>)
    requires
        at <= input@.len(),
    ensures
        reads_at(r, input@.len(), spec_io_op(input@, at as int)),
        r is Ok ==> r->Ok_0.0 > at,
{
    if is2(input, at, TAB, SPACE) {
        Ok((at + 2, IoOp::ReadChar))
    } else if is2(input, at, TAB, TAB) {
        Ok((at + 2, IoOp::ReadNum))
    } else if is2(input, at, SPACE, SPACE) {
        Ok((at + 2, IoOp::PrintChar))
    } else if is2(input, at, SPACE, TAB) {
        Ok((at + 2, IoOp::PrintNum))
    } else {
        Err(ParseError { at, kind: ParseErrorKind::UnknownInstruction })
    }
}

fn heap_access_op_at(input: &[u8], at: usize) -> (r: Result<(usize, HeapAccessOp), ParseError>)
    requires
        at <= input@.len(),
    ensures
        reads_at(r, input@.len(), spec_heap_access_op(input@, at as int)),
        r is Ok ==> r->Ok_0.0 > at,
{
    if is1(input, at, SPACE) {
        Ok((at + 1, HeapAccessOp::Store))
    } else if is1(input, at, TAB) {
        Ok((at + 1, HeapAccessOp::Load))
    } else {
        Err(ParseError { at, kind: ParseErrorKind::UnknownInstruction })
    }
}

fn stack_op_at(input: &[u8], at: usize) -> (r: Result<(usize, StackOp), ParseError>)
    requires
        at <= input@.len(),
    ensures
        reads_at(r, input@.len(), spec_stack_op(input@, at as int)),
        r is Ok ==> r->Ok_0.0 > at,
{
    if is1(input, at, SPACE) {
        match number_at(input, at + 1) {
            Ok((next, n)) => Ok((next, StackOp::Push(n))),
            Err(e) => Err(e),
        }
    } else if is2(input, at, LF, SPACE) {
        Ok((at + 2, StackOp::Duplicate))
    } else if is2(input, at, LF, TAB) {
        Ok((at + 2, StackOp::Swap))
    } else if is2(input, at, LF, LF) {
        Ok((at + 2, StackOp::Discard))
    } else if is2(input, at, TAB, SPACE) {
        match number_at(input, at + 2) {
            Ok((next, n)) => Ok((next, StackOp::Copy(n))),
            Err(e) => Err(e),
        }
    } else if is2(input, at, TAB, LF) {
        match number_at(input, at + 2) {
            Ok((next, n)) => Ok((next, StackOp::Slide(n))),
            Err(e) => Err(e),
        }
    } else {
        Err(ParseError { at, kind: ParseErrorKind::UnknownInstruction })
    }
}

fn arithmetic_op_at(input: &[u8], at: usize) -> (r: Result<(usize, ArithmeticOp), ParseError>)
    requires
        at <= input@.len(),
    ensures
        reads_at(r, input@.len(), spec_arithmetic_op(input@, at as int)),
        r is Ok ==> r->Ok_0.0 > at,
{
    if is2(input, at, SPACE, SPACE) {
        Ok((at + 2, ArithmeticOp::Add))
    } else if is2(input, at, SPACE, TAB) {
        Ok((at + 2, ArithmeticOp::Subtract))
    } else if is2(input, at, SPACE, LF) {
        Ok((at + 2, ArithmeticOp::Multiply))
    } else if is2(input, at, TAB, SPACE) {
        Ok((at + 2, ArithmeticOp::Divide))
    } else if is2(input, at, TAB, TAB) {
        Ok((at + 2, ArithmeticOp::Modulo))
    } else {
        Err(ParseError { at, kind: ParseErrorKind::UnknownInstruction })
    }
}

fn flow_control_op_at(input: &[u8], at: usize) -> (r: Result<(usize, FlowControlOp), ParseError>)
    requires
        at <= input@.len(),
    ensures
        reads_at(r, input@.len(), spec_flow_control_op(input@, at as int)),
        r is Ok ==> r->Ok_0.0 > at,
{
    if is2(input, at, SPACE, SPACE) {
        match label_at(input, at + 2) {
            Ok((next, l)) => Ok((next, FlowControlOp::Label(l))),
            Err(e) => Err(e),
        }
    } else if is2(input, at, SPACE, TAB) {
        match label_at(input, at + 2) {
            Ok((next, l)) => Ok((next, FlowControlOp::Call(l))),
            Err(e) => Err(e),
        }
    } else if is2(input, at, SPACE, LF) {
        match label_at(input, at + 2) {
            Ok((next, l)) => Ok((next, FlowControlOp::Jump(l))),
            Err(e) => Err(e),
        }
    } else if is2(input, at, TAB, SPACE) {
        match label_at(input, at + 2) {
            Ok((next, l)) => Ok((next, FlowControlOp::JumpIfZero(l))),
            Err(e) => Err(e),
        }
    } else if is2(input, at, TAB, TAB) {
        match label_at(input, at + 2) {
            Ok((next, l)) => Ok((next, FlowControlOp::JumpIfNegative(l))),
            Err(e) => Err(e),
        }
    } else if is2(input, at, TAB, LF) {
        Ok((at + 2, FlowControlOp::Return))
    } else if is2(input, at, LF, LF) {
        Ok((at + 2, FlowControlOp::Exit))
    } else {
        Err(ParseError { at, kind: ParseErrorKind::UnknownInstruction })
    }
}

fn op_code_at(input: &[u8], at: usize) -> (r: Result<(usize, OpCode), ParseError>)
    requires
        at <= input@.len(),
    ensures
        reads_at(r, input@.len(), spec_op_code(input@, at as int)),
        r is Ok ==> r->Ok_0.0 > at,
{
    if is2(input, at, TAB, LF) {
        match io_op_at(input, at + 2) {
            Ok((next, op)) => Ok((next, OpCode::IO(op))),
            Err(e) => Err(e),
        }
    } else if is1(input, at, SPACE) {
        match stack_op_at(input, at + 1) {
            Ok((next, op)) => Ok((next, OpCode::Stack(op))),
            Err(e) => Err(e),
        }
    } else if is2(input, at, TAB, SPACE) {
        match arithmetic_op_at(input, at + 2) {
            Ok((next, op)) => Ok((next, OpCode::Arithmetic(op))),
            Err(e) => Err(e),
        }
    } else if is1(input, at, LF) {
        match flow_control_op_at(input, at + 1) {
            Ok((next, op)) => Ok((next, OpCode::FlowControl(op))),
            Err(e) => Err(e),
        }
    } else if is2(input, at, TAB, TAB) {
        match heap_access_op_at(input, at + 2) {
            Ok((next, op)) => Ok((next, OpCode::HeapAccess(op))),
            Err(e) => Err(e),
        }
    } else {
        Err(ParseError { at, kind: ParseErrorKind::UnknownInstruction })
    }
}

/// Reading ends where the next piece is no instruction, and what was read
/// up to any earlier place goes before what is read from there.
proof fn lemma_op_codes_step(s: Seq<u8>, at: int)
    requires
        spec_op_code(s, at) is Ok,
        at < spec_op_code(s, at)->Ok_0.0 <= s.len(),
    ensures
        spec_op_codes(s, at).0 == spec_op_codes(s, spec_op_code(s, at)->Ok_0.0).0,
        spec_op_codes(s, at).1 == seq![spec_op_code(s, at)->Ok_0.1] + spec_op_codes(
            s,
            spec_op_code(s, at)->Ok_0.0,
        ).1,
{
}

fn op_codes_at(input: &[u8]) -> (r: (usize, Vec<OpCode>))
    ensures
        r.0 == spec_op_codes(input@, 0).0,
        r.0 <= input@.len(),
        r.1@ == spec_op_codes(input@, 0).1,
{
    let mut ops: Vec<OpCode> = Vec::new();
    let mut at: usize = 0;
    proof {
        assert(ops@ + spec_op_codes(input@, 0).1 =~= spec_op_codes(input@, 0).1);
    }
    loop
        invariant
            at <= input@.len(),
            spec_op_codes(input@, 0).0 == spec_op_codes(input@, at as int).0,
            spec_op_codes(input@, 0).1 == ops@ + spec_op_codes(input@, at as int).1,
        decreases input@.len() - at,
    {
        match op_code_at(input, at) {
            Ok((next, op)) => {
                proof {
                    lemma_op_codes_step(input@, at as int);
                    assert(ops@ + (seq![op] + spec_op_codes(input@, next as int).1) =~= ops@.push(
                        op,
                    ) + spec_op_codes(input@, next as int).1);
                }
                ops.push(op);
                at = next;
            },
            Err(_) => {
                proof {
                    assert(ops@ + Seq::<OpCode>::empty() =~= ops@);
                }
                return (at, ops);
            },
        }
    }
}

/// A text of one byte at least that a line feed closes: the text without
/// the line feed, and the rest of the input behind the line feed.
pub fn newline_terminated(input: &[u8]) -> (r: Result<(&[u8], &[u8]), ParseError>)
    ensures
        match (r, spec_newline_terminated(input@, 0)) {
            (Ok((rest, text)), Ok((next, wanted))) => rest@ == input@.skip(next) && text@
                == wanted,
            (Err(e), Err(wanted)) => e == wanted,
            _ => false,
        },
{
    match newline_terminated_at(input, 0) {
        Ok((next, (from, to))) => Ok(
            (slice_subrange(input, next, input.len()), slice_subrange(input, from, to)),
        ),
        Err(e) => Err(e),
    }
}

/// A number: a sign and binary digits, closed by a line feed.
pub fn number(input: &[u8]) -> (r: Result<(&[u8], Num), ParseError>)
    ensures
        reads(r, input@, spec_number(input@, 0)),
{
    match number_at(input, 0) {
        Ok((next, n)) => Ok((slice_subrange(input, next, input.len()), n)),
        Err(e) => Err(e),
    }
}

/// Reading or printing.
pub fn io_op(input: &[u8]) -> (r: Result<(&[u8], IoOp), ParseError>)
    ensures
        reads(r, input@, spec_io_op(input@, 0)),
{
    match io_op_at(input, 0) {
        Ok((next, op)) => Ok((slice_subrange(input, next, input.len()), op)),
        Err(e) => Err(e),
    }
}

/// Heap access.
pub fn heap_access_op(input: &[u8]) -> (r: Result<(&[u8], HeapAccessOp), ParseError>)
    ensures
        reads(r, input@, spec_heap_access_op(input@, 0)),
{
    match heap_access_op_at(input, 0) {
        Ok((next, op)) => Ok((slice_subrange(input, next, input.len()), op)),
        Err(e) => Err(e),
    }
}

/// Work on the stack.
pub fn stack_op(input: &[u8]) -> (r: Result<(&[u8], StackOp), ParseError>)
    ensures
        reads(r, input@, spec_stack_op(input@, 0)),
{
    match stack_op_at(input, 0) {
        Ok((next, op)) => Ok((slice_subrange(input, next, input.len()), op)),
        Err(e) => Err(e),
    }
}

/// Arithmetic.
pub fn arithmetic_op(input: &[u8]) -> (r: Result<(&[u8], ArithmeticOp), ParseError>)
    ensures
        reads(r, input@, spec_arithmetic_op(input@, 0)),
{
    match arithmetic_op_at(input, 0) {
        Ok((next, op)) => Ok((slice_subrange(input, next, input.len()), op)),
        Err(e) => Err(e),
    }
}

/// Flow of control.
pub fn flow_control_op(input: &[u8]) -> (r: Result<(&[u8], FlowControlOp), ParseError>)
    ensures
        reads(r, input@, spec_flow_control_op(input@, 0)),
{
    match flow_control_op_at(input, 0) {
        Ok((next, op)) => Ok((slice_subrange(input, next, input.len()), op)),
        Err(e) => Err(e),
    }
}

/// One instruction.
pub fn op_code(input: &[u8]) -> (r: Result<(&[u8], OpCode), ParseError>)
    ensures
        reads(r, input@, spec_op_code(input@, 0)),
{
    match op_code_at(input, 0) {
        Ok((next, op)) => Ok((slice_subrange(input, next, input.len()), op)),
        Err(e) => Err(e),
    }
}

/// As many instructions as stand one after the other at the front of the
/// input, as a program, and the rest of the input.
pub fn program(input: &[u8]) -> (r: (&[u8], Program))
    ensures
        r.0@ == input@.skip(spec_op_codes(input@, 0).0),
        r.1.spec_ops().len() == spec_op_codes(input@, 0).1.len(),
        forall|k: int|
            0 <= k < r.1.spec_ops().len() ==> (#[trigger] r.1.spec_ops()[k]).1 == spec_op_codes(
                input@,
                0,
            ).1[k],
{
    let (end, ops) = op_codes_at(input);
    (slice_subrange(input, end, input.len()), Program::new(ops.as_slice()))
}

/// Reads a whole program text. Every byte must belong to an instruction.
pub fn parse(src: &str) -> (r: Result<Program, ParseError>)
    ensures
        match (r, spec_parse(src.spec_bytes())) {
            (Ok(p), Ok(ops)) => {
                &&& p.spec_ops().len() == ops.len()
                &&& forall|k: int|
                    0 <= k < ops.len() ==> (#[trigger] p.spec_ops()[k]).1 == ops[k]
            },
            (Err(e), Err(wanted)) => e == wanted,
            _ => false,
        },
{
    let input = src.as_bytes();
    let (end, ops) = op_codes_at(input);
    if end < input.len() {
        match op_code_at(input, end) {
            Ok(_) => Ok(Program::new(ops.as_slice())),
            Err(e) => Err(e),
        }
    } else {
        Ok(Program::new(ops.as_slice()))
    }
}

} // verus!
