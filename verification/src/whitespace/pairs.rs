//! A program as the pairs that a grammar of rules matched, and the reading
//! of instructions from them.
//!
//! A pair is a piece of the program text together with the rule that
//! matched it and the pairs that were matched inside it.

use vstd::prelude::*;
use vstd::string::{StringExecFns, StringSliceAdditionalSpecFns};
use vstd::utf8::encode_utf8;
use crate::text::chars_of;
use crate::whitespace::program::Program;
use crate::whitespace::tokens::{
    ArithmeticOp, FlowControlOp, HeapAccessOp, IoOp, Label, Num, OpCode, StackOp, spec_label,
    spec_num_text,
};

verus! {

/// The rules of the grammar.
#[allow(non_camel_case_types)]
#[derive(Debug, PartialEq, Eq, Clone, Copy, Hash, Structural)]
pub enum Rule {
    EOI,
    PROGRAM,
    OP,
    OP_STACK,
    OP_IO,
    OP_FLOW,
    OP_HEAP,
    OP_ARITHMETIC,
    S_PUSH,
    DUP,
    SWAP,
    DISCARD,
    COPY,
    SLIDE,
    PRINT_CHAR,
    PRINT_NUM,
    READ_CHAR,
    READ_NUM,
    LABEL,
    CALL,
    JUMP,
    JUMP_ZERO,
    JUMP_NEG,
    RETURN,
    EXIT,
    LOAD,
    STORE,
    ADD,
    SUB,
    MUL,
    DIV,
    MOD,
    NUM,
    LABEL_NAME,
}

/// The name of a rule as the grammar writes it.
pub open spec fn spec_rule_name(rule: Rule) -> Seq<char> {
    match rule {
        Rule::EOI => "EOI"@,
        Rule::PROGRAM => "PROGRAM"@,
        Rule::OP => "OP"@,
        Rule::OP_STACK => "OP_STACK"@,
        Rule::OP_IO => "OP_IO"@,
        Rule::OP_FLOW => "OP_FLOW"@,
        Rule::OP_HEAP => "OP_HEAP"@,
        Rule::OP_ARITHMETIC => "OP_ARITHMETIC"@,
        Rule::S_PUSH => "S_PUSH"@,
        Rule::DUP => "DUP"@,
        Rule::SWAP => "SWAP"@,
        Rule::DISCARD => "DISCARD"@,
        Rule::COPY => "COPY"@,
        Rule::SLIDE => "SLIDE"@,
        Rule::PRINT_CHAR => "PRINT_CHAR"@,
        Rule::PRINT_NUM => "PRINT_NUM"@,
        Rule::READ_CHAR => "READ_CHAR"@,
        Rule::READ_NUM => "READ_NUM"@,
        Rule::LABEL => "LABEL"@,
        Rule::CALL => "CALL"@,
        Rule::JUMP => "JUMP"@,
        Rule::JUMP_ZERO => "JUMP_ZERO"@,
        Rule::JUMP_NEG => "JUMP_NEG"@,
        Rule::RETURN => "RETURN"@,
        Rule::EXIT => "EXIT"@,
        Rule::LOAD => "LOAD"@,
        Rule::STORE => "STORE"@,
        Rule::ADD => "ADD"@,
        Rule::SUB => "SUB"@,
        Rule::MUL => "MUL"@,
        Rule::DIV => "DIV"@,
        Rule::MOD => "MOD"@,
        Rule::NUM => "NUM"@,
        Rule::LABEL_NAME => "LABEL_NAME"@,
    }
}

/// Whether `line` begins with `name`.
pub open spec fn spec_starts_with(line: Seq<char>, name: Seq<char>) -> bool {
    name.len() <= line.len() && line.subrange(0, name.len() as int) == name
}

/// The number of characters from `from` up to the next line feed or the
/// end of the text.
pub open spec fn spec_line_length(text: Seq<char>, from: int) -> nat
    decreases text.len() - from,
{
    if from < 0 || from >= text.len() || text[from] == '\n' {
        0
    } else {
        1 + spec_line_length(text, from + 1)
    }
}

/// A line without the carriage return that may end it.
pub open spec fn spec_without_return(line: Seq<char>) -> Seq<char> {
    if line.len() > 0 && line.last() == '\r' {
        line.drop_last()
    } else {
        line
    }
}

/// The first line of `text` at or behind `from` that begins with `name`,
/// where there is one. A line ends at a line feed, and a carriage return
/// in front of that line feed does not belong to it.
pub open spec fn spec_grammar_line(text: Seq<char>, name: Seq<char>, from: int) -> Option<
    Seq<char>,
>
    decreases text.len() - from,
{
    if from < 0 || from >= text.len() {
        None
    } else {
        let stop = from + spec_line_length(text, from);
        let line = if stop < text.len() {
            spec_without_return(text.subrange(from, stop))
        } else {
            text.subrange(from, stop)
        };
        if spec_starts_with(line, name) {
            Some(line)
        } else if stop >= text.len() {
            None
        } else {
            spec_grammar_line(text, name, stop + 1)
        }
    }
}

/// Whether the characters of `line` from `from` to `to` begin with `name`.
fn begins_with(text: &Vec<char>, from: usize, to: usize, name: &Vec<char>) -> (r: bool)
    requires
        from <= to <= text@.len(),
    ensures
        r == spec_starts_with(text@.subrange(from as int, to as int), name@),
{
    if name.len() > to - from {
        return false;
    }
    let mut k: usize = 0;
    while k < name.len()
        invariant
            k <= name@.len(),
            name@.len() <= to - from,
            from <= to <= text@.len(),
            forall|i: int| 0 <= i < k ==> text@[from + i] == name@[i],
        decreases name@.len() - k,
    {
        if text[from + k] != name[k] {
            proof {
                let line = text@.subrange(from as int, to as int);
                assert(line.subrange(0, name@.len() as int)[k as int] == text@[from + k]);
            }
            return false;
        }
        k = k + 1;
    }
    proof {
        let line = text@.subrange(from as int, to as int);
        assert(line.subrange(0, name@.len() as int) =~= name@);
    }
    true
}

impl Rule {
    /// The name of the rule as the grammar writes it.
    pub fn name(&self) -> (s: String)
        ensures
            s@ == spec_rule_name(*self),
    {
        String::from_str(
            match self {
                Rule::EOI => "EOI",
                Rule::PROGRAM => "PROGRAM",
                Rule::OP => "OP",
                Rule::OP_STACK => "OP_STACK",
                Rule::OP_IO => "OP_IO",
                Rule::OP_FLOW => "OP_FLOW",
                Rule::OP_HEAP => "OP_HEAP",
                Rule::OP_ARITHMETIC => "OP_ARITHMETIC",
                Rule::S_PUSH => "S_PUSH",
                Rule::DUP => "DUP",
                Rule::SWAP => "SWAP",
                Rule::DISCARD => "DISCARD",
                Rule::COPY => "COPY",
                Rule::SLIDE => "SLIDE",
                Rule::PRINT_CHAR => "PRINT_CHAR",
                Rule::PRINT_NUM => "PRINT_NUM",
                Rule::READ_CHAR => "READ_CHAR",
                Rule::READ_NUM => "READ_NUM",
                Rule::LABEL => "LABEL",
                Rule::CALL => "CALL",
                Rule::JUMP => "JUMP",
                Rule::JUMP_ZERO => "JUMP_ZERO",
                Rule::JUMP_NEG => "JUMP_NEG",
                Rule::RETURN => "RETURN",
                Rule::EXIT => "EXIT",
                Rule::LOAD => "LOAD",
                Rule::STORE => "STORE",
                Rule::ADD => "ADD",
                Rule::SUB => "SUB",
                Rule::MUL => "MUL",
                Rule::DIV => "DIV",
                Rule::MOD => "MOD",
                Rule::NUM => "NUM",
                Rule::LABEL_NAME => "LABEL_NAME",
            },
        )
    }

    /// The line of the grammar's text that defines the rule: the first line
    /// that begins with the rule's name; `None` where no line does.
    pub fn grammar(&self, grammar: &str) -> (r: Option<String>)
        ensures
            match r {
                Some(line) => spec_grammar_line(grammar@, spec_rule_name(*self), 0) == Some(
                    line@,
                ),
                None => spec_grammar_line(grammar@, spec_rule_name(*self), 0) is None,
            },
    {
        let text = chars_of(grammar);
        let name = chars_of(self.name().as_str());
        let mut from: usize = 0;
        while from < text.len()
            invariant
                text@ == grammar@,
                name@ == spec_rule_name(*self),
                spec_grammar_line(text@, name@, 0) == spec_grammar_line(text@, name@, from as int),
            decreases text@.len() - from,
        {
            let mut stop: usize = from;
            while stop < text.len() && text[stop] != '\n'
                invariant
                    from <= stop <= text@.len(),
                    spec_line_length(text@, from as int) == (stop - from) + spec_line_length(
                        text@,
                        stop as int,
                    ),
                decreases text@.len() - stop,
            {
                stop = stop + 1;
            }
            let end = if stop < text.len() && stop > from && text[stop - 1] == '\r' {
                stop - 1
            } else {
                stop
            };
            proof {
                let whole = text@.subrange(from as int, stop as int);
                if stop < text@.len() {
                    if whole.len() > 0 && whole.last() == '\r' {
                        assert(whole.drop_last() =~= text@.subrange(from as int, end as int));
                    }
                }
            }
            if begins_with(&text, from, end, &name) {
                let mut line = String::new();
                let mut k: usize = from;
                while k < end
                    invariant
                        from <= k <= end <= text@.len(),
                        line@ == text@.subrange(from as int, k as int),
                    decreases end - k,
                {
                    line.push(text[k]);
                    proof {
                        assert(text@.subrange(from as int, k + 1) =~= text@.subrange(
                            from as int,
                            k as int,
                        ).push(text@[k as int]));
                    }
                    k = k + 1;
                }
                return Some(line);
            }
            if stop >= text.len() {
                return None;
            }
            from = stop + 1;
        }
        None
    }
}

/// A piece of a program text with the rule that matched it and the pairs
/// that were matched inside it.
#[derive(Debug, PartialEq, Eq)]
pub struct Pair {
    pub rule: Rule,
    pub text: String,
    pub inner: Vec<Pair>,
}

/// Why pairs could not be read as instructions.
#[derive(Debug, PartialEq, Eq, Clone, Copy, Structural)]
pub enum PairError {
    /// A pair of this rule stands where it cannot stand.
    UnexpectedRule(Rule),
    /// A pair that needs a pair inside it has none.
    MissingInner,
    /// An instruction lacks its number or its label.
    MissingArgument,
    /// The text of a number writes no number that fits.
    BadNumber,
    /// The text of a label writes no label that fits.
    BadLabel,
}

/// The number that the first pair inside `op` writes.
pub open spec fn spec_pair_number(op: Pair) -> Result<Num, PairError> {
    if op.inner@.len() == 0 {
        Err(PairError::MissingArgument)
    } else {
        match spec_num_text(encode_utf8(op.inner@[0].text@)) {
            Some(n) => Ok(Num(n as isize)),
            None => Err(PairError::BadNumber),
        }
    }
}

/// The label that the first pair inside `op` writes.
pub open spec fn spec_pair_label(op: Pair) -> Result<Label, PairError> {
    if op.inner@.len() == 0 {
        Err(PairError::MissingArgument)
    } else {
        match spec_label(encode_utf8(op.inner@[0].text@)) {
            Some(l) => Ok(l),
            None => Err(PairError::BadLabel),
        }
    }
}

/// The instruction that a pair of a group writes: the rule of the pair
/// names the group, and the rule of its first inner pair the instruction.
pub open spec fn spec_pair_op(p: Pair) -> Result<OpCode, PairError> {
    if p.inner@.len() == 0 {
        Err(PairError::MissingInner)
    } else {
        let op = p.inner@[0];
        match p.rule {
            Rule::OP_STACK => match op.rule {
                Rule::S_PUSH => match spec_pair_number(op) {
                    Ok(n) => Ok(OpCode::Stack(StackOp::Push(n))),
                    Err(e) => Err(e),
                },
                Rule::DUP => Ok(OpCode::Stack(StackOp::Duplicate)),
                Rule::SWAP => Ok(OpCode::Stack(StackOp::Swap)),
                Rule::DISCARD => Ok(OpCode::Stack(StackOp::Discard)),
                Rule::COPY => match spec_pair_number(op) {
                    Ok(n) => Ok(OpCode::Stack(StackOp::Copy(n))),
                    Err(e) => Err(e),
                },
                Rule::SLIDE => match spec_pair_number(op) {
                    Ok(n) => Ok(OpCode::Stack(StackOp::Slide(n))),
                    Err(e) => Err(e),
                },
                other => Err(PairError::UnexpectedRule(other)),
            },
            Rule::OP_IO => match op.rule {
                Rule::PRINT_CHAR => Ok(OpCode::IO(IoOp::PrintChar)),
                Rule::PRINT_NUM => Ok(OpCode::IO(IoOp::PrintNum)),
                Rule::READ_CHAR => Ok(OpCode::IO(IoOp::ReadChar)),
                Rule::READ_NUM => Ok(OpCode::IO(IoOp::ReadNum)),
                other => Err(PairError::UnexpectedRule(other)),
            },
            Rule::OP_FLOW => match op.rule {
                Rule::LABEL => match spec_pair_label(op) {
                    Ok(l) => Ok(OpCode::FlowControl(FlowControlOp::Label(l))),
                    Err(e) => Err(e),
                },
                Rule::CALL => match spec_pair_label(op) {
                    Ok(l) => Ok(OpCode::FlowControl(FlowControlOp::Call(l))),
                    Err(e) => Err(e),
                },
                Rule::JUMP_ZERO => match spec_pair_label(op) {
                    Ok(l) => Ok(OpCode::FlowControl(FlowControlOp::JumpIfZero(l))),
                    Err(e) => Err(e),
                },
                Rule::JUMP_NEG => match spec_pair_label(op) {
                    Ok(l) => Ok(OpCode::FlowControl(FlowControlOp::JumpIfNegative(l))),
                    Err(e) => Err(e),
                },
                Rule::JUMP => match spec_pair_label(op) {
                    Ok(l) => Ok(OpCode::FlowControl(FlowControlOp::Jump(l))),
                    Err(e) => Err(e),
                },
                Rule::RETURN => Ok(OpCode::FlowControl(FlowControlOp::Return)),
                Rule::EXIT => Ok(OpCode::FlowControl(FlowControlOp::Exit)),
                other => Err(PairError::UnexpectedRule(other)),
            },
            Rule::OP_HEAP => match op.rule {
                Rule::LOAD => Ok(OpCode::HeapAccess(HeapAccessOp::Load)),
                Rule::STORE => Ok(OpCode::HeapAccess(HeapAccessOp::Store)),
                other => Err(PairError::UnexpectedRule(other)),
            },
            Rule::OP_ARITHMETIC => match op.rule {
                Rule::ADD => Ok(OpCode::Arithmetic(ArithmeticOp::Add)),
                Rule::SUB => Ok(OpCode::Arithmetic(ArithmeticOp::Subtract)),
                Rule::MUL => Ok(OpCode::Arithmetic(ArithmeticOp::Multiply)),
                Rule::DIV => Ok(OpCode::Arithmetic(ArithmeticOp::Divide)),
                Rule::MOD => Ok(OpCode::Arithmetic(ArithmeticOp::Modulo)),
                other => Err(PairError::UnexpectedRule(other)),
            },
            other => Err(PairError::UnexpectedRule(other)),
        }
    }
}

/// The instructions that the first `k` pairs of a row of groups write, or
/// the fault of the first that writes none.
pub open spec fn spec_pair_ops(pairs: Seq<Pair>, k: int) -> Result<Seq<OpCode>, PairError>
    decreases k,
{
    if k <= 0 {
        Ok(Seq::empty())
    } else {
        match spec_pair_ops(pairs, k - 1) {
            Ok(ops) => match spec_pair_op(pairs[k - 1]) {
                Ok(op) => Ok(ops.push(op)),
                Err(e) => Err(e),
            },
            Err(e) => Err(e),
        }
    }
}

/// The instructions that the first `k` pairs inside a program write: a
/// pair of the rule `OP` gives those of the groups inside it, the mark of
/// the end of the input gives none, and any other pair is a fault.
pub open spec fn spec_program_ops(pairs: Seq<Pair>, k: int) -> Result<Seq<OpCode>, PairError>
    decreases k,
{
    if k <= 0 {
        Ok(Seq::empty())
    } else {
        match spec_program_ops(pairs, k - 1) {
            Ok(ops) => match pairs[k - 1].rule {
                Rule::OP => match spec_pair_ops(
                    pairs[k - 1].inner@,
                    pairs[k - 1].inner@.len() as int,
                ) {
                    Ok(more) => Ok(ops + more),
                    Err(e) => Err(e),
                },
                Rule::EOI => Ok(ops),
                other => Err(PairError::UnexpectedRule(other)),
            },
            Err(e) => Err(e),
        }
    }
}

/// The number that the first pair inside `op` writes.
fn pair_number(op: &Pair) -> (r: Result<Num, PairError>)
    ensures
        r == spec_pair_number(*op),
{
    if op.inner.len() == 0 {
        return Err(PairError::MissingArgument);
    }
    match Num::from_text(op.inner[0].text.as_str()) {
        Ok(n) => Ok(n),
        Err(_) => Err(PairError::BadNumber),
    }
}

/// The label that the first pair inside `op` writes.
fn pair_label(op: &Pair) -> (r: Result<Label, PairError>)
    ensures
        r == spec_pair_label(*op),
{
    if op.inner.len() == 0 {
        return Err(PairError::MissingArgument);
    }
    match Label::from_text(op.inner[0].text.as_str()) {
        Ok(l) => Ok(l),
        Err(_) => Err(PairError::BadLabel),
    }
}

/// The instruction that a pair of a group writes.
pub fn pair_op(p: &Pair) -> (r: Result<OpCode, PairError>)
    ensures
        r == spec_pair_op(*p),
{
    if p.inner.len() == 0 {
        return Err(PairError::MissingInner);
    }
    let op = &p.inner[0];
    match p.rule {
        Rule::OP_STACK => match op.rule {
            Rule::S_PUSH => match pair_number(op) {
                Ok(n) => Ok(OpCode::Stack(StackOp::Push(n))),
                Err(e) => Err(e),
            },
            Rule::DUP => Ok(OpCode::Stack(StackOp::Duplicate)),
            Rule::SWAP => Ok(OpCode::Stack(StackOp::Swap)),
            Rule::DISCARD => Ok(OpCode::Stack(StackOp::Discard)),
            Rule::COPY => match pair_number(op) {
                Ok(n) => Ok(OpCode::Stack(StackOp::Copy(n))),
                Err(e) => Err(e),
            },
            Rule::SLIDE => match pair_number(op) {
                Ok(n) => Ok(OpCode::Stack(StackOp::Slide(n))),
                Err(e) => Err(e),
            },
            other => Err(PairError::UnexpectedRule(other)),
        },
        Rule::OP_IO => match op.rule {
            Rule::PRINT_CHAR => Ok(OpCode::IO(IoOp::PrintChar)),
            Rule::PRINT_NUM => Ok(OpCode::IO(IoOp::PrintNum)),
            Rule::READ_CHAR => Ok(OpCode::IO(IoOp::ReadChar)),
            Rule::READ_NUM => Ok(OpCode::IO(IoOp::ReadNum)),
            other => Err(PairError::UnexpectedRule(other)),
        },
        Rule::OP_FLOW => match op.rule {
            Rule::LABEL => match pair_label(op) {
                Ok(l) => Ok(OpCode::FlowControl(FlowControlOp::Label(l))),
                Err(e) => Err(e),
            },
            Rule::CALL => match pair_label(op) {
                Ok(l) => Ok(OpCode::FlowControl(FlowControlOp::Call(l))),
                Err(e) => Err(e),
            },
            Rule::JUMP_ZERO => match pair_label(op) {
                Ok(l) => Ok(OpCode::FlowControl(FlowControlOp::JumpIfZero(l))),
                Err(e) => Err(e),
            },
            Rule::JUMP_NEG => match pair_label(op) {
                Ok(l) => Ok(OpCode::FlowControl(FlowControlOp::JumpIfNegative(l))),
                Err(e) => Err(e),
            },
            Rule::JUMP => match pair_label(op) {
                Ok(l) => Ok(OpCode::FlowControl(FlowControlOp::Jump(l))),
                Err(e) => Err(e),
            },
            Rule::RETURN => Ok(OpCode::FlowControl(FlowControlOp::Return)),
            Rule::EXIT => Ok(OpCode::FlowControl(FlowControlOp::Exit)),
            other => Err(PairError::UnexpectedRule(other)),
        },
        Rule::OP_HEAP => match op.rule {
            Rule::LOAD => Ok(OpCode::HeapAccess(HeapAccessOp::Load)),
            Rule::STORE => Ok(OpCode::HeapAccess(HeapAccessOp::Store)),
            other => Err(PairError::UnexpectedRule(other)),
        },
        Rule::OP_ARITHMETIC => match op.rule {
            Rule::ADD => Ok(OpCode::Arithmetic(ArithmeticOp::Add)),
            Rule::SUB => Ok(OpCode::Arithmetic(ArithmeticOp::Subtract)),
            Rule::MUL => Ok(OpCode::Arithmetic(ArithmeticOp::Multiply)),
            Rule::DIV => Ok(OpCode::Arithmetic(ArithmeticOp::Divide)),
            Rule::MOD => Ok(OpCode::Arithmetic(ArithmeticOp::Modulo)),
            other => Err(PairError::UnexpectedRule(other)),
        },
        other => Err(PairError::UnexpectedRule(other)),
    }
}

/// Once a pair has failed, reading further pairs changes nothing.
proof fn lemma_pair_ops_fail(pairs: Seq<Pair>, k: int, n: int)
    requires
        0 <= k <= n,
        spec_pair_ops(pairs, k) is Err,
    ensures
        spec_pair_ops(pairs, n) == spec_pair_ops(pairs, k),
    decreases n,
{
    if n > k {
        lemma_pair_ops_fail(pairs, k, n - 1);
    }
}

/// Once a pair has failed, reading further pairs changes nothing.
proof fn lemma_program_ops_fail(pairs: Seq<Pair>, k: int, n: int)
    requires
        0 <= k <= n,
        spec_program_ops(pairs, k) is Err,
    ensures
        spec_program_ops(pairs, n) == spec_program_ops(pairs, k),
    decreases n,
{
    if n > k {
        lemma_program_ops_fail(pairs, k, n - 1);
    }
}

/// Reads the instructions of a program from the pair that the rule
/// `PROGRAM` matched, and numbers them.
pub fn parse(program: &Pair) -> (r: Result<Program, PairError>)
    ensures
        match (r, spec_program_ops(program.inner@, program.inner@.len() as int)) {
            (Ok(p), Ok(ops)) => {
                &&& p.spec_ops().len() == ops.len()
                &&& forall|k: int| 0 <= k < ops.len() ==> (#[trigger] p.spec_ops()[k]).1 == ops[k]
            },
            (Err(e), Err(wanted)) => e == wanted,
            _ => false,
        },
{
    let mut ops: Vec<OpCode> = Vec::new();
    let mut k: usize = 0;
    while k < program.inner.len()
        invariant
            k <= program.inner@.len(),
            spec_program_ops(program.inner@, k as int) == Ok::<Seq<OpCode>, PairError>(ops@),
        decreases program.inner@.len() - k,
    {
        let p = &program.inner[k];
        let ghost before = ops@;
        match p.rule {
            Rule::OP => {
                let mut j: usize = 0;
                while j < p.inner.len()
                    invariant
                        j <= p.inner@.len(),
                        k < program.inner@.len(),
                        *p == program.inner@[k as int],
                        p.rule == Rule::OP,
                        spec_program_ops(program.inner@, k as int) == Ok::<Seq<OpCode>, PairError>(
                            before,
                        ),
                        spec_pair_ops(p.inner@, j as int) is Ok,
                        ops@ == before + spec_pair_ops(p.inner@, j as int)->Ok_0,
                    decreases p.inner@.len() - j,
                {
                    match pair_op(&p.inner[j]) {
                        Ok(op) => {
                            ops.push(op);
                            proof {
                                let done = spec_pair_ops(p.inner@, j as int)->Ok_0;
                                assert((before + done).push(op) =~= before + done.push(op));
                            }
                        },
                        Err(e) => {
                            proof {
                                lemma_pair_ops_fail(
                                    p.inner@,
                                    j as int + 1,
                                    p.inner@.len() as int,
                                );
                                lemma_program_ops_fail(
                                    program.inner@,
                                    k as int + 1,
                                    program.inner@.len() as int,
                                );
                            }
                            return Err(e);
                        },
                    }
                    j = j + 1;
                }
            },
            Rule::EOI => {},
            other => {
                proof {
                    lemma_program_ops_fail(
                        program.inner@,
                        k as int + 1,
                        program.inner@.len() as int,
                    );
                }
                return Err(PairError::UnexpectedRule(other));
            },
        }
        k = k + 1;
    }
    Ok(Program::new(ops.as_slice()))
}

} // verus!
