//! A program as a syntax tree, and the reading of instructions from it.
//!
//! The tree is the one that a grammar of the visible letters gives: every
//! node has a kind, may stand in a named field of its parent, and has its
//! children in order.

use vstd::prelude::*;
use vstd::string::{StringExecFns, StringSliceAdditionalSpecFns};
use crate::whitespace::tokens::{
    ArithmeticOp, FlowControlOp, HeapAccessOp, IoOp, Label, Num, NumType, OpCode, StackOp,
    spec_label,
};

verus! {

/// Why a node could not be read as an instruction.
#[derive(Debug, PartialEq, Eq)]
pub enum NodeConversionError {
    /// The node is of a kind that cannot stand where it stands.
    UnexpectedNodeKind(String),
    /// A node that needs a child has none.
    MissingChild,
    /// An instruction lacks its number or its label.
    MissingArgument,
}

/// A fault of conversion, without the owned text.
pub enum ConversionFault {
    UnexpectedNodeKind(Seq<char>),
    MissingChild,
    MissingArgument,
}

impl View for NodeConversionError {
    type V = ConversionFault;

    open spec fn view(&self) -> ConversionFault {
        match self {
            NodeConversionError::UnexpectedNodeKind(kind) => ConversionFault::UnexpectedNodeKind(
                kind@,
            ),
            NodeConversionError::MissingChild => ConversionFault::MissingChild,
            NodeConversionError::MissingArgument => ConversionFault::MissingArgument,
        }
    }
}

impl NodeConversionError {
    /// The error in words.
    pub fn message(&self) -> (s: String)
        ensures
            s@ == match self@ {
                ConversionFault::UnexpectedNodeKind(kind) => "Unexpected node kind: "@ + kind,
                ConversionFault::MissingChild => "Missing child node"@,
                ConversionFault::MissingArgument => "Missing argument"@,
            },
    {
        match self {
            NodeConversionError::UnexpectedNodeKind(kind) => {
                let mut s = String::from_str("Unexpected node kind: ");
                s.append(kind.as_str());
                s
            },
            NodeConversionError::MissingChild => String::from_str("Missing child node"),
            NodeConversionError::MissingArgument => String::from_str("Missing argument"),
        }
    }
}

/// One node of a syntax tree.
#[derive(Debug, PartialEq, Eq)]
pub struct SyntaxNode {
    /// The kind of the node: the name of its rule in the grammar.
    pub kind: String,
    /// The name of the field of its parent in which the node stands, if any.
    pub field: Option<String>,
    /// The children of the node, in order.
    pub children: Vec<SyntaxNode>,
}

/// Whether two texts are the same.
pub fn same_text(a: &str, b: &str) -> (r: bool)
    ensures
        r == (a@ == b@),
{
    String::from_str(a) == String::from_str(b)
}

/// Whether a node of this kind is passed over when a tree is walked: the
/// single letters in both writings, and the names of labels.
pub open spec fn spec_ignored(kind: Seq<char>) -> bool {
    kind == "\t"@ || kind == "\n"@ || kind == " "@ || kind == "S"@ || kind == "T"@ || kind
        == "L"@ || kind == "label_name"@
}

/// Whether a node of this kind is passed over when a tree is walked.
pub fn is_ignored(kind: &str) -> (r: bool)
    ensures
        r == spec_ignored(kind@),
{
    same_text(kind, "\t") || same_text(kind, "\n") || same_text(kind, " ") || same_text(kind, "S")
        || same_text(kind, "T") || same_text(kind, "L") || same_text(kind, "label_name")
}

/// Whether the node stands in the field `name` of its parent.
pub open spec fn spec_in_field(n: SyntaxNode, name: Seq<char>) -> bool {
    n.field is Some && n.field->Some_0@ == name
}

/// The place of the first among the first `k` children that stands in the
/// field `name`; `k` where there is none.
pub open spec fn spec_field_place(children: Seq<SyntaxNode>, name: Seq<char>, k: int) -> int
    decreases k,
{
    if k <= 0 {
        0
    } else {
        let before = spec_field_place(children, name, k - 1);
        if before < k - 1 {
            before
        } else if spec_in_field(children[k - 1], name) {
            k - 1
        } else {
            k
        }
    }
}

impl SyntaxNode {
    /// A node with these parts.
    pub fn new(kind: &str, field: Option<&str>, children: Vec<SyntaxNode>) -> (n: Self)
        ensures
            n.kind@ == kind@,
            n.children == children,
            match field {
                Some(name) => spec_in_field(n, name@),
                None => n.field is None,
            },
    {
        let field = match field {
            Some(name) => Some(String::from_str(name)),
            None => None,
        };
        SyntaxNode { kind: String::from_str(kind), field, children }
    }

    /// The kind of the node.
    pub fn kind(&self) -> (k: &str)
        ensures
            k@ == self.kind@,
    {
        self.kind.as_str()
    }

    /// The child at place `i`, where there is one.
    pub fn child(&self, i: usize) -> (c: Option<&SyntaxNode>)
        ensures
            c == if i < self.children@.len() {
                Some(&self.children@[i as int])
            } else {
                None
            },
    {
        if i < self.children.len() {
            Some(&self.children[i])
        } else {
            None
        }
    }

    /// Whether the node stands in the field `name` of its parent.
    pub fn in_field(&self, name: &str) -> (r: bool)
        ensures
            r == spec_in_field(*self, name@),
    {
        match &self.field {
            Some(own) => same_text(own.as_str(), name),
            None => false,
        }
    }

    /// The first child that stands in the field `name`, where there is one.
    pub fn child_by_field_name(&self, name: &str) -> (c: Option<&SyntaxNode>)
        ensures
            ({
                let place = spec_field_place(
                    self.children@,
                    name@,
                    self.children@.len() as int,
                );
                c == if place < self.children@.len() {
                    Some(&self.children@[place])
                } else {
                    None
                }
            }),
    {
        let mut k: usize = 0;
        while k < self.children.len()
            invariant
                k <= self.children@.len(),
                spec_field_place(self.children@, name@, k as int) == k,
            decreases self.children@.len() - k,
        {
            if self.children[k].in_field(name) {
                proof {
                    lemma_field_place_stays(
                        self.children@,
                        name@,
                        k as int,
                        self.children@.len() as int,
                    );
                }
                return Some(&self.children[k]);
            }
            k = k + 1;
        }
        None
    }
}

/// Once a child in the field is found, it stays the first one.
proof fn lemma_field_place_stays(children: Seq<SyntaxNode>, name: Seq<char>, k: int, n: int)
    requires
        0 <= k < n <= children.len(),
        spec_field_place(children, name, k) == k,
        spec_in_field(children[k], name),
    ensures
        spec_field_place(children, name, n) == k,
    decreases n,
{
    if n > k + 1 {
        lemma_field_place_stays(children, name, k, n - 1);
    }
}

/// The number that the letters of the children in the field `value` write
/// among the first `k` children: each doubles the number, and a `T` adds
/// one. Digits that do not fit are pushed out at the upper end.
pub open spec fn spec_bits(children: Seq<SyntaxNode>, k: int) -> NumType
    decreases k,
{
    if k <= 0 {
        0
    } else {
        let before = spec_bits(children, k - 1);
        if spec_in_field(children[k - 1], "value"@) {
            let shifted = before.wrapping_mul(2);
            if children[k - 1].kind@ == "T"@ {
                (shifted + 1) as NumType
            } else {
                shifted
            }
        } else {
            before
        }
    }
}

/// The number that a node of kind `num` writes. Its sign is not looked at.
pub open spec fn spec_num_of(n: SyntaxNode) -> Result<Num, ConversionFault> {
    if n.kind@ != "num"@ {
        Err(ConversionFault::UnexpectedNodeKind(n.kind@))
    } else {
        Ok(Num(spec_bits(n.children@, n.children@.len() as int)))
    }
}

/// A number that is even after doubling takes one more without leaving
/// the numbers of the machine.
proof fn lemma_doubled_is_even(v: NumType)
    ensures
        v.wrapping_mul(2) < NumType::MAX,
{
    let d = v.wrapping_mul(2);
    assert(d < NumType::MAX) by {
        lemma_wrapped_double_parity(v);
    }
}

/// The double of a number, cut to the numbers of the machine, is even.
proof fn lemma_wrapped_double_parity(v: NumType)
    ensures
        v.wrapping_mul(2) % 2 == 0,
        NumType::MAX % 2 == 1,
{
    assert(NumType::MAX % 2 == 1) by {
        assert(isize::MAX == 0x7fff_ffff || isize::MAX == 0x7fff_ffff_ffff_ffff);
    }
    let range: int = NumType::MAX - NumType::MIN + 1;
    assert(range % 2 == 0) by {
        assert(isize::MAX == 0x7fff_ffff || isize::MAX == 0x7fff_ffff_ffff_ffff);
        assert(isize::MIN == -0x8000_0000 || isize::MIN == -0x8000_0000_0000_0000);
    }
    let d = v.wrapping_mul(2);
    assert(d == v * 2 || d == v * 2 - range || d == v * 2 + range) by {
        assert(isize::MAX == 0x7fff_ffff || isize::MAX == 0x7fff_ffff_ffff_ffff);
        assert(isize::MIN == -0x8000_0000 || isize::MIN == -0x8000_0000_0000_0000);
    }
}

/// The number that a node of kind `num` writes.
pub fn num_of(value: &SyntaxNode) -> (r: Result<Num, NodeConversionError>)
    ensures
        match r {
            Ok(n) => spec_num_of(*value) == Ok::<Num, ConversionFault>(n),
            Err(e) => spec_num_of(*value) == Err::<Num, ConversionFault>(e@),
        },
{
    if !same_text(value.kind(), "num") {
        return Err(NodeConversionError::UnexpectedNodeKind(value.kind.clone()));
    }
    let mut val: NumType = 0;
    let mut k: usize = 0;
    while k < value.children.len()
        invariant
            k <= value.children@.len(),
            val == spec_bits(value.children@, k as int),
        decreases value.children@.len() - k,
    {
        let bit = &value.children[k];
        if bit.in_field("value") {
            proof {
                lemma_doubled_is_even(val);
            }
            val = val.wrapping_mul(2);
            if same_text(bit.kind(), "T") {
                val = val + 1;
            }
        }
        k = k + 1;
    }
    Ok(Num(val))
}

/// The kinds of the first `k` children, written one after the other.
pub open spec fn spec_kinds(children: Seq<SyntaxNode>, k: int) -> Seq<char>
    decreases k,
{
    if k <= 0 {
        Seq::empty()
    } else {
        spec_kinds(children, k - 1) + children[k - 1].kind@
    }
}

/// The label that a node writes: the label of the bytes of its children's
/// kinds. Where those write no label, the argument counts as missing.
pub open spec fn spec_label_of(n: SyntaxNode) -> Result<Label, ConversionFault> {
    match spec_label(
        vstd::utf8::encode_utf8(spec_kinds(n.children@, n.children@.len() as int)),
    ) {
        Some(l) => Ok(l),
        None => Err(ConversionFault::MissingArgument),
    }
}

/// The label that a node writes.
pub fn label_of(node: &SyntaxNode) -> (r: Result<Label, NodeConversionError>)
    ensures
        match r {
            Ok(l) => spec_label_of(*node) == Ok::<Label, ConversionFault>(l),
            Err(e) => spec_label_of(*node) == Err::<Label, ConversionFault>(e@),
        },
{
    let mut s = String::new();
    let mut k: usize = 0;
    while k < node.children.len()
        invariant
            k <= node.children@.len(),
            s@ == spec_kinds(node.children@, k as int),
        decreases node.children@.len() - k,
    {
        s.append(node.children[k].kind());
        k = k + 1;
    }
    match Label::from_text(s.as_str()) {
        Ok(l) => Ok(l),
        Err(_) => Err(NodeConversionError::MissingArgument),
    }
}

/// The number in the field `num` of a node, or the fault of an instruction
/// that lacks its number.
pub open spec fn spec_number_argument(n: SyntaxNode) -> Result<Num, ConversionFault> {
    let place = spec_field_place(n.children@, "num"@, n.children@.len() as int);
    if place < n.children@.len() {
        spec_num_of(n.children@[place])
    } else {
        Err(ConversionFault::MissingArgument)
    }
}

/// The label in the field `label_name` of a node, or the fault of an
/// instruction that lacks its label.
pub open spec fn spec_label_argument(n: SyntaxNode) -> Result<Label, ConversionFault> {
    let place = spec_field_place(n.children@, "label_name"@, n.children@.len() as int);
    if place < n.children@.len() {
        spec_label_of(n.children@[place])
    } else {
        Err(ConversionFault::MissingArgument)
    }
}

fn number_argument(n: &SyntaxNode) -> (r: Result<Num, NodeConversionError>)
    ensures
        match r {
            Ok(v) => spec_number_argument(*n) == Ok::<Num, ConversionFault>(v),
            Err(e) => spec_number_argument(*n) == Err::<Num, ConversionFault>(e@),
        },
{
    match n.child_by_field_name("num") {
        Some(c) => num_of(c),
        None => Err(NodeConversionError::MissingArgument),
    }
}

fn label_argument(n: &SyntaxNode) -> (r: Result<Label, NodeConversionError>)
    ensures
        match r {
            Ok(v) => spec_label_argument(*n) == Ok::<Label, ConversionFault>(v),
            Err(e) => spec_label_argument(*n) == Err::<Label, ConversionFault>(e@),
        },
{
    match n.child_by_field_name("label_name") {
        Some(c) => label_of(c),
        None => Err(NodeConversionError::MissingArgument),
    }
}

/// The stack instruction that a node writes, by its kind.
pub open spec fn spec_stack_op_of(n: SyntaxNode) -> Result<StackOp, ConversionFault> {
    if n.kind@ == "push"@ {
        match spec_number_argument(n) {
            Ok(v) => Ok(StackOp::Push(v)),
            Err(e) => Err(e),
        }
    } else if n.kind@ == "dup"@ {
        Ok(StackOp::Duplicate)
    } else if n.kind@ == "swap"@ {
        Ok(StackOp::Swap)
    } else if n.kind@ == "discard"@ {
        Ok(StackOp::Discard)
    } else if n.kind@ == "copy"@ {
        match spec_number_argument(n) {
            Ok(v) => Ok(StackOp::Copy(v)),
            Err(e) => Err(e),
        }
    } else if n.kind@ == "slide"@ {
        match spec_number_argument(n) {
            Ok(v) => Ok(StackOp::Slide(v)),
            Err(e) => Err(e),
        }
    } else {
        Err(ConversionFault::UnexpectedNodeKind(n.kind@))
    }
}

/// The stack instruction that a node writes.
pub fn stack_op_of(n: &SyntaxNode) -> (r: Result<StackOp, NodeConversionError>)
    ensures
        match r {
            Ok(v) => spec_stack_op_of(*n) == Ok::<StackOp, ConversionFault>(v),
            Err(e) => spec_stack_op_of(*n) == Err::<StackOp, ConversionFault>(e@),
        },
{
    let kind = n.kind();
    if same_text(kind, "push") {
        match number_argument(n) {
            Ok(v) => Ok(StackOp::Push(v)),
            Err(e) => Err(e),
        }
    } else if same_text(kind, "dup") {
        Ok(StackOp::Duplicate)
    } else if same_text(kind, "swap") {
        Ok(StackOp::Swap)
    } else if same_text(kind, "discard") {
        Ok(StackOp::Discard)
    } else if same_text(kind, "copy") {
        match number_argument(n) {
            Ok(v) => Ok(StackOp::Copy(v)),
            Err(e) => Err(e),
        }
    } else if same_text(kind, "slide") {
        match number_argument(n) {
            Ok(v) => Ok(StackOp::Slide(v)),
            Err(e) => Err(e),
        }
    } else {
        Err(NodeConversionError::UnexpectedNodeKind(n.kind.clone()))
    }
}

/// The flow instruction that a node writes, by its kind.
pub open spec fn spec_flow_control_op_of(n: SyntaxNode) -> Result<FlowControlOp, ConversionFault> {
    if n.kind@ == "label"@ {
        match spec_label_argument(n) {
            Ok(v) => Ok(FlowControlOp::Label(v)),
            Err(e) => Err(e),
        }
    } else if n.kind@ == "call"@ {
        match spec_label_argument(n) {
            Ok(v) => Ok(FlowControlOp::Call(v)),
            Err(e) => Err(e),
        }
    } else if n.kind@ == "jump"@ {
        match spec_label_argument(n) {
            Ok(v) => Ok(FlowControlOp::Jump(v)),
            Err(e) => Err(e),
        }
    } else if n.kind@ == "jump_zero"@ {
        match spec_label_argument(n) {
            Ok(v) => Ok(FlowControlOp::JumpIfZero(v)),
            Err(e) => Err(e),
        }
    } else if n.kind@ == "jump_neg"@ {
        match spec_label_argument(n) {
            Ok(v) => Ok(FlowControlOp::JumpIfNegative(v)),
            Err(e) => Err(e),
        }
    } else if n.kind@ == "return"@ {
        Ok(FlowControlOp::Return)
    } else if n.kind@ == "exit"@ {
        Ok(FlowControlOp::Exit)
    } else {
        Err(ConversionFault::UnexpectedNodeKind(n.kind@))
    }
}

/// The flow instruction that a node writes.
pub fn flow_control_op_of(n: &SyntaxNode) -> (r: Result<FlowControlOp, NodeConversionError>)
    ensures
        match r {
            Ok(v) => spec_flow_control_op_of(*n) == Ok::<FlowControlOp, ConversionFault>(v),
            Err(e) => spec_flow_control_op_of(*n) == Err::<FlowControlOp, ConversionFault>(e@),
        },
{
    let kind = n.kind();
    if same_text(kind, "label") {
        match label_argument(n) {
            Ok(v) => Ok(FlowControlOp::Label(v)),
            Err(e) => Err(e),
        }
    } else if same_text(kind, "call") {
        match label_argument(n) {
            Ok(v) => Ok(FlowControlOp::Call(v)),
            Err(e) => Err(e),
        }
    } else if same_text(kind, "jump") {
        match label_argument(n) {
            Ok(v) => Ok(FlowControlOp::Jump(v)),
            Err(e) => Err(e),
        }
    } else if same_text(kind, "jump_zero") {
        match label_argument(n) {
            Ok(v) => Ok(FlowControlOp::JumpIfZero(v)),
            Err(e) => Err(e),
        }
    } else if same_text(kind, "jump_neg") {
        match label_argument(n) {
            Ok(v) => Ok(FlowControlOp::JumpIfNegative(v)),
            Err(e) => Err(e),
        }
    } else if same_text(kind, "return") {
        Ok(FlowControlOp::Return)
    } else if same_text(kind, "exit") {
        Ok(FlowControlOp::Exit)
    } else {
        Err(NodeConversionError::UnexpectedNodeKind(n.kind.clone()))
    }
}

/// The heap instruction that a node writes, by its kind.
pub open spec fn spec_heap_access_op_of(n: SyntaxNode) -> Result<HeapAccessOp, ConversionFault> {
    if n.kind@ == "load"@ {
        Ok(HeapAccessOp::Load)
    } else if n.kind@ == "store"@ {
        Ok(HeapAccessOp::Store)
    } else {
        Err(ConversionFault::UnexpectedNodeKind(n.kind@))
    }
}

/// The heap instruction that a node writes.
pub fn heap_access_op_of(n: &SyntaxNode) -> (r: Result<HeapAccessOp, NodeConversionError>)
    ensures
        match r {
            Ok(v) => spec_heap_access_op_of(*n) == Ok::<HeapAccessOp, ConversionFault>(v),
            Err(e) => spec_heap_access_op_of(*n) == Err::<HeapAccessOp, ConversionFault>(e@),
        },
{
    let kind = n.kind();
    if same_text(kind, "load") {
        Ok(HeapAccessOp::Load)
    } else if same_text(kind, "store") {
        Ok(HeapAccessOp::Store)
    } else {
        Err(NodeConversionError::UnexpectedNodeKind(n.kind.clone()))
    }
}

/// The instruction of reading or printing that a node writes, by its kind.
pub open spec fn spec_io_op_of(n: SyntaxNode) -> Result<IoOp, ConversionFault> {
    if n.kind@ == "print_char"@ {
        Ok(IoOp::PrintChar)
    } else if n.kind@ == "print_num"@ {
        Ok(IoOp::PrintNum)
    } else if n.kind@ == "read_char"@ {
        Ok(IoOp::ReadChar)
    } else if n.kind@ == "read_num"@ {
        Ok(IoOp::ReadNum)
    } else {
        Err(ConversionFault::UnexpectedNodeKind(n.kind@))
    }
}

/// The instruction of reading or printing that a node writes.
pub fn io_op_of(n: &SyntaxNode) -> (r: Result<IoOp, NodeConversionError>)
    ensures
        match r {
            Ok(v) => spec_io_op_of(*n) == Ok::<IoOp, ConversionFault>(v),
            Err(e) => spec_io_op_of(*n) == Err::<IoOp, ConversionFault>(e@),
        },
{
    let kind = n.kind();
    if same_text(kind, "print_char") {
        Ok(IoOp::PrintChar)
    } else if same_text(kind, "print_num") {
        Ok(IoOp::PrintNum)
    } else if same_text(kind, "read_char") {
        Ok(IoOp::ReadChar)
    } else if same_text(kind, "read_num") {
        Ok(IoOp::ReadNum)
    } else {
        Err(NodeConversionError::UnexpectedNodeKind(n.kind.clone()))
    }
}

/// The operation of arithmetic that a node writes, by its kind.
pub open spec fn spec_arithmetic_op_of(n: SyntaxNode) -> Result<ArithmeticOp, ConversionFault> {
    if n.kind@ == "add"@ {
        Ok(ArithmeticOp::Add)
    } else if n.kind@ == "sub"@ {
        Ok(ArithmeticOp::Subtract)
    } else if n.kind@ == "mul"@ {
        Ok(ArithmeticOp::Multiply)
    } else if n.kind@ == "div"@ {
        Ok(ArithmeticOp::Divide)
    } else if n.kind@ == "mod"@ {
        Ok(ArithmeticOp::Modulo)
    } else {
        Err(ConversionFault::UnexpectedNodeKind(n.kind@))
    }
}

/// The operation of arithmetic that a node writes.
pub fn arithmetic_op_of(n: &SyntaxNode) -> (r: Result<ArithmeticOp, NodeConversionError>)
    ensures
        match r {
            Ok(v) => spec_arithmetic_op_of(*n) == Ok::<ArithmeticOp, ConversionFault>(v),
            Err(e) => spec_arithmetic_op_of(*n) == Err::<ArithmeticOp, ConversionFault>(e@),
        },
{
    let kind = n.kind();
    if same_text(kind, "add") {
        Ok(ArithmeticOp::Add)
    } else if same_text(kind, "sub") {
        Ok(ArithmeticOp::Subtract)
    } else if same_text(kind, "mul") {
        Ok(ArithmeticOp::Multiply)
    } else if same_text(kind, "div") {
        Ok(ArithmeticOp::Divide)
    } else if same_text(kind, "mod") {
        Ok(ArithmeticOp::Modulo)
    } else {
        Err(NodeConversionError::UnexpectedNodeKind(n.kind.clone()))
    }
}

/// Whether the kind names one of the five groups of instructions.
pub open spec fn spec_is_group(kind: Seq<char>) -> bool {
    kind == "op_stack"@ || kind == "op_io"@ || kind == "op_heap"@ || kind == "op_flow"@ || kind
        == "op_arithmetic"@
}

/// The instruction that a node writes: the node names the group, and its
/// first child the instruction.
pub open spec fn spec_op_code_of(n: SyntaxNode) -> Result<OpCode, ConversionFault> {
    if !spec_is_group(n.kind@) {
        Err(ConversionFault::UnexpectedNodeKind(n.kind@))
    } else if n.children@.len() == 0 {
        Err(ConversionFault::MissingChild)
    } else if n.kind@ == "op_stack"@ {
        match spec_stack_op_of(n.children@[0]) {
            Ok(v) => Ok(OpCode::Stack(v)),
            Err(e) => Err(e),
        }
    } else if n.kind@ == "op_io"@ {
        match spec_io_op_of(n.children@[0]) {
            Ok(v) => Ok(OpCode::IO(v)),
            Err(e) => Err(e),
        }
    } else if n.kind@ == "op_heap"@ {
        match spec_heap_access_op_of(n.children@[0]) {
            Ok(v) => Ok(OpCode::HeapAccess(v)),
            Err(e) => Err(e),
        }
    } else if n.kind@ == "op_flow"@ {
        match spec_flow_control_op_of(n.children@[0]) {
            Ok(v) => Ok(OpCode::FlowControl(v)),
            Err(e) => Err(e),
        }
    } else {
        match spec_arithmetic_op_of(n.children@[0]) {
            Ok(v) => Ok(OpCode::Arithmetic(v)),
            Err(e) => Err(e),
        }
    }
}

/// The instruction that a node writes.
pub fn op_code_of(n: &SyntaxNode) -> (r: Result<OpCode, NodeConversionError>)
    ensures
        match r {
            Ok(v) => spec_op_code_of(*n) == Ok::<OpCode, ConversionFault>(v),
            Err(e) => spec_op_code_of(*n) == Err::<OpCode, ConversionFault>(e@),
        },
{
    let kind = n.kind();
    let stack = same_text(kind, "op_stack");
    let io = same_text(kind, "op_io");
    let heap = same_text(kind, "op_heap");
    let flow = same_text(kind, "op_flow");
    let arithmetic = same_text(kind, "op_arithmetic");
    if !(stack || io || heap || flow || arithmetic) {
        return Err(NodeConversionError::UnexpectedNodeKind(n.kind.clone()));
    }
    let first = match n.child(0) {
        Some(c) => c,
        None => {
            return Err(NodeConversionError::MissingChild);
        },
    };
    if stack {
        match stack_op_of(first) {
            Ok(v) => Ok(OpCode::Stack(v)),
            Err(e) => Err(e),
        }
    } else if io {
        match io_op_of(first) {
            Ok(v) => Ok(OpCode::IO(v)),
            Err(e) => Err(e),
        }
    } else if heap {
        match heap_access_op_of(first) {
            Ok(v) => Ok(OpCode::HeapAccess(v)),
            Err(e) => Err(e),
        }
    } else if flow {
        match flow_control_op_of(first) {
            Ok(v) => Ok(OpCode::FlowControl(v)),
            Err(e) => Err(e),
        }
    } else {
        match arithmetic_op_of(first) {
            Ok(v) => Ok(OpCode::Arithmetic(v)),
            Err(e) => Err(e),
        }
    }
}

/// The instructions that the first `k` children write, or the fault of the
/// first child that writes none.
pub open spec fn spec_op_codes_of(children: Seq<SyntaxNode>, k: int) -> Result<
    Seq<OpCode>,
    ConversionFault,
>
    decreases k,
{
    if k <= 0 {
        Ok(Seq::empty())
    } else {
        match spec_op_codes_of(children, k - 1) {
            Ok(ops) => match spec_op_code_of(children[k - 1]) {
                Ok(op) => Ok(ops.push(op)),
                Err(e) => Err(e),
            },
            Err(e) => Err(e),
        }
    }
}

/// A program that was read from a syntax tree: the tree and its instructions.
#[derive(Debug)]
pub struct AST {
    pub root: SyntaxNode,
    pub op_codes: Vec<OpCode>,
}

/// Reads the instructions of a program from its syntax tree: each child of
/// the root writes one. The first child that writes none gives the error.
pub fn parse(root: SyntaxNode) -> (r: Result<AST, NodeConversionError>)
    ensures
        match r {
            Ok(ast) => ast.root == root && spec_op_codes_of(
                root.children@,
                root.children@.len() as int,
            ) == Ok::<Seq<OpCode>, ConversionFault>(ast.op_codes@),
            Err(e) => spec_op_codes_of(root.children@, root.children@.len() as int) == Err::<
                Seq<OpCode>,
                ConversionFault,
            >(e@),
        },
{
    let mut ops: Vec<OpCode> = Vec::new();
    let mut k: usize = 0;
    while k < root.children.len()
        invariant
            k <= root.children@.len(),
            spec_op_codes_of(root.children@, k as int) == Ok::<Seq<OpCode>, ConversionFault>(ops@),
        decreases root.children@.len() - k,
    {
        match op_code_of(&root.children[k]) {
            Ok(op) => {
                ops.push(op);
            },
            Err(e) => {
                proof {
                    lemma_op_codes_fail(root.children@, k as int + 1, root.children@.len() as int);
                }
                return Err(e);
            },
        }
        k = k + 1;
    }
    Ok(AST { root, op_codes: ops })
}

/// Once a child has failed, reading further children changes nothing.
proof fn lemma_op_codes_fail(children: Seq<SyntaxNode>, k: int, n: int)
    requires
        0 <= k <= n,
        spec_op_codes_of(children, k) is Err,
    ensures
        spec_op_codes_of(children, n) == spec_op_codes_of(children, k),
    decreases n,
{
    if n > k {
        lemma_op_codes_fail(children, k, n - 1);
    }
}

/// The number of nodes of the tree below and with `n`.
pub open spec fn spec_size(n: SyntaxNode) -> nat
    decreases n,
{
    1 + spec_sizes(n.children@, n.children@.len() as int)
}

/// The number of nodes of the trees of the first `k` nodes of `s`.
pub open spec fn spec_sizes(s: Seq<SyntaxNode>, k: int) -> nat
    decreases s, k,
{
    if k <= 0 || k > s.len() {
        0
    } else {
        spec_size(s[k - 1]) + spec_sizes(s, k - 1)
    }
}

/// The nodes that wait to be visited, as values.
pub open spec fn spec_waiting(stack: Seq<&SyntaxNode>) -> Seq<SyntaxNode> {
    Seq::new(stack.len(), |i: int| *stack[i])
}

/// The nodes that a walk visits which has `stack` still to visit, the last
/// node of `stack` first: a node is taken off the stack, its children are
/// put on in order, and the node is visited unless its kind is one that is
/// passed over. `fuel` bounds the number of nodes that are taken off.
pub open spec fn spec_walk(stack: Seq<SyntaxNode>, fuel: nat) -> Seq<SyntaxNode>
    decreases fuel,
{
    if fuel == 0 || stack.len() == 0 {
        Seq::empty()
    } else {
        let node = stack.last();
        let rest = stack.drop_last() + node.children@;
        if spec_ignored(node.kind@) {
            spec_walk(rest, (fuel - 1) as nat)
        } else {
            seq![node] + spec_walk(rest, (fuel - 1) as nat)
        }
    }
}

/// The number of nodes that a walk takes off a stack in all.
pub open spec fn spec_total(stack: Seq<SyntaxNode>) -> nat {
    spec_sizes(stack, stack.len() as int)
}

/// The sizes of the first nodes do not depend on what follows them.
proof fn lemma_sizes_prefix(a: Seq<SyntaxNode>, b: Seq<SyntaxNode>, k: int)
    requires
        0 <= k <= a.len(),
        k <= b.len(),
        forall|i: int| 0 <= i < k ==> a[i] == b[i],
    ensures
        spec_sizes(a, k) == spec_sizes(b, k),
    decreases k,
{
    if k > 0 {
        lemma_sizes_prefix(a, b, k - 1);
    }
}

/// The sizes of two rows of nodes add up.
proof fn lemma_sizes_concat(a: Seq<SyntaxNode>, b: Seq<SyntaxNode>, k: int)
    requires
        0 <= k <= b.len(),
    ensures
        spec_sizes(a + b, a.len() + k) == spec_sizes(a, a.len() as int) + spec_sizes(b, k),
    decreases k,
{
    if k > 0 {
        lemma_sizes_concat(a, b, k - 1);
        assert((a + b)[a.len() + k - 1] == b[k - 1]);
    } else {
        lemma_sizes_prefix(a + b, a, a.len() as int);
    }
}

/// Taking a node off the stack and putting its children on leaves one node
/// less to take off.
pub proof fn lemma_walk_shrinks(stack: Seq<SyntaxNode>)
    requires
        stack.len() > 0,
    ensures
        spec_total(stack.drop_last() + stack.last().children@) + 1 == spec_total(stack),
{
    let node = stack.last();
    let rest = stack.drop_last();
    let next = rest + node.children@;
    lemma_sizes_concat(rest, node.children@, node.children@.len() as int);
    lemma_sizes_prefix(stack, rest, rest.len() as int);
    assert(next.len() == rest.len() + node.children@.len());
    assert(spec_total(next) == spec_sizes(rest, rest.len() as int) + spec_sizes(
        node.children@,
        node.children@.len() as int,
    ));
    assert(spec_sizes(stack, stack.len() as int) == spec_size(stack[stack.len() - 1])
        + spec_sizes(stack, stack.len() - 1));
    assert(spec_size(node) == 1 + spec_sizes(node.children@, node.children@.len() as int));
}

/// A walk over a whole syntax tree.
#[derive(Debug)]
pub struct NodeIterator<'a> {
    siblings: Vec<&'a SyntaxNode>,
}

impl<'a> NodeIterator<'a> {
    /// The nodes that wait to be visited; the last one is next.
    pub closed spec fn waiting(&self) -> Seq<SyntaxNode> {
        spec_waiting(self.siblings@)
    }

    /// The nodes that the walk has still to visit, in order.
    pub open spec fn remaining(&self) -> Seq<SyntaxNode> {
        spec_walk(self.waiting(), spec_total(self.waiting()))
    }

    /// A walk that begins at the root of `tree`.
    #[must_use]
    pub fn new(tree: &'a SyntaxNode) -> (r: Self)
        ensures
            r.waiting() == seq![*tree],
    {
        let mut siblings: Vec<&'a SyntaxNode> = Vec::new();
        siblings.push(tree);
        proof {
            assert(spec_waiting(siblings@) =~= seq![*tree]);
        }
        Self { siblings }
    }

    /// The next node of the walk, or `None` when the walk is over.
    pub fn next(&mut self) -> (r: Option<&'a SyntaxNode>)
        ensures
            match r {
                Some(node) => old(self).remaining() == seq![*node] + final(self).remaining(),
                None => old(self).remaining() == Seq::<SyntaxNode>::empty()
                    && final(self).waiting().len() == 0,
            },
    {
        loop
            invariant
                old(self).remaining() == self.remaining(),
            decreases spec_total(self.waiting()),
        {
            let ghost before = self.waiting();
            let sibling = match self.siblings.pop() {
                Some(s) => s,
                None => {
                    proof {
                        assert(self.waiting().len() == 0);
                    }
                    return None;
                },
            };
            proof {
                assert(spec_waiting(self.siblings@) =~= before.drop_last());
                assert(*sibling == before.last());
            }
            let ghost base = self.waiting();
            let mut k: usize = 0;
            while k < sibling.children.len()
                invariant
                    k <= sibling.children@.len(),
                    self.waiting() == base + sibling.children@.subrange(0, k as int),
                decreases sibling.children@.len() - k,
            {
                let ghost stacked = self.siblings@;
                self.siblings.push(&sibling.children[k]);
                proof {
                    assert(self.siblings@ == stacked.push(&sibling.children@[k as int]));
                    assert(spec_waiting(self.siblings@) =~= spec_waiting(stacked).push(
                        sibling.children@[k as int],
                    ));
                    assert(sibling.children@.subrange(0, k + 1) =~= sibling.children@.subrange(
                        0,
                        k as int,
                    ).push(sibling.children@[k as int]));
                    assert(spec_waiting(self.siblings@) =~= base + sibling.children@.subrange(
                        0,
                        k + 1,
                    ));
                }
                k = k + 1;
            }
            proof {
                assert(sibling.children@.subrange(0, k as int) =~= sibling.children@);
                lemma_walk_shrinks(before);
            }
            if !is_ignored(sibling.kind()) {
                return Some(sibling);
            }
        }
    }
}

} // verus!
