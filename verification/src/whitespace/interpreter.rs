//! The machine that runs a program: a stack, a heap, a stack of calls, and
//! one instruction after the other.

use vstd::prelude::*;
use vstd::std_specs::convert::FromSpecImpl;
use std::collections::HashMap;
use crate::text::{push_signed_decimal, signed_decimal};
use crate::whitespace::program::Program;
use crate::whitespace::tokens::{
    ArithmeticOp, FlowControlOp, HeapAccessOp, IoOp, Label, Num, NumType, OpCode, StackOp,
};

verus! {

broadcast use vstd::std_specs::hash::group_hash_axioms;

/// A value on the stack or in the heap.
#[derive(Debug, PartialEq, Eq, Clone, Copy, Hash, Structural)]
pub struct MemoryVal(pub NumType);

impl MemoryVal {
    /// The character whose code the value is; `None` for a value that is no
    /// code between 0 and 255.
    pub fn as_char(&self) -> (r: Option<char>)
        ensures
            r == spec_as_char(*self),
    {
        if 0 <= self.0 && self.0 <= 255 {
            Some((self.0 as u8) as char)
        } else {
            None
        }
    }
}

/// The character whose code `v` is, where it is a code between 0 and 255.
pub open spec fn spec_as_char(v: MemoryVal) -> Option<char> {
    if 0 <= v.0 <= 255 {
        Some((v.0 as u8) as char)
    } else {
        None
    }
}

/// The value that a character gives when it is read: its code, cut to
/// eight bits.
pub open spec fn spec_char_value(c: char) -> NumType {
    ((c as u32) % 256) as NumType
}

impl From<char> for MemoryVal {
    fn from(c: char) -> (r: Self) {
        let code: u32 = c as u32;
        Self((code % 256) as NumType)
    }
}

impl FromSpecImpl<char> for MemoryVal {
    open spec fn obeys_from_spec() -> bool {
        true
    }

    open spec fn from_spec(c: char) -> Self {
        MemoryVal(spec_char_value(c))
    }
}

impl From<NumType> for MemoryVal {
    fn from(n: NumType) -> (r: Self) {
        Self(n)
    }
}

impl FromSpecImpl<NumType> for MemoryVal {
    open spec fn obeys_from_spec() -> bool {
        true
    }

    open spec fn from_spec(n: NumType) -> Self {
        MemoryVal(n)
    }
}

impl From<Num> for MemoryVal {
    fn from(value: Num) -> (r: Self) {
        Self(value.0)
    }
}

impl FromSpecImpl<Num> for MemoryVal {
    open spec fn obeys_from_spec() -> bool {
        true
    }

    open spec fn from_spec(value: Num) -> Self {
        MemoryVal(value.0)
    }
}

/// Where the machine gets what a program reads.
pub trait Readable {
    /// The next character of the input.
    fn read_char(&mut self) -> char;

    /// The next number of the input.
    fn read_num(&mut self) -> NumType;
}

/// Why a run stopped before the program ended it.
#[derive(Debug, PartialEq, Eq, Clone, Copy, Structural)]
pub enum VmFault {
    /// No instruction stands at the place that the run has come to.
    NoInstruction,
    /// An instruction needs more values than the stack holds.
    EmptyStack,
    /// A negative number was used as an address of the heap.
    NegativeAddress,
    /// Nothing was ever stored at the address that is loaded.
    UnsetAddress,
    /// A division or a remainder whose divisor is zero.
    DivisionByZero,
    /// A result does not fit into the machine's numbers.
    Overflow,
    /// A jump or a call names a label that the program does not have.
    UnknownLabel,
    /// A return without a call.
    EmptyCallStack,
    /// A copy from a depth that the stack does not have.
    CopyOutOfRange,
    /// A value that is printed as a character is no code between 0 and 255.
    NotACharacter,
}

/// Whether the machine goes on.
#[derive(Debug, PartialEq, Eq, Clone, Copy, Structural)]
pub enum VmStatus {
    Running,
    Halted,
    Faulted(VmFault),
}

/// What the next instruction reads from the input.
#[derive(Debug, PartialEq, Eq, Clone, Copy, Structural)]
pub enum ReadKind {
    Char,
    Num,
}

/// The state of the machine between two steps.
pub struct VmState {
    /// The stack; its last element is the top.
    pub stack: Seq<MemoryVal>,
    /// The heap: the addresses that were stored to, each with its value.
    pub heap: Map<usize, MemoryVal>,
    /// The calls that have not returned: each label with the place to return to.
    pub calls: Seq<(Label, usize)>,
    /// The place of the next instruction.
    pub ip: usize,
    /// The number of steps taken; it stops counting at the largest number.
    pub iteration: usize,
    /// The text printed so far.
    pub output: Seq<char>,
}

impl VmState {
    /// The state in which every run begins.
    pub open spec fn initial() -> VmState {
        VmState {
            stack: Seq::empty(),
            heap: Map::empty(),
            calls: Seq::empty(),
            ip: 0,
            iteration: 0,
            output: Seq::empty(),
        }
    }

    /// The value at `depth` below the top of the stack.
    pub open spec fn top(self, depth: int) -> MemoryVal {
        self.stack[self.stack.len() - 1 - depth]
    }

    /// The stack without its upper `n` values.
    pub open spec fn lower(self, n: int) -> Seq<MemoryVal> {
        self.stack.subrange(0, self.stack.len() - n)
    }

    /// The state with another stack and the next instruction in line.
    pub open spec fn onward(self, stack: Seq<MemoryVal>) -> VmState {
        VmState { stack, ip: spec_next(self.ip), ..self }
    }
}

/// The place after `ip`.
pub open spec fn spec_next(ip: usize) -> usize {
    if ip < usize::MAX {
        (ip + 1) as usize
    } else {
        ip
    }
}

/// The first instruction among those from `k` on that stands at place `ip`.
pub open spec fn spec_find_from(ops: Seq<(Option<usize>, OpCode)>, ip: usize, k: int) -> Option<
    OpCode,
>
    decreases ops.len() - k,
{
    if k < 0 || k >= ops.len() {
        None
    } else if ops[k].0 == Some(ip) {
        Some(ops[k].1)
    } else {
        spec_find_from(ops, ip, k + 1)
    }
}

/// The instruction at place `ip`, where there is one.
pub open spec fn spec_find(ops: Seq<(Option<usize>, OpCode)>, ip: usize) -> Option<OpCode> {
    spec_find_from(ops, ip, 0)
}

/// The result of an operation of arithmetic on `a`, the upper value, and
/// `b`, the lower one: their sum, the lower less the upper, their product,
/// the upper divided by the lower, or the remainder of that division. A
/// quotient is rounded towards zero, and a remainder has the sign of the
/// upper value.
pub open spec fn spec_arithmetic(op: ArithmeticOp, a: NumType, b: NumType) -> Result<
    NumType,
    VmFault,
> {
    match op {
        ArithmeticOp::Add => match a.checked_add(b) {
            Some(v) => Ok(v),
            None => Err(VmFault::Overflow),
        },
        ArithmeticOp::Subtract => match b.checked_sub(a) {
            Some(v) => Ok(v),
            None => Err(VmFault::Overflow),
        },
        ArithmeticOp::Multiply => match a.checked_mul(b) {
            Some(v) => Ok(v),
            None => Err(VmFault::Overflow),
        },
        ArithmeticOp::Divide => if b == 0 {
            Err(VmFault::DivisionByZero)
        } else {
            match a.checked_div(b) {
                Some(v) => Ok(v),
                None => Err(VmFault::Overflow),
            }
        },
        ArithmeticOp::Modulo => if b == 0 {
            Err(VmFault::DivisionByZero)
        } else if b == -1 {
            Ok(0)
        } else {
            match a.checked_rem(b) {
                Some(v) => Ok(v),
                None => Err(VmFault::Overflow),
            }
        },
    }
}

/// The state after a jump to `label`, or the fault of a label that the
/// program does not have.
pub open spec fn spec_jump(labels: Map<Label, usize>, s: VmState, label: Label) -> Result<
    VmState,
    VmFault,
> {
    if labels.contains_key(label) {
        Ok(VmState { ip: labels[label], ..s })
    } else {
        Err(VmFault::UnknownLabel)
    }
}

/// What the instruction `op` does to the state `s`, or the fault on which
/// it stops. `read` is what the input gives where the instruction reads.
pub open spec fn spec_effect(labels: Map<Label, usize>, s: VmState, op: OpCode, read: NumType) -> Result<
    VmState,
    VmFault,
> {
    let len = s.stack.len();
    match op {
        OpCode::IO(IoOp::ReadChar) => if len < 1 {
            Err(VmFault::EmptyStack)
        } else if s.top(0).0 < 0 {
            Err(VmFault::NegativeAddress)
        } else {
            Ok(
                VmState {
                    heap: s.heap.insert(s.top(0).0 as usize, MemoryVal(read)),
                    ..s.onward(s.lower(1))
                },
            )
        },
        OpCode::IO(IoOp::ReadNum) => if len < 1 {
            Ok(s.onward(s.stack.push(MemoryVal(read))))
        } else if s.top(0).0 < 0 {
            Err(VmFault::NegativeAddress)
        } else {
            Ok(
                VmState {
                    heap: s.heap.insert(s.top(0).0 as usize, MemoryVal(read)),
                    ..s.onward(s.lower(1))
                },
            )
        },
        OpCode::IO(IoOp::PrintChar) => if len < 1 {
            Err(VmFault::EmptyStack)
        } else {
            match spec_as_char(s.top(0)) {
                Some(c) => Ok(VmState { output: s.output.push(c), ..s.onward(s.lower(1)) }),
                None => Err(VmFault::NotACharacter),
            }
        },
        OpCode::IO(IoOp::PrintNum) => if len < 1 {
            Err(VmFault::EmptyStack)
        } else {
            Ok(
                VmState {
                    output: s.output + signed_decimal(s.top(0).0 as int),
                    ..s.onward(s.lower(1))
                },
            )
        },
        OpCode::Stack(StackOp::Push(n)) => Ok(s.onward(s.stack.push(MemoryVal(n.0)))),
        OpCode::Stack(StackOp::Duplicate) => if len < 1 {
            Err(VmFault::EmptyStack)
        } else {
            Ok(s.onward(s.stack.push(s.top(0))))
        },
        OpCode::Stack(StackOp::Copy(n)) => if 0 <= n.0 < len {
            Ok(s.onward(s.stack.push(s.top(n.0 as int))))
        } else {
            Err(VmFault::CopyOutOfRange)
        },
        OpCode::Stack(StackOp::Swap) => if len < 2 {
            Err(VmFault::EmptyStack)
        } else {
            Ok(s.onward(s.lower(2).push(s.top(0)).push(s.top(1))))
        },
        OpCode::Stack(StackOp::Discard) => if len < 1 {
            Ok(s.onward(s.stack))
        } else {
            Ok(s.onward(s.lower(1)))
        },
        OpCode::Stack(StackOp::Slide(n)) => if len < 1 || n.0 < 0 || n.0 > len - 1 {
            Err(VmFault::EmptyStack)
        } else {
            Ok(s.onward(s.lower(1 + n.0).push(s.top(0))))
        },
        OpCode::Arithmetic(a) => if len < 2 {
            Err(VmFault::EmptyStack)
        } else {
            match spec_arithmetic(a, s.top(0).0, s.top(1).0) {
                Ok(v) => Ok(s.onward(s.lower(2).push(MemoryVal(v)))),
                Err(f) => Err(f),
            }
        },
        OpCode::FlowControl(FlowControlOp::Label(_)) => Ok(s.onward(s.stack)),
        OpCode::FlowControl(FlowControlOp::Call(l)) => spec_jump(
            labels,
            VmState { calls: s.calls.push((l, spec_next(s.ip))), ..s },
            l,
        ),
        OpCode::FlowControl(FlowControlOp::Jump(l)) => spec_jump(labels, s, l),
        OpCode::FlowControl(FlowControlOp::JumpIfZero(l)) => if len < 1 {
            Err(VmFault::EmptyStack)
        } else if s.top(0).0 == 0 {
            spec_jump(labels, VmState { stack: s.lower(1), ..s }, l)
        } else {
            Ok(s.onward(s.lower(1)))
        },
        OpCode::FlowControl(FlowControlOp::JumpIfNegative(l)) => if len < 1 {
            Err(VmFault::EmptyStack)
        } else if s.top(0).0 < 0 {
            spec_jump(labels, VmState { stack: s.lower(1), ..s }, l)
        } else {
            Ok(s.onward(s.lower(1)))
        },
        OpCode::FlowControl(FlowControlOp::Return) => if s.calls.len() < 1 {
            Err(VmFault::EmptyCallStack)
        } else {
            Ok(
                VmState {
                    ip: s.calls[s.calls.len() - 1].1,
                    calls: s.calls.subrange(0, s.calls.len() - 1),
                    ..s
                },
            )
        },
        OpCode::FlowControl(FlowControlOp::Exit) => Ok(s),
        OpCode::HeapAccess(HeapAccessOp::Store) => if len < 2 {
            Err(VmFault::EmptyStack)
        } else if s.top(1).0 < 0 {
            Err(VmFault::NegativeAddress)
        } else {
            Ok(VmState { heap: s.heap.insert(s.top(1).0 as usize, s.top(0)), ..s.onward(s.lower(2)) })
        },
        OpCode::HeapAccess(HeapAccessOp::Load) => if len < 1 {
            Err(VmFault::EmptyStack)
        } else if s.top(0).0 < 0 {
            Err(VmFault::NegativeAddress)
        } else if !s.heap.contains_key(s.top(0).0 as usize) {
            Err(VmFault::UnsetAddress)
        } else {
            Ok(s.onward(s.lower(1).push(s.heap[s.top(0).0 as usize])))
        },
    }
}

/// What one step leaves behind.
pub struct VmTurn {
    pub state: VmState,
    pub status: VmStatus,
}

/// The state with one more step counted.
pub open spec fn spec_counted(s: VmState) -> VmState {
    VmState {
        iteration: if s.iteration < usize::MAX {
            (s.iteration + 1) as usize
        } else {
            s.iteration
        },
        ..s
    }
}

/// One step of the machine: the step is counted, and the instruction at the
/// current place is done. The end instruction halts the machine. On a fault
/// the state stays as it was but for the count.
pub open spec fn spec_vm_step(
    ops: Seq<(Option<usize>, OpCode)>,
    labels: Map<Label, usize>,
    s: VmState,
    read: NumType,
) -> VmTurn {
    let counted = spec_counted(s);
    match spec_find(ops, s.ip) {
        None => VmTurn { state: counted, status: VmStatus::Faulted(VmFault::NoInstruction) },
        Some(OpCode::FlowControl(FlowControlOp::Exit)) => VmTurn {
            state: counted,
            status: VmStatus::Halted,
        },
        Some(op) => match spec_effect(labels, counted, op, read) {
            Ok(next) => VmTurn { state: next, status: VmStatus::Running },
            Err(f) => VmTurn { state: counted, status: VmStatus::Faulted(f) },
        },
    }
}

/// What the next step reads from the input, if it reads.
pub open spec fn spec_wants(ops: Seq<(Option<usize>, OpCode)>, s: VmState) -> Option<ReadKind> {
    match spec_find(ops, s.ip) {
        Some(OpCode::IO(IoOp::ReadChar)) => if s.stack.len() >= 1 && s.top(0).0 >= 0 {
            Some(ReadKind::Char)
        } else {
            None
        },
        Some(OpCode::IO(IoOp::ReadNum)) => if s.stack.len() < 1 || s.top(0).0 >= 0 {
            Some(ReadKind::Num)
        } else {
            None
        },
        _ => None,
    }
}

/// A run in progress: the machine, whether it goes on, and how many values
/// it has read.
pub struct VmWorld {
    pub state: VmState,
    pub status: VmStatus,
    pub taken: nat,
}

/// The value that the `k`-th read takes from `reads`; zero once `reads`
/// has run out.
pub open spec fn spec_read(reads: Seq<NumType>, k: nat) -> NumType {
    if k < reads.len() {
        reads[k as int]
    } else {
        0
    }
}

/// The run one step further. A run that has stopped stays as it is.
pub open spec fn spec_vm_turn(
    ops: Seq<(Option<usize>, OpCode)>,
    labels: Map<Label, usize>,
    w: VmWorld,
    reads: Seq<NumType>,
) -> VmWorld {
    if w.status is Running {
        let t = spec_vm_step(ops, labels, w.state, spec_read(reads, w.taken));
        VmWorld {
            state: t.state,
            status: t.status,
            taken: if spec_wants(ops, w.state) is Some {
                w.taken + 1
            } else {
                w.taken
            },
        }
    } else {
        w
    }
}

/// The run after `n` steps from `w`, or as it stopped if it stopped earlier.
pub open spec fn spec_vm_trace(
    ops: Seq<(Option<usize>, OpCode)>,
    labels: Map<Label, usize>,
    w: VmWorld,
    reads: Seq<NumType>,
    n: nat,
) -> VmWorld
    decreases n,
{
    if n == 0 {
        w
    } else {
        spec_vm_turn(ops, labels, spec_vm_trace(ops, labels, w, reads, (n - 1) as nat), reads)
    }
}

/// How a run ended, with all that it printed.
pub enum VmEnding {
    /// The program ended the run.
    Halted(Seq<char>),
    /// The run stopped on a fault.
    Faulted(VmFault, Seq<char>),
    /// The run was cut off while the machine was still going.
    Aborted(Seq<char>),
}

/// How the run `w` ends if it is cut off now.
pub open spec fn spec_vm_ending(w: VmWorld) -> VmEnding {
    match w.status {
        VmStatus::Running => VmEnding::Aborted(w.state.output),
        VmStatus::Halted => VmEnding::Halted(w.state.output),
        VmStatus::Faulted(f) => VmEnding::Faulted(f, w.state.output),
    }
}

/// How a run from the state `s` ends that takes what it reads from `reads`
/// in order and is cut off after `fuel` steps.
pub open spec fn spec_vm_run(
    ops: Seq<(Option<usize>, OpCode)>,
    labels: Map<Label, usize>,
    s: VmState,
    reads: Seq<NumType>,
    fuel: nat,
) -> VmEnding {
    spec_vm_ending(
        spec_vm_trace(
            ops,
            labels,
            VmWorld { state: s, status: VmStatus::Running, taken: 0 },
            reads,
            fuel,
        ),
    )
}

/// A run that has stopped stays as it stopped, however many steps follow.
pub proof fn lemma_vm_stopped(
    ops: Seq<(Option<usize>, OpCode)>,
    labels: Map<Label, usize>,
    w: VmWorld,
    reads: Seq<NumType>,
    n: nat,
    k: nat,
)
    requires
        n <= k,
        !(spec_vm_trace(ops, labels, w, reads, n).status is Running),
    ensures
        spec_vm_trace(ops, labels, w, reads, k) == spec_vm_trace(ops, labels, w, reads, n),
    decreases k,
{
    if k > n {
        lemma_vm_stopped(ops, labels, w, reads, n, (k - 1) as nat);
    }
}

/// A step that reads nothing is the same whatever the input offers.
pub proof fn lemma_vm_step_ignores_read(
    ops: Seq<(Option<usize>, OpCode)>,
    labels: Map<Label, usize>,
    s: VmState,
    r1: NumType,
    r2: NumType,
)
    requires
        spec_wants(ops, s) is None,
    ensures
        spec_vm_step(ops, labels, s, r1) == spec_vm_step(ops, labels, s, r2),
{
    let counted = spec_counted(s);
    assert(counted.stack == s.stack);
}

/// The number of values read never falls.
pub proof fn lemma_vm_taken_grows(
    ops: Seq<(Option<usize>, OpCode)>,
    labels: Map<Label, usize>,
    w: VmWorld,
    reads: Seq<NumType>,
    n: nat,
    k: nat,
)
    requires
        n <= k,
    ensures
        spec_vm_trace(ops, labels, w, reads, n).taken <= spec_vm_trace(
            ops,
            labels,
            w,
            reads,
            k,
        ).taken,
    decreases k,
{
    if k > n {
        lemma_vm_taken_grows(ops, labels, w, reads, n, (k - 1) as nat);
    }
}

/// A run depends only on the values that it reads: two inputs that agree
/// on as many values as the run reads give the same run.
pub proof fn lemma_vm_trace_prefix(
    ops: Seq<(Option<usize>, OpCode)>,
    labels: Map<Label, usize>,
    w: VmWorld,
    r1: Seq<NumType>,
    r2: Seq<NumType>,
    n: nat,
)
    requires
        r1.len() <= r2.len(),
        forall|k: int| 0 <= k < r1.len() ==> r1[k] == r2[k],
        spec_vm_trace(ops, labels, w, r1, n).taken <= r1.len(),
    ensures
        spec_vm_trace(ops, labels, w, r2, n) == spec_vm_trace(ops, labels, w, r1, n),
    decreases n,
{
    if n > 0 {
        let prev = spec_vm_trace(ops, labels, w, r1, (n - 1) as nat);
        lemma_vm_taken_grows(ops, labels, w, r1, (n - 1) as nat, n);
        lemma_vm_trace_prefix(ops, labels, w, r1, r2, (n - 1) as nat);
        if prev.status is Running {
            if spec_wants(ops, prev.state) is Some {
                assert(spec_read(r1, prev.taken) == spec_read(r2, prev.taken));
            } else {
                lemma_vm_step_ignores_read(
                    ops,
                    labels,
                    prev.state,
                    spec_read(r1, prev.taken),
                    spec_read(r2, prev.taken),
                );
            }
        }
    }
}

/// How a run ended, with all that it printed.
#[derive(Debug)]
pub enum VmOutcome {
    /// The program ended the run.
    Halted(String),
    /// The run stopped on a fault.
    Faulted(VmFault, String),
    /// The run was cut off after the steps it was allowed.
    Aborted(String),
}

impl View for VmOutcome {
    type V = VmEnding;

    open spec fn view(&self) -> VmEnding {
        match self {
            VmOutcome::Halted(s) => VmEnding::Halted(s@),
            VmOutcome::Faulted(f, s) => VmEnding::Faulted(*f, s@),
            VmOutcome::Aborted(s) => VmEnding::Aborted(s@),
        }
    }
}

impl VmOutcome {
    /// All that the run printed, however it ended.
    pub fn output(self) -> (s: String)
        ensures
            s@ == match self@ {
                VmEnding::Halted(o) => o,
                VmEnding::Faulted(_, o) => o,
                VmEnding::Aborted(o) => o,
            },
    {
        match self {
            VmOutcome::Halted(s) => s,
            VmOutcome::Faulted(_, s) => s,
            VmOutcome::Aborted(s) => s,
        }
    }
}

/// The machine with the program it runs.
#[derive(Debug)]
pub struct Interpreter<'a> {
    program: &'a Program,
    stack: Vec<MemoryVal>,
    heap: HashMap<usize, MemoryVal>,
    call_stack: Vec<(Label, usize)>,
    ip: usize,
    iteration: usize,
    output: String,
}

impl<'a> View for Interpreter<'a> {
    type V = VmState;

    closed spec fn view(&self) -> VmState {
        VmState {
            stack: self.stack@,
            heap: self.heap@,
            calls: self.call_stack@,
            ip: self.ip,
            iteration: self.iteration,
            output: self.output@,
        }
    }
}

/// The result of an operation of arithmetic on the upper value `a` and the
/// lower value `b`.
pub fn arithmetic(op: ArithmeticOp, a: NumType, b: NumType) -> (r: Result<NumType, VmFault>)
    ensures
        r == spec_arithmetic(op, a, b),
{
    let done = match op {
        ArithmeticOp::Add => a.checked_add(b),
        ArithmeticOp::Subtract => b.checked_sub(a),
        ArithmeticOp::Multiply => a.checked_mul(b),
        ArithmeticOp::Divide => {
            if b == 0 {
                return Err(VmFault::DivisionByZero);
            }
            a.checked_div(b)
        },
        ArithmeticOp::Modulo => {
            if b == 0 {
                return Err(VmFault::DivisionByZero);
            }
            if b == -1 {
                return Ok(0);
            }
            a.checked_rem(b)
        },
    };
    match done {
        Some(v) => Ok(v),
        None => Err(VmFault::Overflow),
    }
}

impl<'a> Interpreter<'a> {
    /// The instructions of the program, each with its place.
    pub closed spec fn ops(&self) -> Seq<(Option<usize>, OpCode)> {
        self.program.spec_ops()
    }

    /// The places that the program's labels name.
    pub closed spec fn labels(&self) -> Map<Label, usize> {
        self.program.spec_label_places()
    }

    /// The machine at the beginning of a run of `program`.
    #[must_use]
    pub fn new(program: &'a Program) -> (r: Self)
        ensures
            r@ == VmState::initial(),
            r.ops() == program.spec_ops(),
            r.labels() == program.spec_label_places(),
    {
        Self {
            program,
            stack: Vec::new(),
            heap: HashMap::new(),
            ip: 0,
            call_stack: Vec::new(),
            iteration: 0,
            output: String::new(),
        }
    }

    /// The text printed so far.
    pub fn output(&self) -> (r: &String)
        ensures
            r@ == self@.output,
    {
        &self.output
    }

    /// The stack, from the bottom up.
    pub fn stack(&self) -> (r: &Vec<MemoryVal>)
        ensures
            r@ == self@.stack,
    {
        &self.stack
    }

    /// The value stored at `address`, if one was stored.
    pub fn heap_value(&self, address: usize) -> (r: Option<MemoryVal>)
        ensures
            r == if self@.heap.contains_key(address) {
                Some(self@.heap[address])
            } else {
                None
            },
    {
        match self.heap.get(&address) {
            Some(v) => Some(*v),
            None => None,
        }
    }

    /// The place of the next instruction.
    pub fn position(&self) -> (r: usize)
        ensures
            r == self@.ip,
    {
        self.ip
    }

    /// The number of steps taken.
    pub fn iteration(&self) -> (r: usize)
        ensures
            r == self@.iteration,
    {
        self.iteration
    }

    /// The instruction at the current place, where there is one.
    pub fn current_instruction(&self) -> (r: Option<OpCode>)
        ensures
            r == spec_find(self.ops(), self@.ip),
    {
        let ops = self.program.ops();
        let mut k: usize = 0;
        while k < ops.len()
            invariant
                k <= ops@.len(),
                ops@ == self.ops(),
                spec_find(ops@, self.ip) == spec_find_from(ops@, self.ip, k as int),
            decreases ops@.len() - k,
        {
            let entry = &ops[k];
            match entry.0 {
                Some(place) => {
                    if place == self.ip {
                        return Some(entry.1);
                    }
                },
                None => {},
            }
            k = k + 1;
        }
        None
    }

    /// What the next step reads from the input, if it reads.
    pub fn wants(&self) -> (r: Option<ReadKind>)
        ensures
            r == spec_wants(self.ops(), self@),
    {
        let len = self.stack.len();
        match self.current_instruction() {
            Some(OpCode::IO(IoOp::ReadChar)) => {
                if len >= 1 && self.stack[len - 1].0 >= 0 {
                    Some(ReadKind::Char)
                } else {
                    None
                }
            },
            Some(OpCode::IO(IoOp::ReadNum)) => {
                if len < 1 || self.stack[len - 1].0 >= 0 {
                    Some(ReadKind::Num)
                } else {
                    None
                }
            },
            _ => None,
        }
    }

    /// Goes to the place that `label` names.
    fn jump(&mut self, label: &Label) -> (r: Result<(), VmFault>)
        ensures
            final(self).ops() == old(self).ops(),
            final(self).labels() == old(self).labels(),
            match r {
                Ok(_) => spec_jump(old(self).labels(), old(self)@, *label) == Ok::<
                    VmState,
                    VmFault,
                >(final(self)@),
                Err(f) => spec_jump(old(self).labels(), old(self)@, *label) == Err::<
                    VmState,
                    VmFault,
                >(f) && final(self)@ == old(self)@,
            },
    {
        match self.program.labels().get(label) {
            Some(target) => {
                self.ip = target;
                Ok(())
            },
            None => Err(VmFault::UnknownLabel),
        }
    }

    /// Puts the next instruction in line.
    fn advance(&mut self)
        ensures
            final(self).ops() == old(self).ops(),
            final(self).labels() == old(self).labels(),
            final(self)@ == (VmState { ip: spec_next(old(self)@.ip), ..old(self)@ }),
    {
        if self.ip < usize::MAX {
            self.ip = self.ip + 1;
        }
    }

    /// Does the instruction `op`. On a fault the state stays as it was.
    fn effect(&mut self, op: OpCode, read: NumType) -> (r: Result<(), VmFault>)
        ensures
            final(self).ops() == old(self).ops(),
            final(self).labels() == old(self).labels(),
            match r {
                Ok(_) => spec_effect(old(self).labels(), old(self)@, op, read) == Ok::<
                    VmState,
                    VmFault,
                >(final(self)@),
                Err(f) => spec_effect(old(self).labels(), old(self)@, op, read) == Err::<
                    VmState,
                    VmFault,
                >(f) && final(self)@ == old(self)@,
            },
    {
        let len = self.stack.len();
        let ghost s = self@;
        match op {
            OpCode::IO(IoOp::ReadChar) => {
                if len < 1 {
                    return Err(VmFault::EmptyStack);
                }
                let address = self.stack[len - 1].0;
                if address < 0 {
                    return Err(VmFault::NegativeAddress);
                }
                self.stack.truncate(len - 1);
                self.heap.insert(address as usize, MemoryVal(read));
                self.advance();
            },
            OpCode::IO(IoOp::ReadNum) => {
                if len < 1 {
                    self.stack.push(MemoryVal(read));
                } else {
                    let address = self.stack[len - 1].0;
                    if address < 0 {
                        return Err(VmFault::NegativeAddress);
                    }
                    self.stack.truncate(len - 1);
                    self.heap.insert(address as usize, MemoryVal(read));
                }
                self.advance();
            },
            OpCode::IO(IoOp::PrintChar) => {
                if len < 1 {
                    return Err(VmFault::EmptyStack);
                }
                match self.stack[len - 1].as_char() {
                    Some(c) => {
                        self.stack.truncate(len - 1);
                        self.output.push(c);
                        self.advance();
                    },
                    None => {
                        return Err(VmFault::NotACharacter);
                    },
                }
            },
            OpCode::IO(IoOp::PrintNum) => {
                if len < 1 {
                    return Err(VmFault::EmptyStack);
                }
                let n = self.stack[len - 1].0;
                self.stack.truncate(len - 1);
                push_signed_decimal(&mut self.output, n as i64);
                self.advance();
            },
            OpCode::Stack(StackOp::Push(n)) => {
                self.stack.push(MemoryVal(n.0));
                self.advance();
            },
            OpCode::Stack(StackOp::Duplicate) => {
                if len < 1 {
                    return Err(VmFault::EmptyStack);
                }
                let n = self.stack[len - 1];
                self.stack.push(n);
                self.advance();
            },
            OpCode::Stack(StackOp::Copy(n)) => {
                if n.0 < 0 || n.0 as usize >= len {
                    return Err(VmFault::CopyOutOfRange);
                }
                let val = self.stack[len - 1 - n.0 as usize];
                self.stack.push(val);
                self.advance();
            },
            OpCode::Stack(StackOp::Swap) => {
                if len < 2 {
                    return Err(VmFault::EmptyStack);
                }
                let n1 = self.stack[len - 1];
                let n2 = self.stack[len - 2];
                self.stack.truncate(len - 2);
                self.stack.push(n1);
                self.stack.push(n2);
                self.advance();
            },
            OpCode::Stack(StackOp::Discard) => {
                if len >= 1 {
                    self.stack.truncate(len - 1);
                }
                self.advance();
            },
            OpCode::Stack(StackOp::Slide(n)) => {
                if len < 1 || n.0 < 0 || n.0 as usize > len - 1 {
                    return Err(VmFault::EmptyStack);
                }
                let top = self.stack[len - 1];
                self.stack.truncate(len - 1 - n.0 as usize);
                self.stack.push(top);
                self.advance();
            },
            OpCode::Arithmetic(a) => {
                if len < 2 {
                    return Err(VmFault::EmptyStack);
                }
                match arithmetic(a, self.stack[len - 1].0, self.stack[len - 2].0) {
                    Ok(v) => {
                        self.stack.truncate(len - 2);
                        self.stack.push(MemoryVal(v));
                        self.advance();
                    },
                    Err(f) => {
                        return Err(f);
                    },
                }
            },
            OpCode::FlowControl(FlowControlOp::Label(_)) => {
                self.advance();
            },
            OpCode::FlowControl(FlowControlOp::Call(l)) => {
                match self.program.labels().get(&l) {
                    Some(target) => {
                        let back = if self.ip < usize::MAX {
                            self.ip + 1
                        } else {
                            self.ip
                        };
                        self.call_stack.push((l, back));
                        self.ip = target;
                    },
                    None => {
                        return Err(VmFault::UnknownLabel);
                    },
                }
            },
            OpCode::FlowControl(FlowControlOp::Jump(l)) => {
                return self.jump(&l);
            },
            OpCode::FlowControl(FlowControlOp::JumpIfZero(l)) => {
                if len < 1 {
                    return Err(VmFault::EmptyStack);
                }
                if self.stack[len - 1].0 == 0 {
                    match self.program.labels().get(&l) {
                        Some(target) => {
                            self.stack.truncate(len - 1);
                            self.ip = target;
                        },
                        None => {
                            return Err(VmFault::UnknownLabel);
                        },
                    }
                } else {
                    self.stack.truncate(len - 1);
                    self.advance();
                }
            },
            OpCode::FlowControl(FlowControlOp::JumpIfNegative(l)) => {
                if len < 1 {
                    return Err(VmFault::EmptyStack);
                }
                if self.stack[len - 1].0 < 0 {
                    match self.program.labels().get(&l) {
                        Some(target) => {
                            self.stack.truncate(len - 1);
                            self.ip = target;
                        },
                        None => {
                            return Err(VmFault::UnknownLabel);
                        },
                    }
                } else {
                    self.stack.truncate(len - 1);
                    self.advance();
                }
            },
            OpCode::FlowControl(FlowControlOp::Return) => {
                let depth = self.call_stack.len();
                if depth < 1 {
                    return Err(VmFault::EmptyCallStack);
                }
                let back = self.call_stack[depth - 1].1;
                self.call_stack.truncate(depth - 1);
                self.ip = back;
            },
            OpCode::FlowControl(FlowControlOp::Exit) => {},
            OpCode::HeapAccess(HeapAccessOp::Store) => {
                if len < 2 {
                    return Err(VmFault::EmptyStack);
                }
                let val = self.stack[len - 1];
                let addr = self.stack[len - 2].0;
                if addr < 0 {
                    return Err(VmFault::NegativeAddress);
                }
                self.stack.truncate(len - 2);
                self.heap.insert(addr as usize, val);
                self.advance();
            },
            OpCode::HeapAccess(HeapAccessOp::Load) => {
                if len < 1 {
                    return Err(VmFault::EmptyStack);
                }
                let addr = self.stack[len - 1].0;
                if addr < 0 {
                    return Err(VmFault::NegativeAddress);
                }
                let val = match self.heap.get(&(addr as usize)) {
                    Some(v) => *v,
                    None => {
                        return Err(VmFault::UnsetAddress);
                    },
                };
                self.stack.truncate(len - 1);
                self.stack.push(val);
                self.advance();
            },
        }
        Ok(())
    }

    /// One step of the machine. `read` is what the input gives where the
    /// instruction reads; it is not looked at where the instruction does not.
    pub fn step(&mut self, read: NumType) -> (status: VmStatus)
        ensures
            final(self).ops() == old(self).ops(),
            final(self).labels() == old(self).labels(),
            final(self)@ == spec_vm_step(old(self).ops(), old(self).labels(), old(self)@, read).state,
            status == spec_vm_step(old(self).ops(), old(self).labels(), old(self)@, read).status,
    {
        let instruction = self.current_instruction();
        if self.iteration < usize::MAX {
            self.iteration = self.iteration + 1;
        }
        match instruction {
            None => VmStatus::Faulted(VmFault::NoInstruction),
            Some(OpCode::FlowControl(FlowControlOp::Exit)) => VmStatus::Halted,
            Some(op) => match self.effect(op, read) {
                Ok(_) => VmStatus::Running,
                Err(f) => VmStatus::Faulted(f),
            },
        }
    }

    /// Runs the program for `max_steps` steps at most, taking what it reads
    /// from `reads` in order, and zero once `reads` has run out. A character
    /// is read as its code.
    pub fn execute_scripted(self, reads: &Vec<NumType>, max_steps: usize) -> (r: VmOutcome)
        ensures
            r@ == spec_vm_run(self.ops(), self.labels(), self@, reads@, max_steps as nat),
    {
        let ghost ops = self.ops();
        let ghost labels = self.labels();
        let ghost start = VmWorld { state: self@, status: VmStatus::Running, taken: 0 };
        let mut machine = self;
        let mut status = VmStatus::Running;
        let mut steps: usize = 0;
        let mut taken: usize = 0;
        while steps < max_steps && status == VmStatus::Running
            invariant
                steps <= max_steps,
                machine.ops() == ops,
                machine.labels() == labels,
                taken <= reads@.len(),
                (VmWorld {
                    state: machine@,
                    status,
                    taken: spec_vm_trace(ops, labels, start, reads@, steps as nat).taken,
                }) == spec_vm_trace(ops, labels, start, reads@, steps as nat),
                taken == if spec_vm_trace(ops, labels, start, reads@, steps as nat).taken
                    < reads@.len() {
                    spec_vm_trace(ops, labels, start, reads@, steps as nat).taken
                } else {
                    reads@.len()
                },
            decreases max_steps - steps,
        {
            let read = if taken < reads.len() {
                reads[taken]
            } else {
                0
            };
            if taken < reads.len() && machine.wants().is_some() {
                taken = taken + 1;
            }
            status = machine.step(read);
            steps = steps + 1;
        }
        proof {
            if steps < max_steps {
                lemma_vm_stopped(ops, labels, start, reads@, steps as nat, max_steps as nat);
            }
        }
        machine.finish(status)
    }

    /// Runs the program for `max_steps` steps at most, taking what it reads
    /// from `input`. The run ends as the run ends that reads some sequence
    /// of values.
    pub fn execute<R: Readable>(self, input: &mut R, max_steps: usize) -> (r: VmOutcome)
        ensures
            exists|reads: Seq<NumType>|
                r@ == #[trigger] spec_vm_run(
                    self.ops(),
                    self.labels(),
                    self@,
                    reads,
                    max_steps as nat,
                ),
    {
        let ghost ops = self.ops();
        let ghost labels = self.labels();
        let ghost start = VmWorld { state: self@, status: VmStatus::Running, taken: 0 };
        let ghost mut reads: Seq<NumType> = Seq::empty();
        let mut machine = self;
        let mut status = VmStatus::Running;
        let mut steps: usize = 0;
        while steps < max_steps && status == VmStatus::Running
            invariant
                steps <= max_steps,
                machine.ops() == ops,
                machine.labels() == labels,
                (VmWorld { state: machine@, status, taken: reads.len() }) == spec_vm_trace(
                    ops,
                    labels,
                    start,
                    reads,
                    steps as nat,
                ),
            decreases max_steps - steps,
        {
            let ghost before = reads;
            let read = match machine.wants() {
                Some(ReadKind::Char) => MemoryVal::from(input.read_char()).0,
                Some(ReadKind::Num) => input.read_num(),
                None => 0,
            };
            proof {
                if spec_wants(ops, machine@) is Some {
                    reads = reads.push(read);
                }
                lemma_vm_trace_prefix(ops, labels, start, before, reads, steps as nat);
                if spec_wants(ops, machine@) is None {
                    lemma_vm_step_ignores_read(
                        ops,
                        labels,
                        machine@,
                        read,
                        spec_read(reads, before.len()),
                    );
                }
            }
            status = machine.step(read);
            steps = steps + 1;
        }
        proof {
            if steps < max_steps {
                lemma_vm_stopped(ops, labels, start, reads, steps as nat, max_steps as nat);
            }
        }
        let r = machine.finish(status);
        proof {
            assert(r@ == spec_vm_run(ops, labels, self@, reads, max_steps as nat));
        }
        r
    }

    /// The outcome of a run that stands at `status`.
    fn finish(self, status: VmStatus) -> (r: VmOutcome)
        ensures
            r@ == spec_vm_ending(VmWorld { state: self@, status, taken: 0 }),
    {
        match status {
            VmStatus::Running => VmOutcome::Aborted(self.output),
            VmStatus::Halted => VmOutcome::Halted(self.output),
            VmStatus::Faulted(fault) => VmOutcome::Faulted(fault, self.output),
        }
    }
}

} // verus!
