use esolangs::whitespace::input::TextInput;
use esolangs::whitespace::interpreter::{
    arithmetic, Interpreter, MemoryVal, ReadKind, Readable, VmFault, VmOutcome, VmStatus,
};
use esolangs::whitespace::parse::parse;
use esolangs::whitespace::program::Program;
use esolangs::whitespace::to_invisible;
use esolangs::whitespace::tokens::{
    ArithmeticOp, FlowControlOp, HeapAccessOp, IoOp, Label, Num, NumType, OpCode, StackOp,
};

const STEPS: usize = 100_000;

struct Lines {
    chars: Vec<char>,
    nums: Vec<NumType>,
}

impl Readable for Lines {
    fn read_char(&mut self) -> char {
        if self.chars.is_empty() {
            '\0'
        } else {
            self.chars.remove(0)
        }
    }

    fn read_num(&mut self) -> NumType {
        if self.nums.is_empty() {
            0
        } else {
            self.nums.remove(0)
        }
    }
}

fn push(n: NumType) -> OpCode {
    OpCode::Stack(StackOp::Push(Num(n)))
}

fn label(text: &str) -> Label {
    Label::from_text(text).unwrap()
}

const EXIT: OpCode = OpCode::FlowControl(FlowControlOp::Exit);
const PRINT_NUM: OpCode = OpCode::IO(IoOp::PrintNum);
const PRINT_CHAR: OpCode = OpCode::IO(IoOp::PrintChar);

fn run(ops: &[OpCode], reads: Vec<NumType>) -> VmOutcome {
    let program = Program::new(ops);
    Interpreter::new(&program).execute_scripted(&reads, STEPS)
}

fn halted(ops: &[OpCode]) -> String {
    match run(ops, vec![]) {
        VmOutcome::Halted(out) => out,
        other => panic!("{:?}", other),
    }
}

fn fault(ops: &[OpCode]) -> VmFault {
    match run(ops, vec![]) {
        VmOutcome::Faulted(f, _) => f,
        other => panic!("{:?}", other),
    }
}

const TRUTH_MACHINE: &str =
    "SSSSL SLS TLTT TTT LTSTL LSSSL SSSTL TLST LSLSL LSSTL SSSSL TLST LLL";

#[test]
fn hello_world_is_printed() {
    let mut src = String::new();
    for c in "Hello World!".chars() {
        src.push_str("   ");
        for bit in format!("{:b}", c as u32).chars() {
            src.push(if bit == '1' { '\t' } else { ' ' });
        }
        src.push_str("\n\t\n  ");
    }
    src.push_str("\n\n\n");
    let program = parse(&src).unwrap();
    let outcome = Interpreter::new(&program).execute_scripted(&vec![], STEPS);
    assert!(matches!(outcome, VmOutcome::Halted(ref s) if s == "Hello World!"));
    assert_eq!(outcome.output(), "Hello World!");
}

#[test]
fn truth_machine_prints_zero_once_and_one_for_ever() {
    let program = parse(&to_invisible(TRUTH_MACHINE)).unwrap();
    let outcome = Interpreter::new(&program).execute_scripted(&vec![0], STEPS);
    assert!(matches!(outcome, VmOutcome::Halted(ref s) if s == "0"));
    let outcome = Interpreter::new(&program).execute_scripted(&vec![1], 5 + 3 * 4);
    assert!(matches!(outcome, VmOutcome::Aborted(ref s) if s == "1111"));
    let mut input = Lines { chars: vec![], nums: vec![0] };
    let outcome = Interpreter::new(&program).execute(&mut input, STEPS);
    assert!(matches!(outcome, VmOutcome::Halted(ref s) if s == "0"));
    let mut input = Lines { chars: vec![], nums: vec![7] };
    let outcome = Interpreter::new(&program).execute(&mut input, 8);
    assert!(matches!(outcome, VmOutcome::Aborted(ref s) if s == "1"));
    assert!(input.nums.is_empty());
}

#[test]
fn arithmetic_takes_the_upper_value_first() {
    assert_eq!(halted(&[push(7), push(3), OpCode::Arithmetic(ArithmeticOp::Add), PRINT_NUM, EXIT]), "10");
    assert_eq!(halted(&[push(7), push(3), OpCode::Arithmetic(ArithmeticOp::Subtract), PRINT_NUM, EXIT]), "4");
    assert_eq!(halted(&[push(7), push(3), OpCode::Arithmetic(ArithmeticOp::Multiply), PRINT_NUM, EXIT]), "21");
    assert_eq!(halted(&[push(3), push(7), OpCode::Arithmetic(ArithmeticOp::Divide), PRINT_NUM, EXIT]), "2");
    assert_eq!(halted(&[push(3), push(7), OpCode::Arithmetic(ArithmeticOp::Modulo), PRINT_NUM, EXIT]), "1");
    assert_eq!(halted(&[push(3), push(-7), OpCode::Arithmetic(ArithmeticOp::Divide), PRINT_NUM, EXIT]), "-2");
    assert_eq!(halted(&[push(3), push(-7), OpCode::Arithmetic(ArithmeticOp::Modulo), PRINT_NUM, EXIT]), "-1");
    assert_eq!(halted(&[push(-3), push(7), OpCode::Arithmetic(ArithmeticOp::Modulo), PRINT_NUM, EXIT]), "1");
    assert_eq!(arithmetic(ArithmeticOp::Add, 2, 3), Ok(5));
    assert_eq!(arithmetic(ArithmeticOp::Subtract, 2, 3), Ok(1));
    assert_eq!(arithmetic(ArithmeticOp::Multiply, -2, 3), Ok(-6));
    assert_eq!(arithmetic(ArithmeticOp::Divide, 7, 2), Ok(3));
    assert_eq!(arithmetic(ArithmeticOp::Divide, -7, 2), Ok(-3));
    assert_eq!(arithmetic(ArithmeticOp::Modulo, -7, 2), Ok(-1));
    assert_eq!(arithmetic(ArithmeticOp::Modulo, 7, -2), Ok(1));
    assert_eq!(arithmetic(ArithmeticOp::Modulo, NumType::MIN, -1), Ok(0));
    assert_eq!(arithmetic(ArithmeticOp::Divide, 1, 0), Err(VmFault::DivisionByZero));
    assert_eq!(arithmetic(ArithmeticOp::Modulo, 1, 0), Err(VmFault::DivisionByZero));
    assert_eq!(arithmetic(ArithmeticOp::Divide, NumType::MIN, -1), Err(VmFault::Overflow));
    assert_eq!(arithmetic(ArithmeticOp::Add, NumType::MAX, 1), Err(VmFault::Overflow));
    assert_eq!(arithmetic(ArithmeticOp::Subtract, 1, NumType::MIN), Err(VmFault::Overflow));
    assert_eq!(arithmetic(ArithmeticOp::Multiply, NumType::MAX, 2), Err(VmFault::Overflow));
}

#[test]
fn stack_instructions() {
    let dup = OpCode::Stack(StackOp::Duplicate);
    let swap = OpCode::Stack(StackOp::Swap);
    let discard = OpCode::Stack(StackOp::Discard);
    assert_eq!(halted(&[push(4), dup, PRINT_NUM, PRINT_NUM, EXIT]), "44");
    assert_eq!(halted(&[push(1), push(2), swap, PRINT_NUM, PRINT_NUM, EXIT]), "12");
    assert_eq!(halted(&[push(1), push(2), discard, PRINT_NUM, EXIT]), "1");
    assert_eq!(halted(&[discard, push(5), PRINT_NUM, EXIT]), "5");
    let copy = |n| OpCode::Stack(StackOp::Copy(Num(n)));
    assert_eq!(halted(&[push(1), push(2), push(3), copy(0), PRINT_NUM, EXIT]), "3");
    assert_eq!(halted(&[push(1), push(2), push(3), copy(2), PRINT_NUM, EXIT]), "1");
    assert_eq!(fault(&[push(1), copy(1), EXIT]), VmFault::CopyOutOfRange);
    assert_eq!(fault(&[push(1), copy(-1), EXIT]), VmFault::CopyOutOfRange);
    let slide = |n| OpCode::Stack(StackOp::Slide(Num(n)));
    assert_eq!(
        halted(&[push(1), push(2), push(3), push(4), slide(2), PRINT_NUM, PRINT_NUM, EXIT]),
        "41"
    );
    assert_eq!(halted(&[push(1), push(2), slide(0), PRINT_NUM, PRINT_NUM, EXIT]), "21");
    assert_eq!(fault(&[push(1), push(2), slide(2), EXIT]), VmFault::EmptyStack);
    assert_eq!(fault(&[push(1), slide(-1), EXIT]), VmFault::EmptyStack);
    assert_eq!(fault(&[slide(0), EXIT]), VmFault::EmptyStack);
    assert_eq!(fault(&[dup, EXIT]), VmFault::EmptyStack);
    assert_eq!(fault(&[push(1), swap, EXIT]), VmFault::EmptyStack);
    assert_eq!(fault(&[push(1), OpCode::Arithmetic(ArithmeticOp::Add), EXIT]), VmFault::EmptyStack);
    assert_eq!(fault(&[PRINT_NUM, EXIT]), VmFault::EmptyStack);
    assert_eq!(fault(&[PRINT_CHAR, EXIT]), VmFault::EmptyStack);
}

#[test]
fn printing() {
    assert_eq!(halted(&[push(65), PRINT_CHAR, push(-12), PRINT_NUM, EXIT]), "A-12");
    assert_eq!(halted(&[push(255), PRINT_CHAR, EXIT]), "\u{ff}");
    assert_eq!(halted(&[push(0), PRINT_CHAR, EXIT]), "\0");
    assert_eq!(fault(&[push(256), PRINT_CHAR, EXIT]), VmFault::NotACharacter);
    assert_eq!(fault(&[push(-1), PRINT_CHAR, EXIT]), VmFault::NotACharacter);
    assert_eq!(MemoryVal(65).as_char(), Some('A'));
    assert_eq!(MemoryVal(256).as_char(), None);
    assert_eq!(MemoryVal::from('A'), MemoryVal(65));
    assert_eq!(MemoryVal::from('\u{141}'), MemoryVal(0x41));
    assert_eq!(MemoryVal::from(7isize), MemoryVal(7));
    assert_eq!(MemoryVal::from(Num(-7)), MemoryVal(-7));
    match run(&[push(1), PRINT_NUM, push(0), push(1), OpCode::Arithmetic(ArithmeticOp::Divide), EXIT], vec![]) {
        VmOutcome::Faulted(VmFault::DivisionByZero, out) => assert_eq!(out, "1"),
        other => panic!("{:?}", other),
    }
}

#[test]
fn heap_instructions() {
    let store = OpCode::HeapAccess(HeapAccessOp::Store);
    let load = OpCode::HeapAccess(HeapAccessOp::Load);
    assert_eq!(halted(&[push(3), push(42), store, push(3), load, PRINT_NUM, EXIT]), "42");
    assert_eq!(
        halted(&[push(3), push(1), store, push(3), push(2), store, push(3), load, PRINT_NUM, EXIT]),
        "2"
    );
    assert_eq!(fault(&[push(3), load, EXIT]), VmFault::UnsetAddress);
    assert_eq!(fault(&[push(-3), load, EXIT]), VmFault::NegativeAddress);
    assert_eq!(fault(&[push(-3), push(1), store, EXIT]), VmFault::NegativeAddress);
    assert_eq!(fault(&[push(1), store, EXIT]), VmFault::EmptyStack);
    assert_eq!(fault(&[load, EXIT]), VmFault::EmptyStack);
}

#[test]
fn reading() {
    let read_char = OpCode::IO(IoOp::ReadChar);
    let read_num = OpCode::IO(IoOp::ReadNum);
    let load = OpCode::HeapAccess(HeapAccessOp::Load);
    let ops = [push(0), read_char, push(1), read_num, push(0), load, PRINT_CHAR, push(1), load, PRINT_NUM, EXIT];
    assert!(matches!(run(&ops, vec![97, -5]), VmOutcome::Halted(ref s) if s == "a-5"));
    assert!(matches!(run(&ops, vec![97]), VmOutcome::Halted(ref s) if s == "a0"));
    let program = Program::new(&ops);
    let mut input = Lines { chars: vec!['\u{141}', 'x'], nums: vec![12, 13] };
    let outcome = Interpreter::new(&program).execute(&mut input, STEPS);
    assert!(matches!(outcome, VmOutcome::Halted(ref s) if s == "A12"));
    assert_eq!(input.chars, vec!['x']);
    assert_eq!(input.nums, vec![13]);
    assert!(matches!(run(&[read_num, PRINT_NUM, EXIT], vec![9]), VmOutcome::Halted(ref s) if s == "9"));
    assert_eq!(fault(&[read_char, EXIT]), VmFault::EmptyStack);
    assert_eq!(fault(&[push(-1), read_char, EXIT]), VmFault::NegativeAddress);
    assert_eq!(fault(&[push(-1), read_num, EXIT]), VmFault::NegativeAddress);
    let program = Program::new(&[push(-1), read_num, EXIT]);
    let mut input = Lines { chars: vec![], nums: vec![5] };
    let outcome = Interpreter::new(&program).execute(&mut input, STEPS);
    assert!(matches!(outcome, VmOutcome::Faulted(VmFault::NegativeAddress, _)));
    assert_eq!(input.nums, vec![5]);
}

#[test]
fn flow_of_control() {
    let mark = |l: &str| OpCode::FlowControl(FlowControlOp::Label(label(l)));
    let call = |l: &str| OpCode::FlowControl(FlowControlOp::Call(label(l)));
    let jump = |l: &str| OpCode::FlowControl(FlowControlOp::Jump(label(l)));
    let jump_zero = |l: &str| OpCode::FlowControl(FlowControlOp::JumpIfZero(label(l)));
    let jump_negative = |l: &str| OpCode::FlowControl(FlowControlOp::JumpIfNegative(label(l)));
    let ret = OpCode::FlowControl(FlowControlOp::Return);
    assert_eq!(halted(&[jump(" "), push(1), PRINT_NUM, mark(" "), push(2), PRINT_NUM, EXIT]), "2");
    assert_eq!(
        halted(&[call(" "), push(1), PRINT_NUM, EXIT, mark(" "), push(2), PRINT_NUM, ret]),
        "21"
    );
    assert_eq!(
        halted(&[push(0), jump_zero(" "), push(1), PRINT_NUM, mark(" "), push(2), PRINT_NUM, EXIT]),
        "2"
    );
    assert_eq!(
        halted(&[push(5), jump_zero(" "), push(1), PRINT_NUM, mark(" "), push(2), PRINT_NUM, EXIT]),
        "12"
    );
    assert_eq!(
        halted(&[push(-5), jump_negative(" "), push(1), PRINT_NUM, mark(" "), push(2), PRINT_NUM, EXIT]),
        "2"
    );
    assert_eq!(
        halted(&[push(0), jump_negative(" "), push(1), PRINT_NUM, mark(" "), push(2), PRINT_NUM, EXIT]),
        "12"
    );
    let down = [
        push(3),
        mark(" "),
        OpCode::Stack(StackOp::Duplicate),
        PRINT_NUM,
        push(1),
        OpCode::Arithmetic(ArithmeticOp::Add),
        push(-1),
        OpCode::Arithmetic(ArithmeticOp::Multiply),
        push(4),
        OpCode::Arithmetic(ArithmeticOp::Add),
        push(-1),
        OpCode::Arithmetic(ArithmeticOp::Multiply),
        EXIT,
    ];
    assert_eq!(halted(&down), "3");
    assert_eq!(fault(&[jump("\t")]), VmFault::UnknownLabel);
    assert_eq!(fault(&[call("\t")]), VmFault::UnknownLabel);
    assert_eq!(fault(&[push(0), jump_zero("\t")]), VmFault::UnknownLabel);
    assert_eq!(fault(&[push(-1), jump_negative("\t")]), VmFault::UnknownLabel);
    assert_eq!(fault(&[jump_zero(" "), mark(" ")]), VmFault::EmptyStack);
    assert_eq!(fault(&[jump_negative(" "), mark(" ")]), VmFault::EmptyStack);
    assert_eq!(fault(&[ret]), VmFault::EmptyCallStack);
    assert_eq!(fault(&[push(1)]), VmFault::NoInstruction);
    assert_eq!(fault(&[]), VmFault::NoInstruction);
    let program = Program::new(&[mark(" "), push(1), PRINT_NUM, jump(" ")]);
    let outcome = Interpreter::new(&program).execute_scripted(&vec![], 9);
    assert!(matches!(outcome, VmOutcome::Aborted(ref s) if s == "111"));
}

#[test]
fn the_machine_step_by_step() {
    let program = Program::new(&[push(2), OpCode::IO(IoOp::ReadNum), EXIT]);
    let mut machine = Interpreter::new(&program);
    assert_eq!(machine.position(), 0);
    assert_eq!(machine.iteration(), 0);
    assert_eq!(machine.current_instruction(), Some(push(2)));
    assert_eq!(machine.wants(), None);
    assert_eq!(machine.step(99), VmStatus::Running);
    assert_eq!(machine.stack(), &vec![MemoryVal(2)]);
    assert_eq!(machine.wants(), Some(ReadKind::Num));
    assert_eq!(machine.heap_value(2), None);
    assert_eq!(machine.step(99), VmStatus::Running);
    assert_eq!(machine.heap_value(2), Some(MemoryVal(99)));
    assert!(machine.stack().is_empty());
    assert_eq!(machine.position(), 2);
    assert_eq!(machine.step(0), VmStatus::Halted);
    assert_eq!(machine.iteration(), 3);
    assert_eq!(machine.output(), "");
    let program = Program::new(&[push(2), OpCode::IO(IoOp::ReadChar), EXIT]);
    let mut machine = Interpreter::new(&program);
    machine.step(0);
    assert_eq!(machine.wants(), Some(ReadKind::Char));
    let program = Program::new(&[PRINT_NUM]);
    let mut machine = Interpreter::new(&program);
    assert_eq!(machine.step(0), VmStatus::Faulted(VmFault::EmptyStack));
    assert_eq!(machine.iteration(), 1);
    assert_eq!(machine.position(), 0);
}

#[test]
fn a_text_is_read_from_the_front() {
    let mut input = TextInput::new(b"ab 42,-17x 9223372036854775808 -0 7-".to_vec());
    assert_eq!(input.remaining(), 36);
    assert_eq!(input.next_char(), 'a');
    assert_eq!(input.next_num(), 42);
    assert_eq!(input.next_char(), ',');
    assert_eq!(input.next_num(), -17);
    assert_eq!(input.next_char(), 'x');
    assert_eq!(input.next_num(), 0);
    assert_eq!(input.next_num(), 0);
    assert_eq!(input.next_num(), 7);
    assert_eq!(input.remaining(), 1);
    assert_eq!(input.next_num(), 0);
    assert_eq!(input.remaining(), 0);
    assert_eq!(input.next_char(), '\0');
    assert_eq!(input.next_num(), 0);
    let mut input = TextInput::new(b"9223372036854775807 -9223372036854775807".to_vec());
    if NumType::BITS == 64 {
        assert_eq!(input.next_num(), NumType::MAX);
        assert_eq!(input.next_num(), -NumType::MAX);
    }
    let mut input = TextInput::new(vec![0xe9, b'5']);
    assert_eq!(input.read_char(), '\u{e9}');
    assert_eq!(input.read_num(), 5);
}

#[test]
fn a_program_reads_its_text() {
    let program = parse(&to_invisible(TRUTH_MACHINE)).unwrap();
    let mut input = TextInput::new(b"  0\n".to_vec());
    let outcome = Interpreter::new(&program).execute(&mut input, STEPS);
    assert!(matches!(outcome, VmOutcome::Halted(ref s) if s == "0"));
    assert_eq!(input.remaining(), 1);
    let read_char = OpCode::IO(IoOp::ReadChar);
    let load = OpCode::HeapAccess(HeapAccessOp::Load);
    let echo = [push(0), read_char, push(0), load, PRINT_CHAR, EXIT];
    let program = Program::new(&echo);
    let mut input = TextInput::new(b"hi".to_vec());
    let outcome = Interpreter::new(&program).execute(&mut input, STEPS);
    assert!(matches!(outcome, VmOutcome::Halted(ref s) if s == "h"));
    let mut input = TextInput::new(vec![]);
    let outcome = Interpreter::new(&program).execute(&mut input, STEPS);
    assert!(matches!(outcome, VmOutcome::Halted(ref s) if s == "\0"));
}
