use esolangs::whitespace::parse::{
    arithmetic_op, flow_control_op, heap_access_op, io_op, newline_terminated, number, op_code,
    parse, program, stack_op, ParseError, ParseErrorKind,
};
use esolangs::whitespace::program::{LabelMap, Program};
use esolangs::whitespace::tokens::string::arithmetic::{ADD, DIV, MOD, MUL, SUB};
use esolangs::whitespace::tokens::string::flow_control::{
    CALL, EXIT, JUMP, JUMP_NEGATIVE, JUMP_ZERO, MARK, RETURN,
};
use esolangs::whitespace::tokens::string::heap_access::{RETRIEVE, STORE};
use esolangs::whitespace::tokens::string::imp::{ARITHMETIC, FLOW_CONTROL, HEAP_ACCESS, IO, STACK};
use esolangs::whitespace::tokens::string::io::{PRINT_CHAR, PRINT_NUM, READ_CHAR, READ_NUM};
use esolangs::whitespace::tokens::string::stack::{COPY, DISCARD, DUPLICATE, PUSH, SLIDE, SWAP};
use esolangs::whitespace::tokens::{
    push_bit_letters, ArithmeticOp, FlowControlOp, HeapAccessOp, IoOp, Label, Num, OpCode, StackOp,
    LABEL_MAX_LENGTH,
};
use esolangs::whitespace::{to_invisible, to_visible, Describe};

const EMPTY: &[u8] = b"";

fn label(text: &str) -> Label {
    Label::from_text(text).unwrap()
}

fn hello_world_source(text: &str, comments: bool) -> String {
    let mut src = String::new();
    for c in text.chars() {
        if comments {
            src.push_str("push");
        }
        src.push_str("   ");
        for bit in format!("{:b}", c as u32).chars() {
            src.push(if bit == '1' { '\t' } else { ' ' });
        }
        src.push('\n');
        if comments {
            src.push_str("print");
        }
        src.push_str("\t\n  ");
    }
    src.push_str("\n\n\n");
    src
}

fn parse_with_comments(src: &str) -> Result<Program, ParseError> {
    parse(&to_invisible(&to_visible(src)))
}

fn parse_visible(src: &str) -> Result<Program, ParseError> {
    parse(&to_invisible(src))
}

const TRUTH_MACHINE: &str =
    "SSSSL SLS TLTT TTT LTSTL LSSSL SSSTL TLST LSLSL LSSTL SSSSL TLST LLL";

fn first_ops(prog: &Program, n: usize) -> Vec<OpCode> {
    prog.ops().iter().take(n).map(|x| x.1).collect()
}

#[test]
fn nom_op_code_test() {
    let pairs = [
        (to_invisible("TLTT"), OpCode::IO(IoOp::ReadNum)),
        (to_invisible("SLL"), OpCode::Stack(StackOp::Discard)),
        (to_invisible("TSSS"), OpCode::Arithmetic(ArithmeticOp::Add)),
        (to_invisible("LLL"), OpCode::FlowControl(FlowControlOp::Exit)),
        (to_invisible("TTS"), OpCode::HeapAccess(HeapAccessOp::Store)),
    ];
    for (input, expected) in pairs {
        let op = op_code(input.as_bytes()).unwrap();
        assert_eq!(op, (EMPTY, expected));
    }
}

#[test]
fn nom_arithmetic_op_test() {
    let pairs = [
        (ADD, ArithmeticOp::Add),
        (SUB, ArithmeticOp::Subtract),
        (MUL, ArithmeticOp::Multiply),
        (DIV, ArithmeticOp::Divide),
        (MOD, ArithmeticOp::Modulo),
    ];
    for (input, expected) in pairs {
        let op = arithmetic_op(input.as_bytes()).unwrap();
        assert_eq!(op, (EMPTY, expected));
    }
}

#[test]
fn nom_stack_op_test() {
    let pairs = [
        (to_invisible("LS"), StackOp::Duplicate),
        (to_invisible("LT"), StackOp::Swap),
        (to_invisible("LL"), StackOp::Discard),
        (to_invisible("SSTSSTSSSL"), StackOp::Push(72.into())),
        (to_invisible("TSSTSSTSSSL"), StackOp::Copy(72.into())),
        (to_invisible("TLSTSSTSSSL"), StackOp::Slide(72.into())),
    ];
    for (input, expected) in pairs {
        let (remaining, op) = stack_op(input.as_bytes()).unwrap();
        assert_eq!((remaining, op), (EMPTY, expected));
    }
}

#[test]
fn nom_heap_access_op_test() {
    let pairs = [
        (to_invisible("S"), HeapAccessOp::Store),
        (to_invisible("T"), HeapAccessOp::Load),
    ];
    for (input, expected) in pairs {
        let (remaining, op) = heap_access_op(input.as_bytes()).unwrap();
        assert_eq!((remaining, op), (EMPTY, expected));
    }
}

#[test]
fn nom_flow_control_op_test() {
    let pairs = [
        (to_invisible("SSSL"), FlowControlOp::Label(label(" "))),
        (to_invisible("STSL"), FlowControlOp::Call(label(" "))),
        (to_invisible("SLSL"), FlowControlOp::Jump(label(" "))),
        (to_invisible("TSSL"), FlowControlOp::JumpIfZero(label(" "))),
        (to_invisible("TTSL"), FlowControlOp::JumpIfNegative(label(" "))),
        (to_invisible("TL"), FlowControlOp::Return),
        (to_invisible("LL"), FlowControlOp::Exit),
    ];
    for (input, expected) in pairs {
        let (remaining, op) = flow_control_op(input.as_bytes()).unwrap();
        assert_eq!((remaining, op), (EMPTY, expected));
    }
}

#[test]
fn nom_io_op_test() {
    let pairs = [
        (READ_CHAR, IoOp::ReadChar),
        (READ_NUM, IoOp::ReadNum),
        (PRINT_CHAR, IoOp::PrintChar),
        (PRINT_NUM, IoOp::PrintNum),
    ];
    for (input, expected) in pairs {
        let op = io_op(input.as_bytes()).unwrap();
        assert_eq!(op, (EMPTY, expected));
    }
}

#[test]
fn nom_numbers_test() {
    let res = number(" \t\t    \t\n".as_bytes()).unwrap();
    assert_eq!(res, (EMPTY, 97.into()));

    let num = to_invisible("STSSTSSSL");
    let res = number(num.as_bytes()).unwrap();
    assert_eq!(res, (EMPTY, 72.into()));

    let num = to_invisible("SL");
    let res = number(num.as_bytes()).unwrap();
    assert_eq!(res, (EMPTY, 0.into()));
}

#[test]
fn tokenizers_op_code_test() {
    let pairs = [
        (to_invisible("TLTT"), OpCode::IO(IoOp::ReadNum)),
        (to_invisible("SLL"), OpCode::Stack(StackOp::Discard)),
        (to_invisible("TSSS"), OpCode::Arithmetic(ArithmeticOp::Add)),
        (to_invisible("LLL"), OpCode::FlowControl(FlowControlOp::Exit)),
        (to_invisible("TTS"), OpCode::HeapAccess(HeapAccessOp::Store)),
    ];
    for (input, expected) in pairs.into_iter() {
        let op = op_code(input.as_bytes()).unwrap();
        assert_eq!(op, (EMPTY, expected));
    }
}

#[test]
fn tokenizers_arithmetic_op_test() {
    let pairs = [
        (ADD, ArithmeticOp::Add),
        (SUB, ArithmeticOp::Subtract),
        (MUL, ArithmeticOp::Multiply),
        (DIV, ArithmeticOp::Divide),
        (MOD, ArithmeticOp::Modulo),
    ];
    for (input, expected) in pairs.into_iter() {
        let op = arithmetic_op(input.as_bytes()).unwrap();
        assert_eq!(op, (EMPTY, expected));
    }
}

#[test]
fn tokenizers_stack_op_test() {
    let pairs = [
        (to_invisible("LS"), StackOp::Duplicate),
        (to_invisible("LT"), StackOp::Swap),
        (to_invisible("LL"), StackOp::Discard),
        (to_invisible("SSTSSTSSSL"), StackOp::Push(Num(72))),
        (to_invisible("TSSTSSTSSSL"), StackOp::Copy(Num(72))),
        (to_invisible("TLSTSSTSSSL"), StackOp::Slide(Num(72))),
    ];
    for (input, expected) in pairs.into_iter() {
        let (remaining, op) = stack_op(input.as_bytes()).unwrap();
        assert_eq!((remaining, op), (EMPTY, expected));
    }
}

#[test]
fn tokenizers_heap_access_op_test() {
    let pairs = [
        (to_invisible("S"), HeapAccessOp::Store),
        (to_invisible("T"), HeapAccessOp::Load),
    ];
    for (input, expected) in pairs.into_iter() {
        let (remaining, op) = heap_access_op(input.as_bytes()).unwrap();
        assert_eq!((remaining, op), (EMPTY, expected));
    }
}

#[test]
fn tokenizers_flow_control_op_test() {
    let pairs = [
        (to_invisible("SSSL"), FlowControlOp::Label(label(" "))),
        (to_invisible("STSL"), FlowControlOp::Call(label(" "))),
        (to_invisible("SLSL"), FlowControlOp::Jump(label(" "))),
        (to_invisible("TSSL"), FlowControlOp::JumpIfZero(label(" "))),
        (to_invisible("TTSL"), FlowControlOp::JumpIfNegative(label(" "))),
        (to_invisible("TL"), FlowControlOp::Return),
        (to_invisible("LL"), FlowControlOp::Exit),
    ];
    for (input, expected) in pairs.into_iter() {
        let (remaining, op) = flow_control_op(input.as_bytes()).unwrap();
        assert_eq!((remaining, op), (EMPTY, expected));
    }
}

#[test]
fn tokenizers_io_op_test() {
    let pairs = [
        (READ_CHAR, IoOp::ReadChar),
        (READ_NUM, IoOp::ReadNum),
        (PRINT_CHAR, IoOp::PrintChar),
        (PRINT_NUM, IoOp::PrintNum),
    ];
    for (input, expected) in pairs.into_iter() {
        let op = io_op(input.as_bytes()).unwrap();
        assert_eq!(op, (EMPTY, expected));
    }
}

#[test]
fn tokenizers_numbers_test() {
    let res = number(" \t\t    \t\n".as_bytes()).unwrap();
    assert_eq!((res.0, res.1.value()), (EMPTY, 97));
    let num = to_invisible("STSSTSSSL");
    let res = number(num.as_bytes()).unwrap();
    assert_eq!((res.0, res.1.value()), (EMPTY, 72));
}

#[test]
fn hello_world_cleaned() {
    let file = hello_world_source("Hello World!", false);
    let prog = parse(&file).unwrap();
    assert_eq!(prog.ops().len(), 25);
    assert_eq!(
        first_ops(&prog, 4),
        &[
            OpCode::Stack(StackOp::Push(72.into())),
            OpCode::IO(IoOp::PrintChar),
            OpCode::Stack(StackOp::Push(101.into())),
            OpCode::IO(IoOp::PrintChar),
        ]
    );
}

#[test]
fn pest_hello_world() {
    let file = hello_world_source("Hello World!", true);
    let prog = parse_with_comments(&file).unwrap();
    assert_eq!(prog.ops().len(), 25);
    assert_eq!(
        first_ops(&prog, 4),
        &[
            OpCode::Stack(StackOp::Push(72.into())),
            OpCode::IO(IoOp::PrintChar),
            OpCode::Stack(StackOp::Push(101.into())),
            OpCode::IO(IoOp::PrintChar),
        ]
    );
    let file = to_visible(&hello_world_source("Hello World!", false));
    let prog = parse_visible(&file).unwrap();
    assert_eq!(prog.ops().len(), 25);
    assert_eq!(
        first_ops(&prog, 4),
        &[
            OpCode::Stack(StackOp::Push(72.into())),
            OpCode::IO(IoOp::PrintChar),
            OpCode::Stack(StackOp::Push(101.into())),
            OpCode::IO(IoOp::PrintChar),
        ]
    );
}

#[test]
fn pest_truth_machine() {
    let prog = parse(&to_invisible(TRUTH_MACHINE)).unwrap();
    assert_eq!(prog.ops().len(), 13);
    let prog = parse_visible(TRUTH_MACHINE).unwrap();
    assert_eq!(prog.ops().len(), 13);
    let numbers: Vec<Num> = prog
        .ops()
        .iter()
        .filter_map(|(_, op)| match op {
            OpCode::Stack(StackOp::Push(n)) => Some(*n),
            _ => None,
        })
        .collect();
    assert_eq!(&[Num(0), Num(1), Num(0)], numbers.as_slice());
}

#[test]
fn text_turns_visible_and_back() {
    assert_eq!(to_visible(" \t\n"), "STL");
    assert_eq!(to_visible("a b\tc\nd"), "STL");
    assert_eq!(to_visible("STL"), "");
    assert_eq!(to_visible(""), "");
    assert_eq!(to_invisible("STL"), " \t\n");
    assert_eq!(to_invisible("stl"), " \t\n");
    assert_eq!(to_invisible("S T\tL\r\n"), " \t\n");
    assert_eq!(to_invisible("push S"), "PU H ");
    assert_eq!(to_invisible("a\u{e9}Z"), "A\u{e9}Z");
    assert_eq!(to_invisible(""), "");
    for src in ["", " ", "\t\t\n \n", "   \t\n\t\n  \n\n\n"] {
        assert_eq!(to_invisible(&to_visible(src)), src);
    }
    for src in ["", "S", "STLLTS"] {
        assert_eq!(to_visible(&to_invisible(src)), src);
    }
}

#[test]
fn numbers_are_a_sign_and_binary_digits() {
    assert_eq!(Num::from_bytes(b" \t "), Ok(Num(2)));
    assert_eq!(Num::from_bytes(b"\t\t "), Ok(Num(-2)));
    assert_eq!(Num::from_bytes(b"STS"), Ok(Num(2)));
    assert_eq!(Num::from_bytes(b"TTS"), Ok(Num(-2)));
    assert_eq!(Num::from_bytes(b"x\t"), Ok(Num(-1)));
    assert_eq!(Num::from_bytes(b" "), Ok(Num(0)));
    assert_eq!(Num::from_bytes(b"\t"), Ok(Num(0)));
    assert_eq!(Num::from_bytes(b" \tx \ty"), Ok(Num(5)));
    assert!(Num::from_bytes(b"").is_err());
    let mut largest = vec![b' '];
    largest.extend(vec![b'\t'; (isize::BITS - 1) as usize]);
    assert_eq!(Num::from_bytes(&largest), Ok(Num(isize::MAX)));
    largest[0] = b'\t';
    assert_eq!(Num::from_bytes(&largest), Ok(Num(-isize::MAX)));
    largest.push(b' ');
    assert!(Num::from_bytes(&largest).is_err());
    let mut padded = vec![b' '; 200];
    padded.push(b'\t');
    assert_eq!(Num::from_bytes(&padded), Ok(Num(1)));
    assert_eq!(Num::from_text("STSSTSSSL"), Ok(Num(72)));
    assert_eq!(Num::from_text("STL\r\n\r\n"), Ok(Num(1)));
    assert_eq!(Num::from_text("STLL\n"), Ok(Num(1)));
    assert_eq!(Num::from_text("ST\r\n"), Ok(Num(1)));
    assert_eq!(Num::from_text("ST\r"), Ok(Num(1)));
    assert!(Num::from_text("L").is_err());
    assert!(Num::from_text("").is_err());
    assert_eq!(Num::from_line(b" \t\t"), Ok(Num(3)));
    assert_eq!("STSSTSSSL".parse::<Num>(), Ok(Num(72)));
    assert!("".parse::<Num>().is_err());
    assert_eq!(Num::from(5).value(), 5);
}

#[test]
fn numbers_describe_themselves() {
    assert_eq!(Num(0).describe(), "SL");
    assert_eq!(Num(1).describe(), "STL");
    assert_eq!(Num(72).describe(), "STSSTSSSL");
    assert_eq!(Num(-1).describe(), format!("T{}L", "T".repeat(isize::BITS as usize)));
    assert_eq!(
        Num(-2).describe(),
        format!("T{}SL", "T".repeat(isize::BITS as usize - 1))
    );
    assert_eq!(Num::from_text(&Num(72).describe()), Ok(Num(72)));
    let mut s = String::from("x");
    push_bit_letters(&mut s, 5);
    assert_eq!(s, "xTST");
}

#[test]
fn labels_count_their_leading_zeroes() {
    assert_eq!(label(" "), Label { value: 0, prefixed_zeroes: 1 });
    assert_eq!(label("  \t"), Label { value: 1, prefixed_zeroes: 2 });
    assert_eq!(label("\t \t"), Label { value: -1, prefixed_zeroes: 0 });
    assert_eq!(label("SST"), Label { value: 1, prefixed_zeroes: 2 });
    assert_eq!(Label::from_bytes(&[b' '; 300]).unwrap().prefixed_zeroes, 44);
    assert!(Label::from_bytes(b"").is_err());
    assert!(Label::from_text("").is_err());
    assert_eq!(label(" ").describe(), "");
    assert_eq!(LABEL_MAX_LENGTH, 128);
}

#[test]
fn instructions_describe_themselves() {
    assert_eq!(IoOp::ReadChar.describe(), "TS (readc)");
    assert_eq!(IoOp::ReadNum.describe(), "TT (readn)");
    assert_eq!(IoOp::PrintChar.describe(), "SS (prtc)");
    assert_eq!(IoOp::PrintNum.describe(), "ST (prtn)");
    assert_eq!(StackOp::Push(Num(72)).describe(), "S STSSTSSSL push 72");
    assert_eq!(StackOp::Push(Num(-3)).to_text(), format!("{} push -3", Num(-3).describe()));
    assert_eq!(StackOp::Duplicate.describe(), "LS dup");
    assert_eq!(StackOp::Swap.describe(), "LT swap");
    assert_eq!(StackOp::Discard.describe(), "LL pop");
    assert_eq!(StackOp::Copy(Num(2)).describe(), "TS STSL copy 2");
    assert_eq!(StackOp::Slide(Num(0)).describe(), "TL SL slide 0");
    assert_eq!(ArithmeticOp::Add.describe(), "SS (add)");
    assert_eq!(ArithmeticOp::Subtract.describe(), "ST (sub)");
    assert_eq!(ArithmeticOp::Multiply.describe(), "SL (mul)");
    assert_eq!(ArithmeticOp::Divide.describe(), "TS (div)");
    assert_eq!(ArithmeticOp::Modulo.describe(), "TT (mod)");
    assert_eq!(FlowControlOp::Label(label(" ")).describe(), "SS  (label )");
    assert_eq!(FlowControlOp::Call(label(" ")).describe(), "ST  (call )");
    assert_eq!(FlowControlOp::Jump(label(" ")).describe(), "SL  (jmp )");
    assert_eq!(FlowControlOp::JumpIfZero(label(" ")).describe(), "TS  (jmpz )");
    assert_eq!(FlowControlOp::JumpIfNegative(label(" ")).describe(), "TT  (jmpn )");
    assert_eq!(FlowControlOp::Return.describe(), "TL (ret)");
    assert_eq!(FlowControlOp::Exit.describe(), "LL (end)");
    assert_eq!(HeapAccessOp::Store.describe(), "S (store)");
    assert_eq!(HeapAccessOp::Load.describe(), "T (load)");
    assert_eq!(OpCode::IO(IoOp::PrintChar).describe(), "TL SS (prtc)");
    assert_eq!(OpCode::Stack(StackOp::Swap).describe(), "S LT swap");
    assert_eq!(OpCode::Arithmetic(ArithmeticOp::Add).describe(), "TS SS (add)");
    assert_eq!(OpCode::FlowControl(FlowControlOp::Exit).describe(), "L LL (end)");
    assert_eq!(OpCode::HeapAccess(HeapAccessOp::Load).describe(), "TT T (load)");
    assert_eq!(OpCode::IO(IoOp::PrintChar).to_text(), "prtc");
    assert_eq!(OpCode::Stack(StackOp::Swap).to_text(), "swap");
    assert_eq!(OpCode::Arithmetic(ArithmeticOp::Modulo).to_text(), "mod");
    assert_eq!(OpCode::FlowControl(FlowControlOp::Return).to_text(), "ret");
    assert_eq!(OpCode::HeapAccess(HeapAccessOp::Store).to_text(), "store");
}

#[test]
fn token_constants() {
    assert_eq!((IO, STACK, ARITHMETIC, FLOW_CONTROL, HEAP_ACCESS), ("\t\n", " ", "\t ", "\n", "\t\t"));
    assert_eq!((PUSH, DUPLICATE, SWAP, DISCARD, COPY, SLIDE), (" ", "\n ", "\n\t", "\n\n", "\t ", "\t\n"));
    assert_eq!((STORE, RETRIEVE), (" ", "\t"));
    assert_eq!(
        (MARK, CALL, JUMP, JUMP_ZERO, JUMP_NEGATIVE, RETURN, EXIT),
        ("  ", " \t", " \n", "\t ", "\t\t", "\t\n", "\n\n")
    );
    for (prefix, body, expected) in [
        (STACK, DUPLICATE, OpCode::Stack(StackOp::Duplicate)),
        (STACK, SWAP, OpCode::Stack(StackOp::Swap)),
        (ARITHMETIC, MUL, OpCode::Arithmetic(ArithmeticOp::Multiply)),
        (IO, READ_CHAR, OpCode::IO(IoOp::ReadChar)),
        (HEAP_ACCESS, RETRIEVE, OpCode::HeapAccess(HeapAccessOp::Load)),
        (FLOW_CONTROL, RETURN, OpCode::FlowControl(FlowControlOp::Return)),
    ] {
        let text = format!("{}{}", prefix, body);
        assert_eq!(op_code(text.as_bytes()), Ok((EMPTY, expected)));
    }
}

#[test]
fn programs_number_their_instructions() {
    let ops = [
        OpCode::Stack(StackOp::Push(Num(1))),
        OpCode::FlowControl(FlowControlOp::Label(label(" "))),
        OpCode::IO(IoOp::PrintNum),
        OpCode::FlowControl(FlowControlOp::Label(label("  "))),
        OpCode::FlowControl(FlowControlOp::Label(label(" "))),
        OpCode::FlowControl(FlowControlOp::Jump(label(" "))),
    ];
    let prog = Program::new(&ops);
    let places: Vec<Option<usize>> = prog.ops().iter().map(|x| x.0).collect();
    assert_eq!(places, vec![Some(0), None, Some(1), None, None, Some(2)]);
    assert_eq!(first_ops(&prog, 6), ops);
    assert_eq!(prog.labels().get(&label(" ")), Some(2));
    assert_eq!(prog.labels().get(&label("  ")), Some(2));
    assert_eq!(prog.labels().get(&label("\t")), None);
    assert_eq!(
        prog.describe(),
        "[0] S S STL push 1\n[--] L SS  (label )\n[1] TL ST (prtn)\n[--] L SS  (label )\n[--] L SS  (label )\n[2] L SL  (jmp )"
    );
    assert_eq!(Program::new(&[]).describe(), "");
    let mut map = LabelMap::new();
    assert_eq!(map.get(&label(" ")), None);
    map.insert(label(" "), 4);
    map.insert(label("\t"), 5);
    map.insert(label(" "), 6);
    assert_eq!(map.get(&label(" ")), Some(6));
    assert_eq!(map.get(&label("\t")), Some(5));
}

#[test]
fn reading_stops_at_what_is_no_instruction() {
    let (rest, prog) = program(b"   \t\n\t\n \tx\n\n\n");
    assert_eq!(rest, b"x\n\n\n");
    assert_eq!(
        first_ops(&prog, 9),
        vec![OpCode::Stack(StackOp::Push(Num(1))), OpCode::IO(IoOp::PrintNum)]
    );
    let (rest, prog) = program(b"");
    assert_eq!(rest, EMPTY);
    assert!(prog.ops().is_empty());
    assert_eq!(
        parse("   \t\n\t\n \tx\n\n\n").unwrap_err(),
        ParseError { at: 9, kind: ParseErrorKind::UnknownInstruction }
    );
    assert!(parse("").unwrap().ops().is_empty());
    assert_eq!(parse("\n\n\n").unwrap().ops().len(), 1);
}

#[test]
fn every_kind_of_error_has_its_place() {
    let error = |at, kind| ParseError { at, kind };
    assert_eq!(op_code(b"x").unwrap_err(), error(0, ParseErrorKind::UnknownInstruction));
    assert_eq!(op_code(b"").unwrap_err(), error(0, ParseErrorKind::UnknownInstruction));
    assert_eq!(op_code(b"\t").unwrap_err(), error(0, ParseErrorKind::UnknownInstruction));
    assert_eq!(op_code(b"\t\n\n ").unwrap_err(), error(2, ParseErrorKind::UnknownInstruction));
    assert_eq!(op_code(b"\t\tx").unwrap_err(), error(2, ParseErrorKind::UnknownInstruction));
    assert_eq!(op_code(b"\t \n\n").unwrap_err(), error(2, ParseErrorKind::UnknownInstruction));
    assert_eq!(op_code(b"\n\n ").unwrap_err(), error(1, ParseErrorKind::UnknownInstruction));
    assert_eq!(op_code(b"   \t").unwrap_err(), error(2, ParseErrorKind::MissingLineFeed));
    assert_eq!(op_code(b"  \n").unwrap_err(), error(2, ParseErrorKind::EmptyArgument));
    assert_eq!(op_code(b"  L\n").unwrap_err(), error(2, ParseErrorKind::BadNumber));
    assert_eq!(op_code(b"\n  \n").unwrap_err(), error(3, ParseErrorKind::EmptyArgument));
    assert_eq!(op_code(b"\n   ").unwrap_err(), error(3, ParseErrorKind::MissingLineFeed));
    let mut long = b"\n   ".to_vec();
    long.extend(vec![b'\t'; 70]);
    long.push(b'\n');
    assert_eq!(op_code(&long).unwrap_err(), error(3, ParseErrorKind::BadLabel));
    let mut long = b"  ".to_vec();
    long.extend(vec![b'\t'; 70]);
    long.push(b'\n');
    assert_eq!(stack_op(&long).unwrap_err(), error(1, ParseErrorKind::BadNumber));
    assert_eq!(number(b"\n").unwrap_err(), error(0, ParseErrorKind::EmptyArgument));
    assert_eq!(newline_terminated(b"ab\ncd"), Ok((&b"cd"[..], &b"ab"[..])));
    assert_eq!(newline_terminated(b"ab").unwrap_err(), error(0, ParseErrorKind::MissingLineFeed));
    assert_eq!(newline_terminated(b"\nab").unwrap_err(), error(0, ParseErrorKind::EmptyArgument));
    assert_eq!(stack_op(b"\t \t\t\nrest"), Ok((&b"rest"[..], StackOp::Copy(Num(-1)))));
    assert_eq!(
        flow_control_op(b"\t\t \t\nrest"),
        Ok((&b"rest"[..], FlowControlOp::JumpIfNegative(label(" \t"))))
    );
}
