use esolangs::whitespace::pairs::{pair_op, parse, Pair, PairError, Rule};
use esolangs::whitespace::tokens::{
    ArithmeticOp, FlowControlOp, HeapAccessOp, IoOp, Label, Num, OpCode, StackOp,
};

fn pair(rule: Rule, text: &str, inner: Vec<Pair>) -> Pair {
    Pair { rule, text: text.to_string(), inner }
}

fn plain(group: Rule, rule: Rule) -> Pair {
    pair(group, "", vec![pair(rule, "", vec![])])
}

fn with_argument(group: Rule, rule: Rule, argument: Rule, text: &str) -> Pair {
    pair(group, "", vec![pair(rule, "", vec![pair(argument, text, vec![])])])
}

fn op(inner: Vec<Pair>) -> Pair {
    pair(Rule::OP, "", inner)
}

const GRAMMAR: &str = "WHITESPACE = _{ \"\\r\" }\r\nPROGRAM = { SOI ~ OP* ~ EOI }\nOP = { OP_IO | OP_STACK }\nOP_IO = { IMP_IO ~ (READ_CHAR | READ_NUM) }\r\nOP_STACK = { S ~ (S_PUSH | DUP) }\nNUM = @{ (S | T)+ ~ L }\r";

#[test]
fn a_rule_finds_its_line_in_the_grammar() {
    assert_eq!(Rule::PROGRAM.grammar(GRAMMAR).unwrap(), "PROGRAM = { SOI ~ OP* ~ EOI }");
    assert_eq!(Rule::OP.grammar(GRAMMAR).unwrap(), "OP = { OP_IO | OP_STACK }");
    assert_eq!(Rule::OP_IO.grammar(GRAMMAR).unwrap(), "OP_IO = { IMP_IO ~ (READ_CHAR | READ_NUM) }");
    assert_eq!(Rule::OP_STACK.grammar(GRAMMAR).unwrap(), "OP_STACK = { S ~ (S_PUSH | DUP) }");
    assert_eq!(Rule::NUM.grammar(GRAMMAR).unwrap(), "NUM = @{ (S | T)+ ~ L }\r");
    assert_eq!(Rule::DUP.grammar(GRAMMAR), None);
    assert_eq!(Rule::EOI.grammar(""), None);
    assert_eq!(Rule::EOI.grammar("EOI"), Some("EOI".to_string()));
    assert_eq!(Rule::EOI.grammar("\n\nEOI = x\nEOI = y\n"), Some("EOI = x".to_string()));
    assert_eq!(Rule::EOI.grammar(" EOI\nEO\n"), None);
}

#[test]
fn rules_are_named_as_they_are_written() {
    let rules = [
        (Rule::EOI, "EOI"),
        (Rule::PROGRAM, "PROGRAM"),
        (Rule::OP, "OP"),
        (Rule::OP_STACK, "OP_STACK"),
        (Rule::OP_IO, "OP_IO"),
        (Rule::OP_FLOW, "OP_FLOW"),
        (Rule::OP_HEAP, "OP_HEAP"),
        (Rule::OP_ARITHMETIC, "OP_ARITHMETIC"),
        (Rule::S_PUSH, "S_PUSH"),
        (Rule::DUP, "DUP"),
        (Rule::SWAP, "SWAP"),
        (Rule::DISCARD, "DISCARD"),
        (Rule::COPY, "COPY"),
        (Rule::SLIDE, "SLIDE"),
        (Rule::PRINT_CHAR, "PRINT_CHAR"),
        (Rule::PRINT_NUM, "PRINT_NUM"),
        (Rule::READ_CHAR, "READ_CHAR"),
        (Rule::READ_NUM, "READ_NUM"),
        (Rule::LABEL, "LABEL"),
        (Rule::CALL, "CALL"),
        (Rule::JUMP, "JUMP"),
        (Rule::JUMP_ZERO, "JUMP_ZERO"),
        (Rule::JUMP_NEG, "JUMP_NEG"),
        (Rule::RETURN, "RETURN"),
        (Rule::EXIT, "EXIT"),
        (Rule::LOAD, "LOAD"),
        (Rule::STORE, "STORE"),
        (Rule::ADD, "ADD"),
        (Rule::SUB, "SUB"),
        (Rule::MUL, "MUL"),
        (Rule::DIV, "DIV"),
        (Rule::MOD, "MOD"),
        (Rule::NUM, "NUM"),
        (Rule::LABEL_NAME, "LABEL_NAME"),
    ];
    for (rule, name) in rules {
        assert_eq!(rule.name(), name);
        assert_eq!(format!("{:?}", rule), name);
    }
}

#[test]
fn pairs_are_read_by_their_rules() {
    let number = |rule| with_argument(Rule::OP_STACK, rule, Rule::NUM, "STSSTSSSL");
    assert_eq!(pair_op(&number(Rule::S_PUSH)), Ok(OpCode::Stack(StackOp::Push(Num(72)))));
    assert_eq!(pair_op(&number(Rule::COPY)), Ok(OpCode::Stack(StackOp::Copy(Num(72)))));
    assert_eq!(pair_op(&number(Rule::SLIDE)), Ok(OpCode::Stack(StackOp::Slide(Num(72)))));
    assert_eq!(
        pair_op(&with_argument(Rule::OP_STACK, Rule::S_PUSH, Rule::NUM, "\t \t\n")),
        Ok(OpCode::Stack(StackOp::Push(Num(-1))))
    );
    assert_eq!(pair_op(&plain(Rule::OP_STACK, Rule::DUP)), Ok(OpCode::Stack(StackOp::Duplicate)));
    assert_eq!(pair_op(&plain(Rule::OP_STACK, Rule::SWAP)), Ok(OpCode::Stack(StackOp::Swap)));
    assert_eq!(pair_op(&plain(Rule::OP_STACK, Rule::DISCARD)), Ok(OpCode::Stack(StackOp::Discard)));
    assert_eq!(pair_op(&plain(Rule::OP_IO, Rule::PRINT_CHAR)), Ok(OpCode::IO(IoOp::PrintChar)));
    assert_eq!(pair_op(&plain(Rule::OP_IO, Rule::PRINT_NUM)), Ok(OpCode::IO(IoOp::PrintNum)));
    assert_eq!(pair_op(&plain(Rule::OP_IO, Rule::READ_CHAR)), Ok(OpCode::IO(IoOp::ReadChar)));
    assert_eq!(pair_op(&plain(Rule::OP_IO, Rule::READ_NUM)), Ok(OpCode::IO(IoOp::ReadNum)));
    let one = Label { value: 1, prefixed_zeroes: 1 };
    let labelled = |rule| with_argument(Rule::OP_FLOW, rule, Rule::LABEL_NAME, "ST");
    assert_eq!(pair_op(&labelled(Rule::LABEL)), Ok(OpCode::FlowControl(FlowControlOp::Label(one))));
    assert_eq!(pair_op(&labelled(Rule::CALL)), Ok(OpCode::FlowControl(FlowControlOp::Call(one))));
    assert_eq!(pair_op(&labelled(Rule::JUMP)), Ok(OpCode::FlowControl(FlowControlOp::Jump(one))));
    assert_eq!(
        pair_op(&labelled(Rule::JUMP_ZERO)),
        Ok(OpCode::FlowControl(FlowControlOp::JumpIfZero(one)))
    );
    assert_eq!(
        pair_op(&labelled(Rule::JUMP_NEG)),
        Ok(OpCode::FlowControl(FlowControlOp::JumpIfNegative(one)))
    );
    assert_eq!(
        pair_op(&plain(Rule::OP_FLOW, Rule::RETURN)),
        Ok(OpCode::FlowControl(FlowControlOp::Return))
    );
    assert_eq!(pair_op(&plain(Rule::OP_FLOW, Rule::EXIT)), Ok(OpCode::FlowControl(FlowControlOp::Exit)));
    assert_eq!(pair_op(&plain(Rule::OP_HEAP, Rule::LOAD)), Ok(OpCode::HeapAccess(HeapAccessOp::Load)));
    assert_eq!(pair_op(&plain(Rule::OP_HEAP, Rule::STORE)), Ok(OpCode::HeapAccess(HeapAccessOp::Store)));
    assert_eq!(
        pair_op(&plain(Rule::OP_ARITHMETIC, Rule::ADD)),
        Ok(OpCode::Arithmetic(ArithmeticOp::Add))
    );
    assert_eq!(
        pair_op(&plain(Rule::OP_ARITHMETIC, Rule::SUB)),
        Ok(OpCode::Arithmetic(ArithmeticOp::Subtract))
    );
    assert_eq!(
        pair_op(&plain(Rule::OP_ARITHMETIC, Rule::MUL)),
        Ok(OpCode::Arithmetic(ArithmeticOp::Multiply))
    );
    assert_eq!(
        pair_op(&plain(Rule::OP_ARITHMETIC, Rule::DIV)),
        Ok(OpCode::Arithmetic(ArithmeticOp::Divide))
    );
    assert_eq!(
        pair_op(&plain(Rule::OP_ARITHMETIC, Rule::MOD)),
        Ok(OpCode::Arithmetic(ArithmeticOp::Modulo))
    );
}

#[test]
fn pairs_out_of_place_are_faults() {
    assert_eq!(pair_op(&pair(Rule::OP_IO, "", vec![])), Err(PairError::MissingInner));
    assert_eq!(pair_op(&plain(Rule::OP_IO, Rule::ADD)), Err(PairError::UnexpectedRule(Rule::ADD)));
    assert_eq!(pair_op(&plain(Rule::OP_STACK, Rule::ADD)), Err(PairError::UnexpectedRule(Rule::ADD)));
    assert_eq!(pair_op(&plain(Rule::OP_FLOW, Rule::ADD)), Err(PairError::UnexpectedRule(Rule::ADD)));
    assert_eq!(pair_op(&plain(Rule::OP_HEAP, Rule::ADD)), Err(PairError::UnexpectedRule(Rule::ADD)));
    assert_eq!(
        pair_op(&plain(Rule::OP_ARITHMETIC, Rule::DUP)),
        Err(PairError::UnexpectedRule(Rule::DUP))
    );
    assert_eq!(pair_op(&plain(Rule::NUM, Rule::DUP)), Err(PairError::UnexpectedRule(Rule::NUM)));
    assert_eq!(pair_op(&plain(Rule::OP_STACK, Rule::S_PUSH)), Err(PairError::MissingArgument));
    assert_eq!(pair_op(&plain(Rule::OP_FLOW, Rule::JUMP)), Err(PairError::MissingArgument));
    assert_eq!(
        pair_op(&with_argument(Rule::OP_STACK, Rule::S_PUSH, Rule::NUM, "L")),
        Err(PairError::BadNumber)
    );
    assert_eq!(
        pair_op(&with_argument(Rule::OP_STACK, Rule::COPY, Rule::NUM, &format!("S{}", "T".repeat(70)))),
        Err(PairError::BadNumber)
    );
    assert_eq!(
        pair_op(&with_argument(Rule::OP_FLOW, Rule::CALL, Rule::LABEL_NAME, "")),
        Err(PairError::BadLabel)
    );
}

#[test]
fn a_program_is_the_instructions_of_its_pairs() {
    let program = pair(
        Rule::PROGRAM,
        "",
        vec![
            op(vec![with_argument(Rule::OP_STACK, Rule::S_PUSH, Rule::NUM, "STL")]),
            op(vec![]),
            op(vec![plain(Rule::OP_IO, Rule::PRINT_NUM), plain(Rule::OP_FLOW, Rule::EXIT)]),
            pair(Rule::EOI, "", vec![]),
        ],
    );
    let parsed = parse(&program).unwrap();
    let ops: Vec<(Option<usize>, OpCode)> = parsed.ops().clone();
    assert_eq!(
        ops,
        vec![
            (Some(0), OpCode::Stack(StackOp::Push(Num(1)))),
            (Some(1), OpCode::IO(IoOp::PrintNum)),
            (Some(2), OpCode::FlowControl(FlowControlOp::Exit)),
        ]
    );
    assert!(parse(&pair(Rule::PROGRAM, "", vec![])).unwrap().ops().is_empty());
    let stray = pair(
        Rule::PROGRAM,
        "",
        vec![op(vec![plain(Rule::OP_IO, Rule::PRINT_NUM)]), pair(Rule::NUM, "", vec![])],
    );
    assert_eq!(parse(&stray).unwrap_err(), PairError::UnexpectedRule(Rule::NUM));
    let broken = pair(
        Rule::PROGRAM,
        "",
        vec![
            op(vec![plain(Rule::OP_IO, Rule::PRINT_NUM), plain(Rule::OP_IO, Rule::DUP)]),
            pair(Rule::NUM, "", vec![]),
        ],
    );
    assert_eq!(parse(&broken).unwrap_err(), PairError::UnexpectedRule(Rule::DUP));
}
