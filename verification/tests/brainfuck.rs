use esolangs::brainfuck::engines::{BrainfuckEngine, LinearEngine, WrappingEngine};
use esolangs::brainfuck::errors::{
    BrainfuckError, Error, ExecutionContext, ExecutionErrorType, LoopErrorType, LoopType,
};
use esolangs::brainfuck::interpreters::{interpret_fast, interpret_with_wrapping};
use esolangs::brainfuck::iterator::{BrainfuckIterator, Snapshot};
use esolangs::brainfuck::loops::{find_loops, verify_loops};
use esolangs::brainfuck::machine::Token;
use esolangs::brainfuck::memory::{Linear, Memory, Wrapping};
use esolangs::brainfuck::parsers::{parse as parse_operations, width, Operation};
use esolangs::brainfuck::program::{decremented, incremented, parse, BrainfuckProgram};
use esolangs::brainfuck::utils::tape_text;
use std::collections::HashMap;

const STEPS: usize = 1_000_000;

const CAT: &str = ",[.,]";

const HELLO_WORLD: &str = ">++++++++[<+++++++++>-]<.\n\
> c1[-]\n\
+>++++<\n\
[>[>++++++++<-]<-]\n\
c3 is a space now; c1 +\n\
[>[ - ]<-]\n\
<+++++++++++++++++++++++++++++.+++++++..+++.\n\
>>>.<<<\n\
------------------------.++++++++++++++++++++++++.+++.------.--------.\n\
>>>+.-----------------------.\n\
\n\
How it works\n\
The first loop adds nine to cell zero eight times and makes the letter H\n\
Cell one is cleared and then counts the outer loop while cell two counts the inner one\n\
The nested loops add eight to cell three four times to make a space\n\
The last loops would clear cell two if anything were left in it\n\
Every other letter is reached from the letter before it\n\
The exclamation mark is the space and one\n\
The line feed is counted down from it\n";

const HELLO_WORLD_5: &str = "++++++++[>++++[>++>+++>+++>+<<<<-]>+>+>->>+[<]<-]>>.>---.+++++++..+++.>>.<-.<.+++.------.--------.>>+.>++.";

const HELLO_WORLD_2: &str = "++++++++++[>+++++++>++++++++++>+++>+<<<<-]>++.>+.+++++++..+++.>++.<<+++++++++++++++.>.+++.------.--------.>+.>.";

const HELLO_WORLD_3: &str =
    "+[-->-[>>+>-----<<]<--<---]>-.>>>+.>>..+++[.>]<<<<.+++.------.<<-.>>>>+.";

const HELLO_WORLD_4: &str = "++++++++[>+++++++++<-]>.+++++++++++++++++++++++++++++.+++++++..+++.-------------------------------------------------------------------------------.+++++++++++++++++++++++++++++++++++++++++++++++++++++++.++++++++++++++++++++++++.+++.------.--------.-------------------------------------------------------------------.-----------------------.";

const FAILS_TO_PARSE_CLOSE: &str = "+[[-]";

const FAILS_TO_PARSE_OPEN: &str = "+[-]]";

fn fast(prog: &str) -> Result<String, BrainfuckError> {
    interpret_fast(prog, "", STEPS)
}

fn wrapping(prog: &str) -> Result<String, BrainfuckError> {
    interpret_with_wrapping(prog, "", STEPS)
}

fn error_type(e: &BrainfuckError) -> ExecutionErrorType {
    match e {
        BrainfuckError::ExecutionError { err_type, .. } => *err_type,
        other => panic!("{:?}", other),
    }
}

#[test]
fn hello_world_test() {
    let prog = HELLO_WORLD;
    assert_eq!("Hello World!\n", fast(prog).unwrap());
    assert_eq!("Hello World!\n", wrapping(prog).unwrap());
}

#[test]
fn hello_world_2_test() {
    let prog = HELLO_WORLD_2;
    assert_eq!("Hello World!\n", fast(prog).unwrap());
    assert_eq!("Hello World!\n", wrapping(prog).unwrap());
}

#[test]
fn hello_world_3_err() {
    let prog = HELLO_WORLD_3;
    fast(prog).unwrap_err();
}

#[test]
#[should_panic]
fn hello_world_3_fast_panics() {
    let prog = HELLO_WORLD_3;
    fast(prog).unwrap();
}

#[test]
fn hello_world_3_wrapping_test() {
    let prog = HELLO_WORLD_3;
    assert_eq!("Hello, World!", wrapping(prog).unwrap())
}

#[test]
fn hello_world_4_test() {
    let prog = HELLO_WORLD_4;
    assert_eq!("Hello World!\n", fast(prog).unwrap());
    assert_eq!("Hello World!\n", wrapping(prog).unwrap());
}

#[test]
fn linear_hello_world() {
    let mut bf = BrainfuckIterator::linear(HELLO_WORLD).unwrap();
    let mut count = 0;
    while bf.next().is_some() {
        count += 1;
    }
    assert_eq!(count, 814);
}

#[test]
fn wrapping_hello_world() {
    let mut bf = BrainfuckIterator::wrapping(HELLO_WORLD).unwrap();
    let mut count = 0;
    while bf.next().is_some() {
        count += 1;
    }
    assert_eq!(count, 814);
}

#[test]
fn into_linear() {
    let hello = BrainfuckIterator::linear(HELLO_WORLD);
    let open_fail = BrainfuckIterator::linear(FAILS_TO_PARSE_OPEN);
    let close_fail = BrainfuckIterator::linear(FAILS_TO_PARSE_CLOSE);

    assert!(hello.is_ok());
    assert!(open_fail.is_err());
    assert!(close_fail.is_err());
}

#[test]
fn into_wrapping() {
    let hello = BrainfuckIterator::wrapping(HELLO_WORLD);
    let open_fail = BrainfuckIterator::wrapping(FAILS_TO_PARSE_OPEN);
    let close_fail = BrainfuckIterator::wrapping(FAILS_TO_PARSE_CLOSE);

    assert!(hello.is_ok());
    assert!(open_fail.is_err());
    assert!(close_fail.is_err());
}

#[test]
fn loop_search_test() {
    let loops = verify_loops(CAT).unwrap();
    assert_eq!(loops, HashMap::from_iter([(1, 4), (4, 1)]));
    let loops = verify_loops(HELLO_WORLD).unwrap();
    assert_eq!(
        loops,
        HashMap::from_iter([
            (9, 22),
            (22, 9),
            (32, 30),
            (30, 32),
            (42, 59),
            (59, 42),
            (44, 56),
            (87, 91),
            (91, 87),
            (85, 94),
            (94, 85),
            (56, 44),
        ])
    );
    let loops = verify_loops(HELLO_WORLD_5).unwrap();
    assert_eq!(
        loops,
        HashMap::from_iter([(8, 48), (48, 8), (14, 33), (33, 14), (43, 45), (45, 43)])
    );
}

#[test]
fn parse_test() {
    let prog = CAT;
    assert!(verify_loops(prog).is_ok());
    let prog = FAILS_TO_PARSE_CLOSE;
    let result = verify_loops(prog);
    let err = result.unwrap_err();
    match &err {
        BrainfuckError::ParseError { err_type, char_index, location, src } => {
            assert_eq!(err_type.message(), "Unclosed bracket");
            assert_eq!(*err_type, LoopErrorType::UnclosedBracket);
            assert_eq!(*char_index, 1);
            assert_eq!(*location, 1);
            assert_eq!(src, prog);
        }
        other => panic!("{:?}", other),
    }
    assert_eq!(err.message(), "Could not parse program");
    let prog = FAILS_TO_PARSE_OPEN;
    let result = verify_loops(prog);
    let err = result.unwrap_err();
    match &err {
        BrainfuckError::ParseError { err_type, char_index, .. } => {
            assert_eq!(err_type.message(), "Unexpected closing bracket");
            assert_eq!(*err_type, LoopErrorType::UnexpectedClosingBracket);
            assert_eq!(*char_index, 4);
        }
        other => panic!("{:?}", other),
    }
}

#[test]
fn hello_world_3() {
    let src = HELLO_WORLD_3;
    let mut program = BrainfuckProgram::wrapping_executor(src).unwrap();
    let output = program.run(STEPS).unwrap();
    assert_eq!("Hello, World!", output);
    let mut program = BrainfuckProgram::linear_memory_executor(src).unwrap();
    let output = program.run(STEPS);
    assert!(output.is_err());
}

#[test]
fn programs_run_on_both_tapes() {
    for src in [HELLO_WORLD, HELLO_WORLD_2, HELLO_WORLD_4, HELLO_WORLD_5] {
        let mut program = BrainfuckProgram::linear_memory_executor(src).unwrap();
        assert_eq!("Hello World!\n", program.run(STEPS).unwrap());
        let mut program = BrainfuckProgram::wrapping_executor(src).unwrap();
        assert_eq!("Hello World!\n", program.run(STEPS).unwrap());
        assert_eq!("Hello World!\n", LinearEngine::run(src, "", STEPS).unwrap());
        assert_eq!("Hello World!\n", WrappingEngine::run(src, "", STEPS).unwrap());
    }
}

#[test]
fn the_first_unpaired_bracket_is_reported() {
    let place = |prog: &str| match verify_loops(prog).unwrap_err() {
        BrainfuckError::ParseError { err_type, char_index, .. } => (err_type, char_index),
        other => panic!("{:?}", other),
    };
    assert_eq!(place("]"), (LoopErrorType::UnexpectedClosingBracket, 0));
    assert_eq!(place("[]]["), (LoopErrorType::UnexpectedClosingBracket, 2));
    assert_eq!(place("["), (LoopErrorType::UnclosedBracket, 0));
    assert_eq!(place("[[][]"), (LoopErrorType::UnclosedBracket, 0));
    assert_eq!(place("[][[]"), (LoopErrorType::UnclosedBracket, 2));
    assert_eq!(place("[[[]"), (LoopErrorType::UnclosedBracket, 1));
    assert!(verify_loops("").unwrap().is_empty());
    assert!(verify_loops("+-<>.,").unwrap().is_empty());
    assert_eq!(verify_loops("[[]]").unwrap(), HashMap::from_iter([(0, 3), (3, 0), (1, 2), (2, 1)]));
    assert_eq!(
        verify_loops("\u{e9}[a]").unwrap(),
        HashMap::from_iter([(2, 4), (4, 2)])
    );
}

#[test]
fn find_loops_leaves_open_brackets_out() {
    assert_eq!(find_loops(CAT), HashMap::from_iter([(1, 4), (4, 1)]));
    assert_eq!(find_loops("[[]"), HashMap::from_iter([(1, 2), (2, 1)]));
    assert!(find_loops("[[").is_empty());
}

#[test]
fn input_is_read_character_by_character() {
    assert_eq!(interpret_fast(",.,.,.", "abc", STEPS).unwrap(), "abc");
    assert_eq!(interpret_with_wrapping(",+.", "a", STEPS).unwrap(), "b");
    assert_eq!(interpret_fast(",.", "\u{141}", STEPS).unwrap(), "A");
    let err = interpret_fast(CAT, "abc", STEPS).unwrap_err();
    assert_eq!(error_type(&err), ExecutionErrorType::InputError);
    assert_eq!(error_type(&err).message(), "Could not retrieve user input");
    assert_eq!(err.message(), "An error occurred while executing the program");
    match err {
        BrainfuckError::ExecutionError { ctx, location, src, .. } => {
            assert_eq!(ctx, ExecutionContext { instruction_ptr: 3, cycle: 9, cell_index: 0 });
            assert_eq!(location, 3);
            assert_eq!(src, CAT);
        }
        other => panic!("{:?}", other),
    }
}

#[test]
fn cells_wrap_at_eight_bits() {
    assert_eq!(interpret_fast("-.", "", STEPS).unwrap(), "\u{ff}");
    assert_eq!(interpret_fast("-+.", "", STEPS).unwrap(), "\0");
    assert_eq!(incremented(255), 0);
    assert_eq!(incremented(7), 8);
    assert_eq!(decremented(0), 255);
    assert_eq!(decremented(7), 6);
}

#[test]
fn a_step_left_of_the_first_cell() {
    let err = interpret_fast("+<", "", STEPS).unwrap_err();
    assert_eq!(error_type(&err), ExecutionErrorType::MemoryError(Error::CellIndexUnderflow));
    assert_eq!(
        error_type(&err).message(),
        "An error occurred while interacting with the program's memory"
    );
    assert_eq!(
        Error::CellIndexUnderflow.message(),
        "Unsigned integer underflow ocurred in cell index"
    );
    assert_eq!(
        Error::CellIndexOverflow.message(),
        "Unsigned integer overflow ocurred in cell index"
    );
    assert_eq!(Error::CellAccessError(12).message(), "Could not access cell at index: 12");
    assert_eq!(
        ExecutionErrorType::LoopError(7).message(),
        "Attempted to jump to unknown loop location: 7"
    );
    assert_eq!(interpret_with_wrapping("+<+++.>.", "", STEPS).unwrap(), "\u{3}\u{1}");
}

#[test]
fn a_tape_run_is_cut_off_after_its_steps() {
    let err = interpret_fast("+[]", "", 100).unwrap_err();
    assert_eq!(error_type(&err), ExecutionErrorType::StepLimit);
    match err {
        BrainfuckError::ExecutionError { ctx, .. } => assert_eq!(ctx.cycle, 100),
        other => panic!("{:?}", other),
    }
    assert_eq!(interpret_fast("+.", "", 2).unwrap(), "\u{1}");
    assert!(interpret_fast("+.", "", 1).is_err());
    assert_eq!(interpret_fast("", "", 0).unwrap(), "");
}

#[test]
fn brackets_that_do_not_pair_stop_every_engine() {
    for src in [FAILS_TO_PARSE_CLOSE, FAILS_TO_PARSE_OPEN] {
        assert!(matches!(fast(src), Err(BrainfuckError::ParseError { .. })));
        assert!(matches!(wrapping(src), Err(BrainfuckError::ParseError { .. })));
        assert!(matches!(LinearEngine::run(src, "", STEPS), Err(BrainfuckError::ParseError { .. })));
        assert!(BrainfuckProgram::<Linear>::new(src).is_err());
    }
}

#[test]
fn tokens_are_read_byte_by_byte() {
    assert_eq!(
        parse("+-<>.,[]x"),
        vec![
            Token::Increment,
            Token::Decrement,
            Token::MoveLeft,
            Token::MoveRight,
            Token::Print,
            Token::Input,
            Token::Loop(LoopType::Start),
            Token::Loop(LoopType::End),
            Token::Other,
        ]
    );
    assert_eq!(parse("\u{e9}"), vec![Token::Other, Token::Other]);
    assert_eq!(
        parse_operations("+[\u{e9}]x").unwrap(),
        vec![
            Operation::Increment,
            Operation::LoopStart(1),
            Operation::Other('\u{e9}'),
            Operation::LoopEnd(4),
            Operation::Other('x'),
        ]
    );
    assert_eq!(
        parse_operations("-<>.,").unwrap(),
        vec![
            Operation::Decrement,
            Operation::MoveLeft,
            Operation::MoveRight,
            Operation::Print,
            Operation::Input,
        ]
    );
    assert_eq!(width('a'), 1);
    assert_eq!(width('\u{e9}'), 2);
    assert_eq!(width('\u{20ac}'), 3);
    assert_eq!(width('\u{1F600}'), 4);
}

#[test]
fn tapes_grow_as_the_machine_moves() {
    let mut tape = Linear::init();
    assert_eq!(tape, vec![0]);
    assert_eq!(tape.move_right(0), Ok(1));
    assert_eq!(tape, vec![0, 0]);
    assert_eq!(tape.move_right(0), Ok(1));
    assert_eq!(tape, vec![0, 0]);
    assert_eq!(tape.modify(1, incremented), Ok(()));
    assert_eq!(tape.cell_value(1), Ok(1));
    assert_eq!(tape.move_left(1), Ok(0));
    assert_eq!(tape.move_left(0), Err(Error::CellIndexUnderflow));
    assert_eq!(tape.cell_value(2), Err(Error::CellAccessError(2)));
    assert_eq!(tape.modify(2, incremented), Err(Error::CellAccessError(2)));

    let mut tape = Wrapping::init();
    assert_eq!(tape, HashMap::from_iter([(0, 0)]));
    assert_eq!(tape.move_left(0), Ok(usize::MAX));
    assert_eq!(tape.cell_value(usize::MAX), Ok(0));
    assert_eq!(tape.modify(usize::MAX, decremented), Ok(()));
    assert_eq!(tape.cell_value(usize::MAX), Ok(255));
    assert_eq!(tape.move_right(usize::MAX), Ok(0));
    assert_eq!(tape.move_right(0), Ok(1));
    assert_eq!(tape.len(), 3);
    assert_eq!(tape.cell_value(5), Err(Error::CellAccessError(5)));
    assert_eq!(tape.modify(5, incremented), Err(Error::CellAccessError(5)));
}

#[test]
fn snapshots_follow_the_run() {
    let mut bf = BrainfuckIterator::linear("+>,.").unwrap();
    bf.feed("z");
    let first = bf.next().unwrap();
    assert_eq!((first.ip, first.cycle, first.index), (0, 0, 0));
    assert_eq!(first.tape, vec![0]);
    let second = bf.next().unwrap();
    assert_eq!((second.ip, second.cycle, second.index), (1, 1, 0));
    assert_eq!(second.tape, vec![1]);
    let third = bf.next().unwrap();
    assert_eq!(third.tape, vec![1, 0]);
    assert_eq!(third.index, 1);
    let fourth = bf.next().unwrap();
    assert_eq!(fourth.tape, vec![1, 122]);
    let fifth = bf.next().unwrap();
    assert_eq!(fifth.output, "z");
    assert_eq!(fifth.ip, 4);
    assert!(bf.next().is_none());
    assert!(bf.next().is_none());

    let mut bf = BrainfuckIterator::linear("<+").unwrap();
    assert!(bf.next().is_some());
    assert!(bf.next().is_none());

    let snap = Snapshot::new(vec![1u8, 2], 3, 4, "out".to_string(), 5);
    assert_eq!(snap.tape, vec![1, 2]);
    assert_eq!((snap.cycle, snap.ip, snap.index), (3, 4, 5));
    assert_eq!(snap.output, "out");
}

#[test]
fn a_program_is_run_step_by_step() {
    let mut program = BrainfuckProgram::<Linear>::new("+[-]").unwrap();
    assert_eq!(program.context(), ExecutionContext::default());
    assert!(!program.finished());
    program.execute_next().unwrap();
    assert_eq!(
        program.context(),
        ExecutionContext { instruction_ptr: 1, cycle: 1, cell_index: 0 }
    );
    program.execute_next().unwrap();
    program.execute_next().unwrap();
    assert_eq!(program.snapshot().tape, vec![0]);
    program.execute_next().unwrap();
    assert!(program.finished());
    assert_eq!(program.output(), "");
    assert_eq!(program.run(10).unwrap(), "");
    assert_eq!(program.context().cycle, 4);
}

#[test]
fn a_tape_is_shown_in_one_line() {
    assert_eq!(tape_text(3, &[1, 0, 255]), "3: [1, 0, 255]");
    assert_eq!(tape_text(0, &[]), "0: []");
    assert_eq!(tape_text(12, &[7]), "12: [7]");
}
