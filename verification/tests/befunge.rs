use esolangs::befunge::cell::Cell;
use esolangs::befunge::input::Input;
use esolangs::befunge::model::{Fault, Status};
use esolangs::befunge::program::{difference_of, greater_of, negation_of, product_of, sum_of};
use esolangs::befunge::program::{Outcome, Program};
use esolangs::befunge::space::{Direction, Grid, Pos, MAX_HEIGHT, MAX_WIDTH};
use esolangs::befunge::to_char;
use esolangs::befunge::tokens::Token;
use std::collections::HashSet;

const STEPS: u64 = 1_000_000;

fn run_src(src: &str) -> String {
    match Program::new(src).run(Input::from_text(""), STEPS) {
        Outcome::Halted(out) => out,
        other => panic!("the program did not halt: {:?}", other),
    }
}

fn run_with_input(src: &str, input: &str) -> Outcome {
    Program::new(src).run(Input::from_text(input), STEPS)
}

const HELLO_WORLD: &str = "\"!dlroW ,olleH\">:#,_@";

const HELLO_WORLD_2: &str = ">              v
v  ,,,,,\"Hello\"<
>48*,          v
v,,,,,,\"World!\"<
>25*,@";

const DNA: &str = "7^DN>vA
v_#v? v
7^<\"\"\"\"
3  ACGT
90!\"\"\"\"
4*:>>>v
+8^-1,<
> ,+,@)";

const QUINE: &str = "0 v
 \"<@_ #! #: #,<*2-1*92,*84,*25,+*92*4*55.0";

const PI: &str = "\"15739939617914882059723833462648323979853562951413\">:#,_v
v                                                        <
>\"76071124352843082689980268260461870329544947902850\">:#,_@";

const GCD: &str = "25*:::**\\7*+1+:.25*::**47*+1+:.52*,v
                                   v          <
                                   >:50p%50g\\:|
                                              >$\" = DCG\",,,,,,.52*,@";

#[test]
fn it_works() {
    assert_eq!(run_src(HELLO_WORLD), "Hello, World!");
    assert_eq!(run_src(HELLO_WORLD_2), "Hello World!\n");
}

#[test]
fn get() {
    assert_eq!(run_src("02>g,@"), ">");
    let _1029 = "25*::**47*+1+";
    let src = &format!("{}.@", _1029);
    let res = run_src(src);
    assert_eq!(res, "1029 ")
}

#[test]
fn dna() {
    let output = run_src(DNA);
    let output = output.trim_end();
    let chars = output.chars().collect::<HashSet<_>>();
    assert_eq!(chars.len(), 4);
    assert_eq!(output.len(), 56);
}

#[test]
fn quine() {
    assert_eq!(
        run_src(QUINE),
        "0 v
 \"<@_ #! #: #,<*2-1*92,*84,*25,+*92*4*55.0                                       "
    );
}

#[test]
fn pi() {
    assert_eq!(run_src(PI), "3141592653589793238462643383279502884197169399375105820974944592307816406286208998628034825342117067");
}

#[test]
fn gcd() {
    assert_eq!(run_src(GCD), "1071 1029 \nGCD = 21 \n");
}

#[test]
fn digits_then_halt_print_nothing() {
    for src in ["@", "7@", "0123456789@", "99999999999999999999@"] {
        match run_with_input(src, "ignored") {
            Outcome::Halted(out) => assert_eq!(out, ""),
            other => panic!("{:?}", other),
        }
    }
}

#[test]
fn digits_then_halt_need_one_step_each() {
    let outcome = Program::new("123@").run(Input::from_text(""), 4);
    assert!(matches!(outcome, Outcome::Halted(ref s) if s.is_empty()));
    let outcome = Program::new("123@").run(Input::from_text(""), 3);
    assert!(matches!(outcome, Outcome::Aborted(ref s) if s.is_empty()));
}

#[test]
fn decode_then_symbol_is_identity() {
    for code in 0u32..0x3000 {
        if let Some(c) = char::from_u32(code) {
            assert_eq!(Token::decode(c).symbol(), c);
        }
    }
    assert_eq!(Token::decode('\u{1F600}').symbol(), '\u{1F600}');
}

#[test]
fn symbol_then_decode_is_identity() {
    let tokens = [
        Token::Add,
        Token::Sub,
        Token::Mul,
        Token::Div,
        Token::Mod,
        Token::LogicalNot,
        Token::GreaterThan,
        Token::MoveRight,
        Token::MoveLeft,
        Token::MoveUp,
        Token::MoveDown,
        Token::MoveRandom,
        Token::HorizontalIf,
        Token::VerticalIf,
        Token::StringModeToggle,
        Token::Duplicate,
        Token::Swap,
        Token::Discard,
        Token::IntOutput,
        Token::CharOutput,
        Token::Bridge,
        Token::Get,
        Token::Put,
        Token::UserIntInput,
        Token::UserCharInput,
        Token::Exit,
        Token::Blank,
        Token::Unknown('x'),
        Token::PushNumber(0),
        Token::PushNumber(9),
    ];
    for t in tokens {
        assert_eq!(Token::decode(t.symbol()), t);
    }
}

#[test]
fn decode_table() {
    assert_eq!(Token::decode('+'), Token::Add);
    assert_eq!(Token::decode('-'), Token::Sub);
    assert_eq!(Token::decode('*'), Token::Mul);
    assert_eq!(Token::decode('/'), Token::Div);
    assert_eq!(Token::decode('%'), Token::Mod);
    assert_eq!(Token::decode('!'), Token::LogicalNot);
    assert_eq!(Token::decode('`'), Token::GreaterThan);
    assert_eq!(Token::decode('>'), Token::MoveRight);
    assert_eq!(Token::decode('<'), Token::MoveLeft);
    assert_eq!(Token::decode('^'), Token::MoveUp);
    assert_eq!(Token::decode('v'), Token::MoveDown);
    assert_eq!(Token::decode('?'), Token::MoveRandom);
    assert_eq!(Token::decode('_'), Token::HorizontalIf);
    assert_eq!(Token::decode('|'), Token::VerticalIf);
    assert_eq!(Token::decode('"'), Token::StringModeToggle);
    assert_eq!(Token::decode(':'), Token::Duplicate);
    assert_eq!(Token::decode('\\'), Token::Swap);
    assert_eq!(Token::decode('$'), Token::Discard);
    assert_eq!(Token::decode('.'), Token::IntOutput);
    assert_eq!(Token::decode(','), Token::CharOutput);
    assert_eq!(Token::decode('#'), Token::Bridge);
    assert_eq!(Token::decode('g'), Token::Get);
    assert_eq!(Token::decode('p'), Token::Put);
    assert_eq!(Token::decode('&'), Token::UserIntInput);
    assert_eq!(Token::decode('~'), Token::UserCharInput);
    assert_eq!(Token::decode('@'), Token::Exit);
    assert_eq!(Token::decode('0'), Token::PushNumber(0));
    assert_eq!(Token::decode('7'), Token::PushNumber(7));
    assert_eq!(Token::decode('9'), Token::PushNumber(9));
    assert_eq!(Token::decode(' '), Token::Blank);
    assert_eq!(Token::decode('a'), Token::Unknown('a'));
    assert_eq!(Token::decode('\n'), Token::Unknown('\n'));
}

#[test]
fn try_from_names_instructions_only() {
    assert_eq!(Token::try_from('+'), Ok(Token::Add));
    assert_eq!(Token::try_from('5'), Ok(Token::PushNumber(5)));
    assert_eq!(Token::try_from(' '), Err(()));
    assert_eq!(Token::try_from('a'), Err(()));
    assert!(Token::Add.is_instruction());
    assert!(!Token::Blank.is_instruction());
    assert!(!Token::Unknown('a').is_instruction());
}

#[test]
fn cells_read_two_ways() {
    let cell = Cell::from_char('+');
    assert_eq!(cell.to_num(), 43);
    assert_eq!(cell.to_char(), Some('+'));
    assert_eq!(cell.to_token(), Some(Token::Add));
    assert_eq!(Cell::from_char(' ').to_token(), None);
    assert_eq!(Cell::from_char('a').to_token(), None);
    assert_eq!(Cell::new(0xD800).to_char(), None);
    assert_eq!(Cell::new(0xD800).to_token(), None);
    assert_eq!(Cell::new(0xD800).to_num(), 0xD800);
    assert_eq!(Cell::from_char('\u{1F600}').to_num(), 0xF600);
    assert_eq!(Cell::from_char('+').as_opcode(), Token::Add);
    assert_eq!(Cell::from_char(' ').as_opcode(), Token::Blank);
    assert_eq!(Cell::from_char('a').as_opcode(), Token::Unknown('a'));
    assert_eq!(Cell::new(0xD800).as_opcode(), Token::Blank);
    assert_eq!(Cell::from_char('+').as_raw_character(), 43);
    assert_eq!(Cell::from(65u16).to_char(), Some('A'));
    assert_eq!(Cell::from('A').to_num(), 65);
}

#[test]
fn printed_character_is_remainder_by_255() {
    assert_eq!(to_char(65), 'A');
    assert_eq!(to_char(0), '\0');
    assert_eq!(to_char(255), '\0');
    assert_eq!(to_char(254), '\u{FE}');
    assert_eq!(to_char(256), '\u{1}');
    assert_eq!(to_char(65535), '\0');
}

#[test]
fn duplicate_then_discard_restores_the_stack() {
    let mut program = Program::new("123:$");
    let mut input = Input::from_text("");
    let mut output = String::new();
    for _ in 0..3 {
        program.step(&mut input, &mut output, Direction::Right);
    }
    let before = program.stack().clone();
    assert_eq!(before, vec![1, 2, 3]);
    program.step(&mut input, &mut output, Direction::Right);
    assert_eq!(program.stack(), &vec![1, 2, 3, 3]);
    program.step(&mut input, &mut output, Direction::Right);
    assert_eq!(program.stack(), &before);
}

#[test]
fn duplicate_on_empty_stack_duplicates_zero() {
    let mut program = Program::new(":$");
    let mut input = Input::from_text("");
    let mut output = String::new();
    program.step(&mut input, &mut output, Direction::Right);
    assert_eq!(program.stack(), &vec![0, 0]);
    program.step(&mut input, &mut output, Direction::Right);
    assert_eq!(program.stack(), &vec![0]);
    assert_eq!(run_src(":$.@"), "0 ");
}

#[test]
fn moves_wrap_around_the_edges() {
    let last_col = MAX_WIDTH - 1;
    let last_row = MAX_HEIGHT - 1;
    assert_eq!(Pos::new(3, 0).advance(Direction::Left), Pos::new(3, last_col));
    assert_eq!(Pos::new(0, 7).advance(Direction::Up), Pos::new(last_row, 7));
    assert_eq!(Pos::new(3, last_col).advance(Direction::Right), Pos::new(3, 0));
    assert_eq!(Pos::new(last_row, 7).advance(Direction::Down), Pos::new(0, 7));
    assert_eq!(Pos::new(3, 4).advance(Direction::Left), Pos::new(3, 3));
    assert_eq!(Pos::new(3, 4).advance(Direction::Right), Pos::new(3, 5));
    assert_eq!(Pos::new(3, 4).advance(Direction::Up), Pos::new(2, 4));
    assert_eq!(Pos::new(3, 4).advance(Direction::Down), Pos::new(4, 4));
    assert_eq!(Direction::default(), Direction::Right);
    assert_eq!(Pos::default(), Pos::new(0, 0));
}

#[test]
fn pointer_wraps_while_running() {
    assert_eq!(run_src("<@.7"), "7 ");
    assert_eq!(run_src("^\n@\n.\n8"), "8 ");
}

#[test]
fn string_mode_pushes_until_the_quote() {
    assert_eq!(run_src("\"dlrow olleh\",,,,,,,,,,,@"), "hello world");
    assert_eq!(run_src("\"+\".@"), "43 ");
}

#[test]
fn put_is_seen_by_later_steps() {
    assert_eq!(run_src("796*09p  1.@"), "6 ");
    assert_eq!(run_src("96*12p12g.@"), "54 ");
}

#[test]
fn add_on_empty_stack_gives_zero() {
    assert_eq!(run_src("+.@"), "0 ");
    let mut program = Program::new("+");
    let mut input = Input::from_text("");
    let mut output = String::new();
    let status = program.step(&mut input, &mut output, Direction::Right);
    assert_eq!(status, Status::Running);
    assert_eq!(program.stack(), &vec![0]);
}

#[test]
fn get_at_and_beyond_the_last_cell() {
    assert_eq!(run_src("755*1-89*7+p55*1-89*7+g.@"), "7 ");
    assert_eq!(run_src("55*1-89*7+g.@"), "32 ");
    assert_eq!(run_src("55*89*7+g.@"), "0 ");
    assert_eq!(run_src("55*1-89*8+g.@"), "0 ");
    let program = Program::new("ab\ncd");
    assert_eq!(program.fetch(0, 0), 97);
    assert_eq!(program.fetch(1, 1), 100);
    assert_eq!(program.fetch(24, 79), 32);
    assert_eq!(program.fetch(25, 0), 0);
    assert_eq!(program.fetch(0, 80), 0);
    assert_eq!(program.fetch(65535, 65535), 0);
}

#[test]
fn arithmetic_takes_the_lower_value_as_left_operand() {
    assert_eq!(run_src("73-.@"), "4 ");
    assert_eq!(run_src("37-.@"), "65532 ");
    assert_eq!(run_src("73/.@"), "2 ");
    assert_eq!(run_src("73%.@"), "1 ");
    assert_eq!(run_src("73`.@"), "1 ");
    assert_eq!(run_src("37`.@"), "0 ");
    assert_eq!(run_src("33`.@"), "0 ");
    assert_eq!(run_src("0!.@"), "1 ");
    assert_eq!(run_src("5!.@"), "0 ");
    assert_eq!(run_src("12\\..@"), "1 2 ");
    assert_eq!(run_src("12$.@"), "1 ");
    assert_eq!(sum_of(65535, 1), 0);
    assert_eq!(sum_of(2, 3), 5);
    assert_eq!(difference_of(3, 7), 4);
    assert_eq!(difference_of(7, 3), 65532);
    assert_eq!(product_of(256, 256), 0);
    assert_eq!(product_of(65535, 65535), 1);
    assert_eq!(negation_of(0), 1);
    assert_eq!(negation_of(9), 0);
    assert_eq!(greater_of(3, 7), 1);
    assert_eq!(greater_of(7, 3), 0);
}

#[test]
fn arithmetic_wraps() {
    assert_eq!(run_src("88*8*8*8*8*.@"), "0 ");
    assert_eq!(run_src("88*8*8*8*4*:+1-1+.@"), "0 ");
}

#[test]
fn branches_pop_and_turn() {
    assert_eq!(run_src("0_1.@"), "1 ");
    assert_eq!(run_src("#@1_2.@"), "");
    assert_eq!(run_src("0|\n 3\n .\n @"), "3 ");
    assert_eq!(run_src("v\n@\n.\n4\n1\n|"), "");
}

#[test]
fn bridge_skips_one_cell() {
    assert_eq!(run_src("1#2.@"), "1 ");
}

#[test]
fn null_character_is_not_printed() {
    assert_eq!(run_src("0,@"), "");
    assert_eq!(run_src("\"a\"0\"b\",,,@"), "ba");
}

#[test]
fn division_by_zero_is_a_fault() {
    let outcome = run_with_input("7.50/.@", "");
    assert!(matches!(outcome, Outcome::Faulted(Fault::DivisionByZero, ref s) if s == "7 "));
    let outcome = run_with_input("50%.@", "");
    assert_eq!(outcome.fault(), Some(Fault::DivisionByZero));
}

#[test]
fn put_outside_the_grid_is_a_fault() {
    let outcome = run_with_input("1.155*0p@", "");
    assert!(matches!(outcome, Outcome::Faulted(Fault::PutOutOfBounds, ref s) if s == "1 "));
    let outcome = run_with_input("1089*8+p@", "");
    assert_eq!(outcome.fault(), Some(Fault::PutOutOfBounds));
    let outcome = run_with_input("155*1-89*7+p@", "");
    assert!(outcome.is_halted());
}

#[test]
fn reading_past_the_input_is_a_fault() {
    let outcome = run_with_input("~,~,@", "a");
    assert!(matches!(outcome, Outcome::Faulted(Fault::InputExhausted, ref s) if s == "a"));
    let outcome = run_with_input("&.@", "no number here");
    assert_eq!(outcome.fault(), Some(Fault::InputExhausted));
}

#[test]
fn input_is_read_from_the_front() {
    let outcome = run_with_input("&.~,&.@", " 12 x-7");
    assert_eq!(outcome.output(), "12  65529 ");
    let mut input = Input::from_text("ab 42,-100000 7-");
    assert_eq!(input.remaining(), 16);
    assert_eq!(input.read_char(), Some(b'a'));
    assert_eq!(input.read_int(), Some(42));
    assert_eq!(input.read_char(), Some(b','));
    assert_eq!(input.read_int(), Some(31072));
    assert_eq!(input.read_int(), Some(7));
    assert_eq!(input.remaining(), 1);
    assert_eq!(input.read_int(), None);
    assert_eq!(input.remaining(), 0);
    assert_eq!(input.read_char(), None);
    let mut input = Input::new(vec![b'6', b'5', b'5', b'3', b'7']);
    assert_eq!(input.read_int(), Some(1));
}

#[test]
fn a_run_is_cut_off_after_its_steps() {
    let outcome = Program::new("1.").run(Input::from_text(""), 5);
    assert!(matches!(outcome, Outcome::Aborted(ref s) if s == "1 "));
    assert!(!outcome.is_halted());
    assert_eq!(outcome.fault(), None);
}

#[test]
fn scripted_chances_decide_random_moves() {
    let src = "v  @.4\n>  ?  1.@\n   2\n   .\n   @";
    let run = |chances: Vec<Direction>| {
        Program::new(src).run_scripted(Input::from_text(""), &chances, STEPS).output()
    };
    assert_eq!(run(vec![Direction::Right]), "1 ");
    assert_eq!(run(vec![Direction::Down]), "2 ");
    assert_eq!(run(vec![Direction::Up, Direction::Right]), "");
    assert_eq!(run(vec![Direction::Left, Direction::Right]), "1 ");
    assert_eq!(run(vec![]), "1 ");
    assert_eq!(run(vec![Direction::Left, Direction::Left, Direction::Down]), "2 ");
}

#[test]
fn random_moves_take_one_of_four_directions() {
    let src = " v\n>?1.@\n 2\n .\n @";
    for _ in 0..50 {
        let out = run_src(src);
        assert!(out == "1 " || out == "2 ", "{:?}", out);
    }
}

#[test]
fn source_is_loaded_line_by_line() {
    let grid = Grid::new("ab\r\nc\n\nd\r");
    assert_eq!(grid.read(Pos::new(0, 0)).to_num(), 97);
    assert_eq!(grid.read(Pos::new(0, 1)).to_num(), 98);
    assert_eq!(grid.read(Pos::new(0, 2)).to_num(), 32);
    assert_eq!(grid.read(Pos::new(1, 0)).to_num(), 99);
    assert_eq!(grid.read(Pos::new(2, 0)).to_num(), 32);
    assert_eq!(grid.read(Pos::new(3, 0)).to_num(), 100);
    assert_eq!(grid.read(Pos::new(3, 1)).to_num(), 13);
    assert_eq!(grid.read(Pos::new(24, 79)).to_num(), 32);
}

#[test]
fn source_beyond_the_grid_is_left_out() {
    let long_line = "1".repeat(200);
    let many_lines = "2\n".repeat(60);
    let grid = Grid::new(&format!("{}\n{}", long_line, many_lines));
    assert_eq!(grid.read(Pos::new(0, 79)).to_num(), 49);
    assert_eq!(grid.read(Pos::new(1, 0)).to_num(), 50);
    assert_eq!(grid.read(Pos::new(1, 1)).to_num(), 32);
    assert_eq!(grid.read(Pos::new(24, 0)).to_num(), 50);
    let mut grid = Grid::blank();
    grid.write(Pos::new(24, 79), Cell::new(7));
    assert_eq!(grid.read(Pos::new(24, 79)).to_num(), 7);
    assert_eq!(grid.read(Pos::new(24, 78)).to_num(), 32);
    assert_eq!(Pos::checked(24, 79), Some(Pos::new(24, 79)));
    assert_eq!(Pos::checked(25, 0), None);
    assert_eq!(Pos::checked(0, 80), None);
}

#[test]
fn initial_state_and_accessors() {
    let mut program = Program::new("12\"");
    assert_eq!(program.position(), Pos::new(0, 0));
    assert_eq!(program.direction(), Direction::Right);
    assert!(!program.in_string_mode());
    assert!(program.stack().is_empty());
    assert_eq!(program.next_pos(), Pos::new(0, 1));
    assert_eq!(program.next_cell().to_num(), 50);
    assert!(!program.wants_chance());
    program.push(5);
    program.push(6);
    assert_eq!(program.print_stack(), "5 6");
    program.op2(sum_of);
    assert_eq!(program.print_stack(), "11");
    program.op1(negation_of);
    assert_eq!(program.pop(), 0);
    assert_eq!(program.pop(), 0);
    assert_eq!(program.print_stack(), "");
    program.insert(Pos::new(2, 2), Cell::from_char('?'));
    assert_eq!(program.get(Pos::new(2, 2)).to_token(), Some(Token::MoveRandom));
    assert!(Program::new("?").wants_chance());
}
