use esolangs::malbolge::{crazy, crazy_digit, Cell, Program, Ternary, LOADED, SIZE};

fn ternary_of(text: &str) -> Ternary {
    Ternary::parse(text).unwrap()
}

#[test]
fn ternary() {
    let forty_two = ternary_of("1120");
    assert_eq!(Some(42 as Cell), forty_two.to_cell());
    let x = ternary_of("0001112220");
    assert_eq!(Some(1131 as Cell), x.to_cell());
}

#[test]
fn from_ternary() {
    let forty_two = Ternary::new(42);
    assert_eq!(forty_two.digits, vec![1, 1, 2, 0]);
    let x = Ternary::new(1131);
    assert_eq!(x.digits, vec![1, 1, 1, 2, 2, 2, 0]);
    let x = Ternary::new(11355);
    assert_eq!(x.digits, vec![1, 2, 0, 1, 2, 0, 1, 2, 0]);
    let x = Ternary::new(20650);
    assert_eq!(x.digits, vec![1, 0, 0, 1, 0, 2, 2, 2, 1, 1]);
}

#[test]
fn crazy_test() {
    let input1 = ternary_of("0001112220");
    let input2 = ternary_of("0120120120");
    let res = crazy(&input1, &input2);
    assert_eq!(res, ternary_of("1001022211"));
}

#[test]
fn digits_and_numbers_agree() {
    for n in [0u16, 1, 2, 3, 8, 9, 26, 27, 59048, 59049, 65535] {
        assert_eq!(Ternary::new(n).to_cell(), Some(n));
    }
    assert_eq!(Ternary::new(0).digits, Vec::<u8>::new());
    assert_eq!(Ternary::new(65535).digits.len(), 11);
    assert_eq!(Ternary::from(vec![1, 0, 2]).to_cell(), Some(11));
    assert_eq!(Ternary::from(vec![]).to_cell(), Some(0));
}

#[test]
fn numbers_that_do_not_fit() {
    assert_eq!(ternary_of("10022220020").to_cell(), Some(65535));
    assert_eq!(ternary_of("10022220021").to_cell(), None);
    assert_eq!(ternary_of("22222222222").to_cell(), None);
    assert_eq!(ternary_of("00000000000000001").to_cell(), Some(1));
    assert_eq!(ternary_of("9").to_cell(), Some(9));
}

#[test]
fn only_decimal_digits_are_read() {
    assert_eq!(Ternary::parse("12a"), None);
    assert_eq!(Ternary::parse("-1"), None);
    assert_eq!(Ternary::parse("").unwrap().digits, Vec::<u8>::new());
    assert_eq!(Ternary::parse("0129").unwrap().digits, vec![0, 1, 2, 9]);
}

#[test]
fn crazy_goes_by_the_table() {
    let table = [[1, 0, 0], [1, 0, 2], [2, 2, 1]];
    for x in 0..3u8 {
        for y in 0..3u8 {
            assert_eq!(crazy_digit(x, y), table[x as usize][y as usize]);
        }
    }
    let short = crazy(&ternary_of("012"), &ternary_of("2"));
    assert_eq!(short.digits, vec![0]);
    let empty = crazy(&ternary_of(""), &ternary_of("21"));
    assert_eq!(empty.digits, Vec::<u8>::new());
}

#[test]
fn memory_is_filled_from_the_program() {
    assert_eq!(SIZE, 3usize.pow(10));
    let program = Program::new("ab".to_string()).unwrap();
    assert_eq!(program.memory.len(), LOADED);
    assert_eq!(program.memory[0], 97);
    assert_eq!(program.memory[1], 98);
    let third = crazy(&Ternary::new(98), &Ternary::new(97)).to_cell().unwrap();
    assert_eq!(program.memory[2], third);
    for i in 2..LOADED {
        let next = crazy(&Ternary::new(program.memory[i - 1]), &Ternary::new(program.memory[i - 2]));
        assert_eq!(Some(program.memory[i]), next.to_cell());
    }
    assert_eq!((program.a, program.c, program.d), (0, 0, 0));
    assert_eq!(program.src, "ab");
    assert!(Program::new("a".to_string()).is_none());
    assert!(Program::new("".to_string()).is_none());
    assert!(Program::new("x".repeat(21)).is_none());
    let full = Program::new("x".repeat(20)).unwrap();
    assert_eq!(full.memory, vec![120; 20]);
}
