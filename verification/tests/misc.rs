use esolangs::aemkei::{digit, spell, GLOBAL, MAX, MIN};
use esolangs::iter_utils::IteratorUtils;

fn by_prepending(n: u32) -> String {
    let mut output = "+[]".to_string();
    if n > 0 {
        output = "+!".to_string() + &output;
    }
    for _ in 1..n {
        output = "+!+[]".to_string() + &output;
    }
    if n > 1 {
        output = (&output[1..]).to_string()
    }
    output
}

#[test]
fn digits_are_sums_of_ones() {
    assert_eq!(digit(0), "+[]");
    assert_eq!(digit(1), "+!+[]");
    assert_eq!(digit(2), "!+[]+!+[]");
    assert_eq!(digit(3), "!+[]+!+[]+!+[]");
    for n in 0..12 {
        assert_eq!(digit(n), by_prepending(n));
    }
}

#[test]
fn numbers_are_spelled_digit_by_digit() {
    assert_eq!(spell("101").unwrap(), "+!+[]+0+1");
    assert_eq!(spell("20").unwrap(), "!+[]+!+[]+0");
    assert_eq!(spell("7").unwrap(), digit(7));
    assert_eq!(spell("0x").unwrap(), "+[]+x");
    assert_eq!(spell(""), None);
    assert_eq!(spell("x1"), None);
    assert_eq!((MIN, MAX), (32, 126));
    assert_eq!(GLOBAL, "Function(\"return this\")()");
}

#[test]
fn an_iterator_is_gathered_in_order() {
    assert_eq!((0..4).collect_vec(), vec![0, 1, 2, 3]);
    assert_eq!("abc".chars().collect_vec(), vec!['a', 'b', 'c']);
    assert_eq!(Vec::<u8>::new().into_iter().collect_vec(), Vec::<u8>::new());
    assert_eq!([1, 2, 3].iter().map(|x| x * 2).collect_vec(), vec![2, 4, 6]);
}
