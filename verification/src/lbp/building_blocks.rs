//! Writing JavaScript with the characters `+ ! [ ] ( ) { } / = > -` alone:
//! numbers, single characters, strings and whole programs.

use vstd::prelude::*;
use vstd::string::StringExecFns;
use crate::text::chars_of;

verus! {

pub const ZERO: &'static str = "+[]";

pub const ONE: &'static str = "+!![]";

pub const FALSE: &'static str = "![]+[]";

pub const TRUE: &'static str = "!![]+[]";

pub const OBJECT: &'static str = "{}+[]";

pub const NAN: &'static str = "+{}+[]";

pub const ARROW_FN: &'static str = "()=>{}";

pub const INFINITY: &'static str = "(+!![]/+[])+[]";

pub const EMPTY_STR: &'static str = "[]+[]";

/// The deepest level of the character table: at level 0 stand the characters
/// that are read off constant values, and each further level is written
/// with the help of the level before it.
pub const LEVELS: u8 = 2;

/// The expression for the number `n`: zero as it stands, and any other
/// number as a sum of ones.
pub open spec fn spec_number(n: nat) -> Seq<char>
    decreases n,
{
    if n == 0 {
        ZERO@
    } else if n == 1 {
        ONE@
    } else {
        spec_number((n - 1) as nat) + " + "@ + ONE@
    }
}

/// The expression that takes character `n` of the text that `base` evaluates to.
pub open spec fn spec_indexed(base: Seq<char>, n: nat) -> Seq<char> {
    "("@ + base + ")["@ + spec_number(n) + "]"@
}

/// The expression that takes character `n` of the name of the constructor
/// that the expression `owner` has.
pub open spec fn spec_constructor_char(owner: Seq<char>, constructor: Seq<char>, n: nat) -> Seq<
    char,
> {
    "([]+("@ + owner + ")["@ + constructor + "])["@ + spec_number(n) + "]"@
}

/// The expression that writes the number `n` in base `base` as text.
pub open spec fn spec_number_base(n: nat, to_string: Seq<char>, base: nat) -> Seq<char> {
    "("@ + spec_number(n) + ")["@ + to_string + "]("@ + spec_number(base) + ")"@
}

/// The entry of the character table for `c` at `level`, where it has one.
pub open spec fn spec_entry(c: char, level: nat) -> Option<Seq<char>>
    decreases level, 0nat,
{
    if c == 'a' {
        Some(spec_indexed(NAN@, 1))
    } else if c == 'o' {
        Some(spec_indexed(OBJECT@, 1))
    } else if c == 'b' {
        Some(spec_indexed(OBJECT@, 2))
    } else if c == 'j' {
        Some(spec_indexed(OBJECT@, 3))
    } else if c == 'e' {
        Some(spec_indexed(OBJECT@, 4))
    } else if c == 'c' {
        Some(spec_indexed(OBJECT@, 5))
    } else if c == 't' {
        Some(spec_indexed(OBJECT@, 6))
    } else if c == ' ' {
        Some(spec_indexed(OBJECT@, 7))
    } else if c == 'f' {
        Some(spec_indexed(FALSE@, 0))
    } else if c == 's' {
        Some(spec_indexed(FALSE@, 3))
    } else if c == 'r' {
        Some(spec_indexed(TRUE@, 1))
    } else if c == 'u' {
        Some(spec_indexed(TRUE@, 2))
    } else if c == 'i' {
        Some(spec_indexed(INFINITY@, 3))
    } else if c == 'n' {
        Some(spec_indexed(INFINITY@, 4))
    } else if level == 0 {
        None
    } else if c == 'S' {
        Some(
            spec_constructor_char(
                EMPTY_STR@,
                spec_mapped("constructor"@, (level - 1) as nat),
                9,
            ),
        )
    } else if c == 'g' {
        Some(
            spec_constructor_char(
                EMPTY_STR@,
                spec_mapped("constructor"@, (level - 1) as nat),
                14,
            ),
        )
    } else if c == 'p' {
        Some(spec_constructor_char("/-/"@, spec_mapped("constructor"@, (level - 1) as nat), 14))
    } else if c == '\\' {
        Some("(/\\\\/+[])["@ + spec_number(1) + "]"@)
    } else if level == 1 {
        None
    } else if c == 'd' {
        Some(spec_number_base(13, spec_mapped("toString"@, (level - 1) as nat), 14))
    } else if c == 'h' {
        Some(spec_number_base(17, spec_mapped("toString"@, (level - 1) as nat), 18))
    } else if c == 'm' {
        Some(spec_number_base(22, spec_mapped("toString"@, (level - 1) as nat), 23))
    } else if c == 'C' {
        Some(
            "(("@ + ARROW_FN@ + ")["@ + spec_mapped("constructor"@, (level - 1) as nat) + "]("@
                + spec_mapped("return escape"@, (level - 1) as nat) + ")()("@ + spec_mapped(
                "\\"@,
                (level - 1) as nat,
            ) + "))["@ + spec_number(2) + "]"@,
        )
    } else {
        None
    }
}

/// The entries of the characters of `text` at `level`, with a plus sign
/// between two neighbours. A character without an entry adds nothing.
pub open spec fn spec_mapped(text: Seq<char>, level: nat) -> Seq<char>
    decreases level, text.len() + 1,
{
    if text.len() == 0 {
        Seq::empty()
    } else {
        let last = match spec_entry(text.last(), level) {
            Some(e) => e,
            None => Seq::empty(),
        };
        if text.len() == 1 {
            last
        } else {
            spec_mapped(text.drop_last(), level) + "+"@ + last
        }
    }
}

/// The expression for a character that the table does not hold: the
/// character with that code, made by the string constructor.
pub open spec fn spec_from_char_code(c: char) -> Seq<char> {
    "("@ + EMPTY_STR@ + ")["@ + spec_mapped("constructor"@, LEVELS as nat) + "]["@ + spec_mapped(
        "fromCharCode"@,
        LEVELS as nat,
    ) + "]("@ + spec_number(c as nat) + ")"@
}

/// The expression for the character `c`: its entry in the table, or the
/// character made from its code.
pub open spec fn spec_char(c: char) -> Seq<char> {
    match spec_entry(c, LEVELS as nat) {
        Some(e) => e,
        None => spec_from_char_code(c),
    }
}

/// The expression for the text `s`: the expressions of its characters with
/// a plus sign between two neighbours.
pub open spec fn spec_string(s: Seq<char>) -> Seq<char>
    decreases s.len(),
{
    if s.len() == 0 {
        Seq::empty()
    } else if s.len() == 1 {
        spec_char(s[0])
    } else {
        spec_string(s.drop_last()) + "+"@ + spec_char(s.last())
    }
}

/// The expression that runs the JavaScript program `code`.
pub open spec fn spec_compile(code: Seq<char>) -> Seq<char> {
    "("@ + ARROW_FN@ + ")["@ + spec_string("constructor"@) + "]("@ + spec_string(code) + ")()"@
}

/// The expression that evaluates to the number `n`: `+[]` for zero, and
/// for any other number `+!![]` as often as `n` says, joined by ` + `.
pub fn number(n: usize) -> (s: String)
    ensures
        s@ == spec_number(n as nat),
{
    if n == 0 {
        return String::from_str(ZERO);
    }
    let mut s = String::from_str(ONE);
    let mut i: usize = 1;
    while i < n
        invariant
            1 <= i <= n,
            s@ == spec_number(i as nat),
        decreases n - i,
    {
        s.append(" + ");
        s.append(ONE);
        i = i + 1;
    }
    s
}

/// The expression that takes character `n` of the text that `base` evaluates to.
fn indexed(base: &str, n: usize) -> (s: String)
    ensures
        s@ == spec_indexed(base@, n as nat),
{
    let mut s = String::from_str("(");
    s.append(base);
    s.append(")[");
    s.append(number(n).as_str());
    s.append("]");
    s
}

/// The expression that takes character `n` of the name of the constructor
/// that the expression `owner` has.
fn constructor_char(owner: &str, constructor: &str, n: usize) -> (s: String)
    ensures
        s@ == spec_constructor_char(owner@, constructor@, n as nat),
{
    let mut s = String::from_str("([]+(");
    s.append(owner);
    s.append(")[");
    s.append(constructor);
    s.append("])[");
    s.append(number(n).as_str());
    s.append("]");
    s
}

/// The expression that writes the number `n` in base `base` as text.
fn number_base(n: usize, to_string: &str, base: usize) -> (s: String)
    ensures
        s@ == spec_number_base(n as nat, to_string@, base as nat),
{
    let mut s = String::from_str("(");
    s.append(number(n).as_str());
    s.append(")[");
    s.append(to_string);
    s.append("](");
    s.append(number(base).as_str());
    s.append(")");
    s
}

/// The entry of the character table for `c` at `level`, where it has one.
pub fn entry(c: char, level: u8) -> (r: Option<String>)
    ensures
        match r {
            Some(s) => spec_entry(c, level as nat) == Some(s@),
            None => spec_entry(c, level as nat) is None,
        },
    decreases level, 0nat,
{
    if c == 'a' {
        Some(indexed(NAN, 1))
    } else if c == 'o' {
        Some(indexed(OBJECT, 1))
    } else if c == 'b' {
        Some(indexed(OBJECT, 2))
    } else if c == 'j' {
        Some(indexed(OBJECT, 3))
    } else if c == 'e' {
        Some(indexed(OBJECT, 4))
    } else if c == 'c' {
        Some(indexed(OBJECT, 5))
    } else if c == 't' {
        Some(indexed(OBJECT, 6))
    } else if c == ' ' {
        Some(indexed(OBJECT, 7))
    } else if c == 'f' {
        Some(indexed(FALSE, 0))
    } else if c == 's' {
        Some(indexed(FALSE, 3))
    } else if c == 'r' {
        Some(indexed(TRUE, 1))
    } else if c == 'u' {
        Some(indexed(TRUE, 2))
    } else if c == 'i' {
        Some(indexed(INFINITY, 3))
    } else if c == 'n' {
        Some(indexed(INFINITY, 4))
    } else if level == 0 {
        None
    } else if c == 'S' {
        let constructor = mapped("constructor", level - 1);
        Some(constructor_char(EMPTY_STR, constructor.as_str(), 9))
    } else if c == 'g' {
        let constructor = mapped("constructor", level - 1);
        Some(constructor_char(EMPTY_STR, constructor.as_str(), 14))
    } else if c == 'p' {
        let constructor = mapped("constructor", level - 1);
        Some(constructor_char("/-/", constructor.as_str(), 14))
    } else if c == '\\' {
        let mut s = String::from_str("(/\\\\/+[])[");
        s.append(number(1).as_str());
        s.append("]");
        Some(s)
    } else if level == 1 {
        None
    } else if c == 'd' {
        let to_string = mapped("toString", level - 1);
        Some(number_base(13, to_string.as_str(), 14))
    } else if c == 'h' {
        let to_string = mapped("toString", level - 1);
        Some(number_base(17, to_string.as_str(), 18))
    } else if c == 'm' {
        let to_string = mapped("toString", level - 1);
        Some(number_base(22, to_string.as_str(), 23))
    } else if c == 'C' {
        let mut s = String::from_str("((");
        s.append(ARROW_FN);
        s.append(")[");
        s.append(mapped("constructor", level - 1).as_str());
        s.append("](");
        s.append(mapped("return escape", level - 1).as_str());
        s.append(")()(");
        s.append(mapped("\\", level - 1).as_str());
        s.append("))[");
        s.append(number(2).as_str());
        s.append("]");
        Some(s)
    } else {
        None
    }
}

/// The entries of the characters of `text` at `level`, with a plus sign
/// between two neighbours. A character without an entry adds nothing.
pub fn mapped(text: &str, level: u8) -> (s: String)
    ensures
        s@ == spec_mapped(text@, level as nat),
    decreases level, text@.len() + 1,
{
    let chars = chars_of(text);
    let mut s = String::new();
    let mut i: usize = 0;
    while i < chars.len()
        invariant
            i <= chars@.len(),
            chars@ == text@,
            s@ == spec_mapped(chars@.take(i as int), level as nat),
        decreases chars@.len() - i,
    {
        proof {
            assert(chars@.take(i + 1).drop_last() =~= chars@.take(i as int));
            assert(chars@.take(i + 1).last() == chars@[i as int]);
        }
        if i > 0 {
            s.append("+");
        }
        match entry(chars[i], level) {
            Some(e) => {
                s.append(e.as_str());
            },
            None => {
                proof {
                    assert(s@ + Seq::<char>::empty() =~= s@);
                }
            },
        }
        proof {
            if i == 0 {
                let last = match spec_entry(chars@[0], level as nat) {
                    Some(e) => e,
                    None => Seq::<char>::empty(),
                };
                assert(Seq::<char>::empty() + last =~= last);
            }
        }
        i = i + 1;
    }
    proof {
        assert(chars@.take(i as int) =~= text@);
    }
    s
}

/// The entry of the character table for `c`, where it has one.
pub fn lookup(c: char) -> (r: Option<String>)
    ensures
        match r {
            Some(s) => spec_entry(c, LEVELS as nat) == Some(s@),
            None => spec_entry(c, LEVELS as nat) is None,
        },
{
    entry(c, LEVELS)
}

/// The expression for one character: its entry in the table, or the
/// character made from its code.
pub fn character(c: char) -> (s: String)
    ensures
        s@ == spec_char(c),
{
    match entry(c, LEVELS) {
        Some(s) => s,
        None => {
            let mut s = String::from_str("(");
            s.append(EMPTY_STR);
            s.append(")[");
            s.append(mapped("constructor", LEVELS).as_str());
            s.append("][");
            s.append(mapped("fromCharCode", LEVELS).as_str());
            s.append("](");
            s.append(number(c as u32 as usize).as_str());
            s.append(")");
            s
        },
    }
}

/// The expression that evaluates to the text `s`.
pub fn string(s: &str) -> (out: String)
    ensures
        out@ == spec_string(s@),
{
    let chars = chars_of(s);
    let mut out = String::new();
    let mut i: usize = 0;
    while i < chars.len()
        invariant
            i <= chars@.len(),
            chars@ == s@,
            out@ == spec_string(chars@.take(i as int)),
        decreases chars@.len() - i,
    {
        proof {
            assert(chars@.take(i + 1).drop_last() =~= chars@.take(i as int));
            assert(chars@.take(i + 1).last() == chars@[i as int]);
            if i == 0 {
                assert(Seq::<char>::empty() + spec_char(chars@[0]) =~= spec_char(chars@[0]));
                assert(chars@.take(1)[0] == chars@[0]);
            }
        }
        if i > 0 {
            out.append("+");
        }
        out.append(character(chars[i]).as_str());
        i = i + 1;
    }
    proof {
        assert(chars@.take(i as int) =~= s@);
    }
    out
}

/// Compile a JavaScript expression into these few characters.
pub fn compile(code: &str) -> (out: String)
    ensures
        out@ == spec_compile(code@),
{
    let mut out = String::from_str("(");
    out.append(ARROW_FN);
    out.append(")[");
    out.append(string("constructor").as_str());
    out.append("](");
    out.append(string(code).as_str());
    out.append(")()");
    out
}

} // verus!
