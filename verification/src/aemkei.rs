//! Numbers written with the characters `+ ! [ ]` alone.

use vstd::prelude::*;
use vstd::string::StringExecFns;
use crate::text::chars_of;

verus! {

/// The code of the first character that has an expression of its own.
pub const MIN: u8 = 32;

/// The code of the last character that has an expression of its own.
pub const MAX: u8 = 126;

/// The expression that evaluates to the global object.
pub const GLOBAL: &'static str = "Function(\"return this\")()";

/// `n` times the expression that adds one.
pub open spec fn spec_ones(n: nat) -> Seq<char>
    decreases n,
{
    if n == 0 {
        Seq::empty()
    } else {
        spec_ones((n - 1) as nat) + "+!+[]"@
    }
}

/// The expression for the number `n`: `+[]` for zero and `+!+[]` for one;
/// a greater number is a sum of ones that begins without the plus sign.
pub open spec fn spec_digit(n: nat) -> Seq<char> {
    if n == 0 {
        "+[]"@
    } else if n == 1 {
        "+!+[]"@
    } else {
        "!+[]"@ + spec_ones((n - 1) as nat)
    }
}

/// The expression for the number `n`.
pub fn digit(n: u32) -> (s: String)
    ensures
        s@ == spec_digit(n as nat),
{
    if n == 0 {
        return String::from_str("+[]");
    }
    if n == 1 {
        return String::from_str("+!+[]");
    }
    let mut s = String::from_str("!+[]");
    let mut i: u32 = 1;
    proof {
        assert("!+[]"@ + spec_ones(0) =~= "!+[]"@);
    }
    while i < n
        invariant
            1 <= i <= n,
            s@ == "!+[]"@ + spec_ones((i - 1) as nat),
        decreases n - i,
    {
        s.append("+!+[]");
        proof {
            assert("!+[]"@ + spec_ones((i - 1) as nat) + "+!+[]"@ =~= "!+[]"@ + (spec_ones(
                (i - 1) as nat,
            ) + "+!+[]"@));
        }
        i = i + 1;
    }
    s
}

/// The characters of `text` from the second on, each behind a plus sign.
pub open spec fn spec_tail(text: Seq<char>, k: int) -> Seq<char>
    decreases k,
{
    if k <= 1 {
        Seq::empty()
    } else {
        spec_tail(text, k - 1) + "+"@ + seq![text[k - 1]]
    }
}

/// A number of several digits spelled out: the expression for its first
/// digit, and each further digit as it stands behind a plus sign. Nothing
/// where the text is empty or does not begin with a digit.
pub open spec fn spec_spell(digits: Seq<char>) -> Option<Seq<char>> {
    if digits.len() > 0 && '0' <= digits[0] <= '9' {
        Some(spec_digit((digits[0] as u8 - 48) as nat) + spec_tail(digits, digits.len() as int))
    } else {
        None
    }
}

/// Spells out a number of several digits.
pub fn spell(digits: &str) -> (r: Option<String>)
    ensures
        match r {
            Some(s) => spec_spell(digits@) == Some(s@),
            None => spec_spell(digits@) is None,
        },
{
    let chars = chars_of(digits);
    if chars.len() == 0 {
        return None;
    }
    let head = chars[0];
    if !('0' <= head && head <= '9') {
        return None;
    }
    let code: u32 = head as u32;
    let mut s = digit(code - 48);
    let ghost first = s@;
    let mut k: usize = 1;
    proof {
        assert(first + spec_tail(chars@, 1) =~= first);
    }
    while k < chars.len()
        invariant
            1 <= k <= chars@.len(),
            s@ == first + spec_tail(chars@, k as int),
        decreases chars@.len() - k,
    {
        s.append("+");
        s.push(chars[k]);
        proof {
            let tail = spec_tail(chars@, k as int);
            assert((first + tail + "+"@).push(chars@[k as int]) =~= first + (tail + "+"@
                + seq![chars@[k as int]]));
        }
        k = k + 1;
    }
    Some(s)
}

} // verus!
