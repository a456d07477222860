//! A language written in spaces, tabs and line feeds: its instructions, the
//! reading of a program text, and the machine that runs it.

pub mod input;
pub mod interpreter;
pub mod pairs;
pub mod parse;
pub mod program;
pub mod syntax;
pub mod tokens;

pub use crate::whitespace::program::{LabelMap, Program};

use vstd::prelude::*;
use crate::text::chars_of;

verus! {

/// A thing that can say in visible letters what it is.
pub trait Describe {
    /// The description.
    spec fn spec_describe(&self) -> Seq<char>;

    /// The description.
    fn describe(&self) -> (s: String)
        ensures
            s@ == self.spec_describe(),
    ;
}

/// The visible letter for a character of a program: `S` for a space, `T`
/// for a tab, `L` for a line feed, and nothing for any other character.
pub open spec fn spec_visible_char(c: char) -> Option<char> {
    if c == ' ' {
        Some('S')
    } else if c == '\t' {
        Some('T')
    } else if c == '\n' {
        Some('L')
    } else {
        None
    }
}

/// A program text in visible letters: every space, tab and line feed by its
/// letter, and every other character left out.
pub open spec fn spec_to_visible(input: Seq<char>) -> Seq<char>
    decreases input.len(),
{
    if input.len() == 0 {
        Seq::empty()
    } else {
        match spec_visible_char(input.last()) {
            Some(c) => spec_to_visible(input.drop_last()).push(c),
            None => spec_to_visible(input.drop_last()),
        }
    }
}

/// The capital letter for a small letter of the alphabet; any other
/// character as it is.
pub open spec fn spec_upper(c: char) -> char {
    if 'a' <= c && c <= 'z' {
        ((c as u8) - 32) as char
    } else {
        c
    }
}

/// What a character of a visible text becomes: a letter `S`, `T` or `L`,
/// small or capital, becomes a space, a tab or a line feed; spaces, tabs,
/// line feeds and carriage returns are left out; any other character stays,
/// a small letter as its capital.
pub open spec fn spec_invisible_char(c: char) -> Option<char> {
    let u = spec_upper(c);
    if u == '\r' || u == '\t' || u == '\n' || u == ' ' {
        None
    } else if u == 'S' {
        Some(' ')
    } else if u == 'T' {
        Some('\t')
    } else if u == 'L' {
        Some('\n')
    } else {
        Some(u)
    }
}

/// A visible text turned back into a program text, character by character.
pub open spec fn spec_to_invisible(input: Seq<char>) -> Seq<char>
    decreases input.len(),
{
    if input.len() == 0 {
        Seq::empty()
    } else {
        match spec_invisible_char(input.last()) {
            Some(c) => spec_to_invisible(input.drop_last()).push(c),
            None => spec_to_invisible(input.drop_last()),
        }
    }
}

/// Writes a program text in visible letters.
#[must_use]
pub fn to_visible(input: &str) -> (out: String)
    ensures
        out@ == spec_to_visible(input@),
{
    let chars = chars_of(input);
    let mut out = String::new();
    let mut i: usize = 0;
    while i < chars.len()
        invariant
            i <= chars@.len(),
            chars@ == input@,
            out@ == spec_to_visible(chars@.take(i as int)),
        decreases chars@.len() - i,
    {
        proof {
            assert(chars@.take(i + 1).drop_last() =~= chars@.take(i as int));
        }
        let c = chars[i];
        if c == ' ' {
            out.push('S');
        } else if c == '\t' {
            out.push('T');
        } else if c == '\n' {
            out.push('L');
        }
        i = i + 1;
    }
    proof {
        assert(chars@.take(i as int) =~= input@);
    }
    out
}

/// Turns a visible text back into a program text.
#[must_use]
pub fn to_invisible(input: &str) -> (out: String)
    ensures
        out@ == spec_to_invisible(input@),
{
    let chars = chars_of(input);
    let mut out = String::new();
    let mut i: usize = 0;
    while i < chars.len()
        invariant
            i <= chars@.len(),
            chars@ == input@,
            out@ == spec_to_invisible(chars@.take(i as int)),
        decreases chars@.len() - i,
    {
        proof {
            assert(chars@.take(i + 1).drop_last() =~= chars@.take(i as int));
        }
        let c = chars[i];
        let u = if 'a' <= c && c <= 'z' {
            ((c as u8) - 32) as char
        } else {
            c
        };
        if u == '\r' || u == '\t' || u == '\n' || u == ' ' {
        } else if u == 'S' {
            out.push(' ');
        } else if u == 'T' {
            out.push('\t');
        } else if u == 'L' {
            out.push('\n');
        } else {
            out.push(u);
        }
        i = i + 1;
    }
    proof {
        assert(chars@.take(i as int) =~= input@);
    }
    out
}

} // verus!
