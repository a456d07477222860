//! An input that is a text in memory, read from the front.

use vstd::prelude::*;
use crate::befunge::input::{
    spec_digit_run, spec_gap, spec_number, spec_read_byte, starts_number,
};
use crate::whitespace::interpreter::Readable;
use crate::whitespace::tokens::NumType;

verus! {

/// Reading one character: the first byte as a character and the rest, or
/// the null character from an empty input.
pub open spec fn spec_next_char(s: Seq<u8>) -> (char, Seq<u8>) {
    match spec_read_byte(s).0 {
        Some(b) => (b as char, spec_read_byte(s).1),
        None => ('\0', s),
    }
}

/// Reading one number. Whatever stands before the first number is passed
/// over. The number is an optional minus sign and all the digits that
/// follow one another; a number that does not fit counts as zero, and so
/// does an input that holds no number. The second part of the result is
/// what is left unread: all that follows the last digit, or nothing where
/// no number was found.
pub open spec fn spec_next_num(s: Seq<u8>) -> (NumType, Seq<u8>) {
    let gap = spec_gap(s) as int;
    if gap >= s.len() {
        (0, Seq::empty())
    } else {
        let negative = s[gap] == 45;
        let first = if negative {
            gap + 1
        } else {
            gap
        };
        let count = spec_digit_run(s.skip(first)) as int;
        let magnitude = spec_number(s.subrange(first, first + count));
        let value = if magnitude > NumType::MAX {
            0
        } else if negative {
            (0 - magnitude) as NumType
        } else {
            magnitude as NumType
        };
        (value, s.skip(first + count))
    }
}

/// A text that a run reads, and how far it has read it.
#[derive(Debug)]
pub struct TextInput {
    bytes: Vec<u8>,
    cursor: usize,
}

impl View for TextInput {
    type V = Seq<u8>;

    /// The bytes that are still unread.
    closed spec fn view(&self) -> Seq<u8> {
        if self.cursor <= self.bytes@.len() {
            self.bytes@.skip(self.cursor as int)
        } else {
            Seq::empty()
        }
    }
}

impl TextInput {
    /// An input that holds `bytes`, all of them unread.
    pub fn new(bytes: Vec<u8>) -> (r: Self)
        ensures
            r@ == bytes@,
    {
        TextInput { bytes, cursor: 0 }
    }

    /// How many bytes are still unread.
    pub fn remaining(&self) -> (n: usize)
        ensures
            n == self@.len(),
    {
        if self.cursor <= self.bytes.len() {
            self.bytes.len() - self.cursor
        } else {
            0
        }
    }

    /// Takes the next character; the null character where nothing is left.
    pub fn next_char(&mut self) -> (c: char)
        ensures
            c == spec_next_char(old(self)@).0,
            final(self)@ == spec_next_char(old(self)@).1,
    {
        if self.cursor < self.bytes.len() {
            let b = self.bytes[self.cursor];
            self.cursor = self.cursor + 1;
            assert(self.bytes@.skip(self.cursor as int) =~= self.bytes@.skip(
                self.cursor - 1,
            ).drop_first());
            b as char
        } else {
            '\0'
        }
    }

    /// Whether a number starts at byte `i` of the buffer.
    fn number_at(&self, i: usize) -> (b: bool)
        requires
            i < self.bytes@.len(),
        ensures
            b == starts_number(self.bytes@.skip(i as int)),
    {
        let first = self.bytes[i];
        if 48 <= first && first <= 57 {
            true
        } else if first == 45 && self.bytes.len() - i > 1 {
            let second = self.bytes[i + 1];
            48 <= second && second <= 57
        } else {
            false
        }
    }

    /// Takes the next number; zero where the unread bytes hold no number,
    /// and all of them are then read.
    pub fn next_num(&mut self) -> (r: NumType)
        ensures
            r == spec_next_num(old(self)@).0,
            final(self)@ =~= spec_next_num(old(self)@).1,
    {
        let len = self.bytes.len();
        if self.cursor >= len {
            self.cursor = len;
            return 0;
        }
        let ghost s = self@;
        let start = self.cursor;
        let mut i: usize = self.cursor;
        while i < len && !self.number_at(i)
            invariant
                start <= i <= len,
                len == self.bytes@.len(),
                self.cursor == start,
                s == self.bytes@.skip(start as int),
                spec_gap(s) == (i - start) + spec_gap(self.bytes@.skip(i as int)),
            decreases len - i,
        {
            proof {
                assert(self.bytes@.skip(i as int).drop_first() =~= self.bytes@.skip(i + 1));
            }
            i = i + 1;
        }
        if i >= len {
            self.cursor = len;
            return 0;
        }
        assert(s[i - start] == self.bytes@[i as int]);
        let negative = self.bytes[i] == 45;
        let first: usize = if negative {
            i + 1
        } else {
            i
        };
        let limit: usize = NumType::MAX as usize;
        let mut j: usize = first;
        let mut acc: usize = 0;
        let mut fits: bool = true;
        proof {
            assert(self.bytes@.subrange(first as int, first as int) =~= Seq::<u8>::empty());
        }
        while j < len && 48 <= self.bytes[j] && self.bytes[j] <= 57
            invariant
                first <= j <= len,
                len == self.bytes@.len(),
                limit == NumType::MAX,
                fits ==> acc == spec_number(self.bytes@.subrange(first as int, j as int)),
                fits ==> acc <= limit,
                !fits ==> spec_number(self.bytes@.subrange(first as int, j as int)) > limit,
                spec_digit_run(self.bytes@.skip(first as int)) == (j - first) + spec_digit_run(
                    self.bytes@.skip(j as int),
                ),
            decreases len - j,
        {
            let d: usize = (self.bytes[j] - 48) as usize;
            proof {
                let before = self.bytes@.subrange(first as int, j as int);
                let after = self.bytes@.subrange(first as int, j + 1);
                assert(after.drop_last() =~= before);
                assert(after.last() == self.bytes@[j as int]);
                assert(self.bytes@.skip(j as int).drop_first() =~= self.bytes@.skip(j + 1));
                assert(spec_number(after) == spec_number(before) * 10 + d);
            }
            if fits && acc <= (limit - d) / 10 {
                acc = acc * 10 + d;
            } else {
                fits = false;
            }
            j = j + 1;
        }
        self.cursor = j;
        proof {
            let f = (first - start) as int;
            let count = (j - first) as int;
            assert(s.skip(f) =~= self.bytes@.skip(first as int));
            assert(spec_digit_run(self.bytes@.skip(j as int)) == 0);
            assert(s.subrange(f, f + count) =~= self.bytes@.subrange(first as int, j as int));
            assert(s.skip(f + count) =~= self.bytes@.skip(j as int));
        }
        if !fits {
            0
        } else if negative {
            0 - (acc as NumType)
        } else {
            acc as NumType
        }
    }
}

impl Readable for TextInput {
    /// Takes the next character, as `next_char` does.
    fn read_char(&mut self) -> (c: char)
        ensures
            c == spec_next_char(old(self)@).0,
            final(self)@ == spec_next_char(old(self)@).1,
    {
        self.next_char()
    }

    /// Takes the next number, as `next_num` does.
    fn read_num(&mut self) -> (r: NumType)
        ensures
            r == spec_next_num(old(self)@).0,
            final(self)@ == spec_next_num(old(self)@).1,
    {
        self.next_num()
    }
}

} // verus!
