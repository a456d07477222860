//! The input of a run: a buffer of bytes that the machine reads from the front.

use vstd::prelude::*;
use vstd::arithmetic::div_mod::{lemma_add_mod_noop, lemma_mul_mod_noop_left};
use vstd::string::{StrSliceExecFns, StringSliceAdditionalSpecFns};
use crate::befunge::tokens::Data;

verus! {

/// Whether `b` is the code of a decimal digit.
pub open spec fn is_digit(b: u8) -> bool {
    48 <= b <= 57
}

/// Whether a number starts at the front of `s`: a digit, or a minus sign with
/// a digit behind it.
pub open spec fn starts_number(s: Seq<u8>) -> bool {
    s.len() > 0 && (is_digit(s[0]) || (s[0] == 45 && s.len() > 1 && is_digit(s[1])))
}

/// How many bytes at the front of `s` stand before the first number; the
/// length of `s` where it holds no number.
pub open spec fn spec_gap(s: Seq<u8>) -> nat
    decreases s.len(),
{
    if s.len() == 0 || starts_number(s) {
        0
    } else {
        1 + spec_gap(s.drop_first())
    }
}

/// How many digits stand at the front of `s`.
pub open spec fn spec_digit_run(s: Seq<u8>) -> nat
    decreases s.len(),
{
    if s.len() > 0 && is_digit(s[0]) {
        1 + spec_digit_run(s.drop_first())
    } else {
        0
    }
}

/// The number that the decimal digits `s` write.
pub open spec fn spec_number(s: Seq<u8>) -> nat
    decreases s.len(),
{
    if s.len() == 0 {
        0
    } else {
        spec_number(s.drop_last()) * 10 + (s.last() - 48) as nat
    }
}

/// Reading one byte: the first byte and the rest, or nothing from an empty input.
pub open spec fn spec_read_byte(s: Seq<u8>) -> (Option<u8>, Seq<u8>) {
    if s.len() > 0 {
        (Some(s[0]), s.drop_first())
    } else {
        (None, s)
    }
}

/// Reading one integer. Whatever stands before the first number is passed
/// over. The number is an optional minus sign and all the digits that follow
/// one another; its value is cut to the width of `Data`, a negative one
/// counted down from zero. The second part of the result is what is left
/// unread: all that follows the last digit, or nothing where no number was found.
pub open spec fn spec_read_int(s: Seq<u8>) -> (Option<Data>, Seq<u8>) {
    let gap = spec_gap(s) as int;
    if gap >= s.len() {
        (None, Seq::empty())
    } else {
        let negative = s[gap] == 45;
        let first = if negative {
            gap + 1
        } else {
            gap
        };
        let count = spec_digit_run(s.skip(first)) as int;
        let magnitude = spec_number(s.subrange(first, first + count));
        let value = if negative {
            ((0 - magnitude) % 0x1_0000) as Data
        } else {
            (magnitude % 0x1_0000) as Data
        };
        (Some(value), s.skip(first + count))
    }
}

/// The bytes that a run may read, and how far it has read them.
#[derive(Debug)]
pub struct Input {
    bytes: Vec<u8>,
    cursor: usize,
}

impl View for Input {
    type V = Seq<u8>;

    /// The bytes that are still unread.
    closed spec fn view(&self) -> Seq<u8> {
        self.bytes@.skip(self.cursor as int)
    }
}

impl Input {
    /// Whether the reading position lies within the buffer.
    pub closed spec fn wf(&self) -> bool {
        self.cursor <= self.bytes@.len()
    }

    /// An input that holds `bytes`, all of them unread.
    pub fn new(bytes: Vec<u8>) -> (r: Self)
        ensures
            r.wf(),
            r@ == bytes@,
    {
        Input { bytes, cursor: 0 }
    }

    /// An input that holds the bytes of `text`.
    pub fn from_text(text: &str) -> (r: Self)
        ensures
            r.wf(),
            r@ == text.spec_bytes(),
    {
        Input { bytes: text.as_bytes_vec(), cursor: 0 }
    }

    /// How many bytes are still unread.
    pub fn remaining(&self) -> (n: usize)
        requires
            self.wf(),
        ensures
            n == self@.len(),
    {
        self.bytes.len() - self.cursor
    }

    /// Takes the next byte; `None` where nothing is left.
    pub fn read_char(&mut self) -> (r: Option<u8>)
        requires
            old(self).wf(),
        ensures
            final(self).wf(),
            r == spec_read_byte(old(self)@).0,
            final(self)@ == spec_read_byte(old(self)@).1,
    {
        if self.cursor < self.bytes.len() {
            let b = self.bytes[self.cursor];
            self.cursor = self.cursor + 1;
            assert(self.bytes@.skip(self.cursor as int) =~= self.bytes@.skip(
                self.cursor - 1,
            ).drop_first());
            Some(b)
        } else {
            None
        }
    }

    /// Takes the next integer; `None` where the unread bytes hold no number,
    /// and all of them are then read.
    pub fn read_int(&mut self) -> (r: Option<Data>)
        requires
            old(self).wf(),
        ensures
            final(self).wf(),
            r == spec_read_int(old(self)@).0,
            final(self)@ =~= spec_read_int(old(self)@).1,
    {
        let ghost s = self@;
        let start = self.cursor;
        let len = self.bytes.len();
        let mut i: usize = self.cursor;
        while i < len && !self.number_at(i)
            invariant
                start <= i <= len,
                len == self.bytes@.len(),
                self.cursor == start,
                s == self.bytes@.skip(start as int),
                spec_gap(s) == (i - start) + spec_gap(self.bytes@.skip(i as int)),
            decreases len - i,
        {
            proof {
                assert(self.bytes@.skip(i as int).drop_first() =~= self.bytes@.skip(i + 1));
            }
            i = i + 1;
        }
        if i >= len {
            self.cursor = len;
            proof {
                assert(self.bytes@.skip(len as int).len() == 0);
                assert(self@ =~= Seq::<u8>::empty());
            }
            return None;
        }
        assert(starts_number(self.bytes@.skip(i as int)));
        assert(spec_gap(s) == i - start);
        assert(s[i - start] == self.bytes@[i as int]);
        let negative = self.bytes[i] == 45;
        let first: usize = if negative {
            i + 1
        } else {
            i
        };
        let mut j: usize = first;
        let mut acc: u32 = 0;
        proof {
            assert(self.bytes@.subrange(first as int, first as int) =~= Seq::<u8>::empty());
        }
        while j < len && 48 <= self.bytes[j] && self.bytes[j] <= 57
            invariant
                first <= j <= len,
                len == self.bytes@.len(),
                acc < 0x1_0000,
                acc == spec_number(self.bytes@.subrange(first as int, j as int)) % 0x1_0000,
                spec_digit_run(self.bytes@.skip(first as int)) == (j - first) + spec_digit_run(
                    self.bytes@.skip(j as int),
                ),
            decreases len - j,
        {
            let d: u32 = (self.bytes[j] - 48) as u32;
            proof {
                let before = self.bytes@.subrange(first as int, j as int);
                let after = self.bytes@.subrange(first as int, j + 1);
                assert(after.drop_last() =~= before);
                assert(after.last() == self.bytes@[j as int]);
                assert(self.bytes@.skip(j as int).drop_first() =~= self.bytes@.skip(j + 1));
                let n = spec_number(before) as int;
                assert(spec_number(after) == n * 10 + d);
                lemma_mul_mod_noop_left(n, 10, 0x1_0000);
                lemma_add_mod_noop(n * 10, d as int, 0x1_0000);
                lemma_add_mod_noop((n % 0x1_0000) * 10, d as int, 0x1_0000);
            }
            acc = (acc * 10 + d) % 0x1_0000;
            j = j + 1;
        }
        let value: Data = if negative {
            ((0x1_0000 - acc) % 0x1_0000) as Data
        } else {
            acc as Data
        };
        self.cursor = j;
        proof {
            let f = (first - start) as int;
            let count = (j - first) as int;
            assert(s.skip(f) =~= self.bytes@.skip(first as int));
            assert(spec_digit_run(self.bytes@.skip(j as int)) == 0);
            assert(s.subrange(f, f + count) =~= self.bytes@.subrange(first as int, j as int));
            assert(s.skip(f + count) =~= self.bytes@.skip(j as int));
            let magnitude = spec_number(s.subrange(f, f + count)) as int;
            if negative {
                assert((0 - magnitude) % 0x1_0000 == (0x1_0000 - acc) % 0x1_0000) by {
                    lemma_negated_mod(magnitude, acc as int);
                }
            }
        }
        Some(value)
    }

    /// Whether a number starts at byte `i` of the buffer.
    fn number_at(&self, i: usize) -> (b: bool)
        requires
            i < self.bytes@.len(),
        ensures
            b == starts_number(self.bytes@.skip(i as int)),
    {
        let first = self.bytes[i];
        if 48 <= first && first <= 57 {
            true
        } else if first == 45 && self.bytes.len() - i > 1 {
            let second = self.bytes[i + 1];
            48 <= second && second <= 57
        } else {
            false
        }
    }
}

/// Counting down from zero by `m` gives, cut to sixteen bits, the same as
/// counting down by what `m` is cut to.
proof fn lemma_negated_mod(m: int, r: int)
    requires
        0 <= m,
        r == m % 0x1_0000,
    ensures
        (0 - m) % 0x1_0000 == (0x1_0000 - r) % 0x1_0000,
{
    let q = m / 0x1_0000;
    assert(m == q * 0x1_0000 + r) by {
        vstd::arithmetic::div_mod::lemma_fundamental_div_mod(m, 0x1_0000);
    }
    assert((0 - m) == (0x1_0000 - r) + (-q - 1) * 0x1_0000) by (nonlinear_arith)
        requires
            m == q * 0x1_0000 + r,
    ;
    vstd::arithmetic::div_mod::lemma_mod_multiples_vanish(-q - 1, 0x1_0000 - r, 0x1_0000);
}

} // verus!
