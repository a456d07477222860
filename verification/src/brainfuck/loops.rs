//! Which bracket belongs to which: the loop table of a program.

use vstd::prelude::*;
use vstd::string::StringSliceAdditionalSpecFns;
use std::collections::HashMap;
use crate::brainfuck::errors::{BrainfuckError, LoopErrorType};

verus! {

broadcast use vstd::std_specs::hash::group_hash_axioms;

/// The byte that opens a loop.
pub const OPEN: u8 = 91;

/// The byte that closes a loop.
pub const CLOSE: u8 = 93;

/// For each bracket of a program the place of its partner.
pub type LoopMap = HashMap<usize, usize>;

/// By how much the byte `b` changes the nesting depth.
pub open spec fn bracket_delta(b: u8) -> int {
    if b == OPEN {
        1
    } else if b == CLOSE {
        -1
    } else {
        0
    }
}

/// The nesting depth in front of byte `k`: the opening brackets among the
/// first `k` bytes less the closing ones.
pub open spec fn depth(prog: Seq<u8>, k: int) -> int
    decreases k,
{
    if k <= 0 {
        0
    } else {
        depth(prog, k - 1) + bracket_delta(prog[k - 1])
    }
}

/// Whether the bracket at `a` opens the loop that the bracket at `b` closes:
/// behind `b` the depth is back to what it was in front of `a`, and in
/// between it stays above that.
pub open spec fn is_pair(prog: Seq<u8>, a: int, b: int) -> bool {
    &&& 0 <= a < b < prog.len()
    &&& prog[a] == OPEN
    &&& prog[b] == CLOSE
    &&& depth(prog, b + 1) == depth(prog, a)
    &&& forall|k: int| a < k <= b ==> depth(prog, k) > depth(prog, a)
}

/// Whether every closing bracket has an opening one before it and every
/// opening bracket is closed.
pub open spec fn balanced(prog: Seq<u8>) -> bool {
    &&& forall|k: int| 0 <= k <= prog.len() ==> depth(prog, k) >= 0
    &&& depth(prog, prog.len() as int) == 0
}

/// Whether `i` is the first closing bracket that closes nothing.
pub open spec fn first_unexpected_close(prog: Seq<u8>, i: int) -> bool {
    &&& 0 <= i < prog.len()
    &&& depth(prog, i + 1) < 0
    &&& forall|k: int| 0 <= k <= i ==> depth(prog, k) >= 0
}

/// Whether the bracket at `a` opens a loop that is never closed.
pub open spec fn unclosed(prog: Seq<u8>, a: int) -> bool {
    &&& 0 <= a < prog.len()
    &&& prog[a] == OPEN
    &&& forall|k: int| a < k <= prog.len() ==> depth(prog, k) > depth(prog, a)
}

/// Whether `a` is the last opening bracket that is never closed, in a
/// program whose closing brackets all close something.
pub open spec fn last_unclosed(prog: Seq<u8>, a: int) -> bool {
    &&& forall|k: int| 0 <= k <= prog.len() ==> depth(prog, k) >= 0
    &&& unclosed(prog, a)
    &&& forall|b: int| a < b < prog.len() ==> !unclosed(prog, b)
}

/// Whether byte `k` of `prog` is a bracket.
pub open spec fn is_bracket_at(prog: Seq<u8>, k: int) -> bool {
    0 <= k < prog.len() && (prog[k] == OPEN || prog[k] == CLOSE)
}

/// Whether `table` maps the brackets of `prog`, and nothing else, each to
/// its partner.
pub open spec fn is_loop_table(prog: Seq<u8>, table: Map<usize, usize>) -> bool {
    &&& forall|k: usize| #[trigger] table.contains_key(k) ==> is_bracket_at(prog, k as int)
    &&& forall|k: usize| #[trigger] is_bracket_at(prog, k as int) ==> table.contains_key(k)
    &&& forall|k: usize|
        #[trigger] table.contains_key(k) && prog[k as int] == OPEN ==> is_pair(
            prog,
            k as int,
            table[k] as int,
        )
    &&& forall|k: usize|
        #[trigger] table.contains_key(k) && prog[k as int] == CLOSE ==> is_pair(
            prog,
            table[k] as int,
            k as int,
        )
}

/// An opening bracket has one partner at most, and so has a closing one.
pub proof fn lemma_pair_unique(prog: Seq<u8>, a: int, b: int, a2: int, b2: int)
    requires
        is_pair(prog, a, b),
        is_pair(prog, a2, b2),
    ensures
        a == a2 <==> b == b2,
{
    if a == a2 && b != b2 {
        if b < b2 {
            assert(depth(prog, b + 1) > depth(prog, a2));
        } else {
            assert(depth(prog, b2 + 1) > depth(prog, a));
        }
    }
    if b == b2 && a != a2 {
        if a < a2 {
            assert(depth(prog, a2) > depth(prog, a));
        } else {
            assert(depth(prog, a) > depth(prog, a2));
        }
    }
}

/// Two loop tables of one program are the same table.
pub proof fn lemma_loop_table_unique(prog: Seq<u8>, t1: Map<usize, usize>, t2: Map<usize, usize>)
    requires
        is_loop_table(prog, t1),
        is_loop_table(prog, t2),
    ensures
        t1 == t2,
{
    assert forall|k: usize| t1.contains_key(k) == t2.contains_key(k) by {
        if t1.contains_key(k) {
            assert(is_bracket_at(prog, k as int));
        }
        if t2.contains_key(k) {
            assert(is_bracket_at(prog, k as int));
        }
    }
    assert forall|k: usize| t1.contains_key(k) implies t1[k] == t2[k] by {
        assert(is_bracket_at(prog, k as int));
        if prog[k as int] == OPEN {
            lemma_pair_unique(prog, k as int, t1[k] as int, k as int, t2[k] as int);
        } else {
            lemma_pair_unique(prog, t1[k] as int, k as int, t2[k] as int, k as int);
        }
    }
    assert(t1 =~= t2);
}

/// Whether the loop table has come as far as byte `ip`: it pairs the
/// brackets before `ip` but for the opening ones in `opens`, which wait for
/// their partners.
spec fn table_so_far(prog: Seq<u8>, table: Map<usize, usize>, opens: Seq<usize>, ip: int) -> bool {
    &&& forall|k: usize|
        #[trigger] table.contains_key(k) ==> k < ip && is_bracket_at(prog, k as int)
            && !opens.contains(k)
    &&& forall|k: usize|
        k < ip && #[trigger] is_bracket_at(prog, k as int) && !opens.contains(k)
            ==> table.contains_key(k)
    &&& forall|k: usize|
        #[trigger] table.contains_key(k) && prog[k as int] == OPEN ==> is_pair(
            prog,
            k as int,
            table[k] as int,
        )
    &&& forall|k: usize|
        #[trigger] table.contains_key(k) && prog[k as int] == CLOSE ==> is_pair(
            prog,
            table[k] as int,
            k as int,
        )
}

/// Whether `opens` are the opening brackets before `ip` that are still
/// open there, the outermost first.
spec fn open_so_far(prog: Seq<u8>, opens: Seq<usize>, ip: int) -> bool {
    &&& depth(prog, ip) == opens.len()
    &&& forall|j: int|
        0 <= j < opens.len() ==> (#[trigger] opens[j]) < ip && prog[opens[j] as int] == OPEN
            && depth(prog, opens[j] as int) == j
    &&& forall|j: int, k: int|
        0 <= j < opens.len() && (#[trigger] opens[j]) < k <= ip ==> #[trigger] depth(prog, k) > j
    &&& forall|k: int| 0 <= k <= ip ==> depth(prog, k) >= 0
}

/// A sequence with one more element holds what it held and that element.
proof fn lemma_pushed_contains(s: Seq<usize>, x: usize)
    ensures
        forall|k: usize| #[trigger] s.push(x).contains(k) <==> (s.contains(k) || k == x),
{
    assert forall|k: usize| #[trigger] s.push(x).contains(k) <==> (s.contains(k) || k == x) by {
        if s.contains(k) {
            let j = choose|j: int| 0 <= j < s.len() && s[j] == k;
            assert(s.push(x)[j] == k);
        }
        if k == x {
            assert(s.push(x)[s.len() as int] == k);
        }
    }
}

/// A sequence holds what it holds without its last element, and that element.
proof fn lemma_popped_contains(s: Seq<usize>)
    requires
        s.len() > 0,
    ensures
        forall|k: usize| #[trigger]
            s.contains(k) <==> (s.take(s.len() - 1).contains(k) || k == s[s.len() - 1]),
{
    let t = s.take(s.len() - 1);
    assert forall|k: usize| #[trigger] s.contains(k) <==> (t.contains(k) || k == s[s.len() - 1]) by {
        if s.contains(k) {
            let j = choose|j: int| 0 <= j < s.len() && s[j] == k;
            if j < t.len() {
                assert(t[j] == k);
            }
        }
        if t.contains(k) {
            let j = choose|j: int| 0 <= j < t.len() && t[j] == k;
            assert(s[j] == k);
        }
    }
}

/// Reads a program's brackets from the left. It stops at the first closing
/// bracket that closes nothing and gives its place. Else it gives the table
/// of the pairs together with the opening brackets that are never closed,
/// the outermost first.
fn scan_loops(bytes: &[u8]) -> (r: Result<(LoopMap, Vec<usize>), usize>)
    ensures
        match r {
            Ok((table, opens)) => table_so_far(bytes@, table@, opens@, bytes@.len() as int)
                && open_so_far(bytes@, opens@, bytes@.len() as int),
            Err(ip) => first_unexpected_close(bytes@, ip as int),
        },
{
    let ghost text = bytes@;
    let mut opens: Vec<usize> = Vec::new();
    let mut loops: LoopMap = HashMap::new();
    let mut ip: usize = 0;
    while ip < bytes.len()
        invariant
            ip <= bytes@.len(),
            bytes@ == text,
            table_so_far(text, loops@, opens@, ip as int),
            open_so_far(text, opens@, ip as int),
        decreases bytes@.len() - ip,
    {
        let instruction = bytes[ip];
        let ghost old_opens = opens@;
        let ghost old_loops = loops@;
        proof {
            assert(depth(text, ip + 1) == depth(text, ip as int) + bracket_delta(text[ip as int]));
        }
        if instruction == OPEN {
            opens.push(ip);
            proof {
                lemma_pushed_contains(old_opens, ip);
                assert(opens@[old_opens.len() as int] == ip);
                assert forall|j: int, k: int|
                    0 <= j < opens@.len() && (#[trigger] opens@[j]) < k <= ip + 1 implies #[trigger] depth(
                    text,
                    k,
                ) > j by {
                    if j < old_opens.len() && k <= ip {
                        assert(old_opens[j] < k);
                    }
                }
            }
        } else if instruction == CLOSE {
            match opens.pop() {
                None => {
                    proof {
                        assert(old_opens.len() == 0);
                        assert(first_unexpected_close(text, ip as int));
                    }
                    return Err(ip);
                },
                Some(loop_start) => {
                    proof {
                        let top = old_opens.len() - 1;
                        assert(old_opens[top] == loop_start);
                        assert(opens@ =~= old_opens.take(top));
                        assert(is_pair(text, loop_start as int, ip as int)) by {
                            assert forall|k: int| loop_start < k <= ip implies depth(text, k)
                                > depth(text, loop_start as int) by {
                                assert(old_opens[top] < k);
                            }
                        }
                        lemma_popped_contains(old_opens);
                        assert forall|j: int, k: int|
                            0 <= j < opens@.len() && (#[trigger] opens@[j]) < k <= ip + 1 implies #[trigger] depth(
                            text,
                            k,
                        ) > j by {
                            if k <= ip {
                                assert(old_opens[j] < k);
                            }
                        }
                        assert(!opens@.contains(loop_start)) by {
                            if opens@.contains(loop_start) {
                                let j = choose|j: int|
                                    0 <= j < opens@.len() && opens@[j] == loop_start;
                                assert(depth(text, old_opens[j] as int) == j);
                            }
                        }
                        assert(!old_opens.contains(ip)) by {
                            if old_opens.contains(ip) {
                                let j = choose|j: int| 0 <= j < old_opens.len() && old_opens[j] == ip;
                                assert(old_opens[j] < ip);
                            }
                        }
                    }
                    loops.insert(loop_start, ip);
                    loops.insert(ip, loop_start);
                    proof {
                        assert(loops@ == old_loops.insert(loop_start, ip).insert(ip, loop_start));
                        assert forall|k: usize|
                            ip + 1 > k && #[trigger] is_bracket_at(text, k as int)
                                && !opens@.contains(k) implies loops@.contains_key(k) by {
                            if k != ip && k != loop_start {
                                assert(!old_opens.contains(k));
                                assert(old_loops.contains_key(k));
                            }
                        }
                        assert forall|k: usize| #[trigger] loops@.contains_key(k) implies k < ip + 1
                            && is_bracket_at(text, k as int) && !opens@.contains(k) by {
                            if k != ip && k != loop_start {
                                assert(old_loops.contains_key(k));
                            }
                        }
                        assert forall|k: usize|
                            #[trigger] loops@.contains_key(k) && text[k as int] == OPEN implies is_pair(
                            text,
                            k as int,
                            loops@[k] as int,
                        ) by {
                            if k != ip && k != loop_start {
                                assert(old_loops.contains_key(k));
                            }
                        }
                        assert forall|k: usize|
                            #[trigger] loops@.contains_key(k) && text[k as int] == CLOSE implies is_pair(
                            text,
                            loops@[k] as int,
                            k as int,
                        ) by {
                            if k != ip && k != loop_start {
                                assert(old_loops.contains_key(k));
                            }
                        }
                    }
                },
            }
        }
        ip = ip + 1;
    }
    Ok((loops, opens))
}

/// Pairs the brackets of a program. The table maps each bracket to its
/// partner. A closing bracket that closes nothing is an error at its place;
/// where there is none, an opening bracket that is never closed is an error
/// at the place of the last such bracket.
pub fn verify_loops(prog: &str) -> (r: Result<LoopMap, BrainfuckError>)
    ensures
        match r {
            Ok(table) => balanced(prog.spec_bytes()) && is_loop_table(prog.spec_bytes(), table@),
            Err(BrainfuckError::ParseError { src, location, err_type, char_index }) => {
                &&& !balanced(prog.spec_bytes())
                &&& src@ == prog@
                &&& location == char_index
                &&& match err_type {
                    LoopErrorType::UnexpectedClosingBracket => first_unexpected_close(
                        prog.spec_bytes(),
                        char_index as int,
                    ),
                    LoopErrorType::UnclosedBracket => last_unclosed(
                        prog.spec_bytes(),
                        char_index as int,
                    ),
                }
            },
            Err(_) => false,
        },
{
    let bytes = prog.as_bytes();
    let ghost text = prog.spec_bytes();
    let (loops, opens) = match scan_loops(bytes) {
        Ok(found) => found,
        Err(ip) => {
            return Err(
                BrainfuckError::ParseError {
                    src: prog.to_owned(),
                    location: ip,
                    err_type: LoopErrorType::UnexpectedClosingBracket,
                    char_index: ip,
                },
            );
        },
    };
    let size = bytes.len();
    if opens.len() > 0 {
        let index = opens[opens.len() - 1];
        proof {
            assert(bytes@.len() == size);
            lemma_last_open_is_last_unclosed(text, loops@, opens@);
        }
        return Err(
            BrainfuckError::ParseError {
                src: prog.to_owned(),
                location: index,
                err_type: LoopErrorType::UnclosedBracket,
                char_index: index,
            },
        );
    }
    proof {
        assert forall|k: usize| #[trigger] is_bracket_at(text, k as int) implies loops@.contains_key(
            k,
        ) by {
            assert(!opens@.contains(k));
        }
    }
    Ok(loops)
}

/// After the whole program is read, the last bracket that is still open is
/// the last bracket that is never closed.
proof fn lemma_last_open_is_last_unclosed(
    text: Seq<u8>,
    table: Map<usize, usize>,
    opens: Seq<usize>,
)
    requires
        table_so_far(text, table, opens, text.len() as int),
        open_so_far(text, opens, text.len() as int),
        opens.len() > 0,
        text.len() <= usize::MAX,
    ensures
        last_unclosed(text, opens[opens.len() - 1] as int),
{
    let top = opens.len() - 1;
    let index = opens[top];
    assert(unclosed(text, index as int)) by {
        assert forall|k: int| index < k <= text.len() implies depth(text, k) > depth(
            text,
            index as int,
        ) by {
            assert(opens[top] < k);
        }
    }
    assert forall|b: int| index < b < text.len() implies !unclosed(text, b) by {
        if text[b] == OPEN {
            if opens.contains(b as usize) {
                let j = choose|j: int| 0 <= j < opens.len() && opens[j] == b as usize;
                if j < top {
                    assert(depth(text, index as int) > j);
                }
            } else {
                assert(is_bracket_at(text, (b as usize) as int));
                assert(table.contains_key(b as usize));
                assert(is_pair(text, b, table[b as usize] as int));
            }
        }
    }
}

/// Whether `table` maps each bracket of `prog` that has a partner to that
/// partner, and holds nothing else.
pub open spec fn is_pair_table(prog: Seq<u8>, table: Map<usize, usize>) -> bool {
    &&& forall|k: usize| #[trigger] table.contains_key(k) ==> is_bracket_at(prog, k as int)
    &&& forall|k: usize|
        #[trigger] table.contains_key(k) && prog[k as int] == OPEN ==> is_pair(
            prog,
            k as int,
            table[k] as int,
        )
    &&& forall|k: usize|
        #[trigger] table.contains_key(k) && prog[k as int] == CLOSE ==> is_pair(
            prog,
            table[k] as int,
            k as int,
        )
    &&& forall|a: usize, b: usize| #[trigger]
        is_pair(prog, a as int, b as int) ==> table.contains_key(a) && table.contains_key(b)
}

/// Pairs the brackets of a program whose closing brackets all close
/// something. Opening brackets that are never closed are left out.
pub fn find_loops(prog: &str) -> (table: LoopMap)
    requires
        forall|k: int| 0 <= k <= prog.spec_bytes().len() ==> depth(prog.spec_bytes(), k) >= 0,
    ensures
        is_pair_table(prog.spec_bytes(), table@),
{
    let bytes = prog.as_bytes();
    let ghost text = prog.spec_bytes();
    match scan_loops(bytes) {
        Ok((table, opens)) => {
            proof {
                assert forall|a: usize, b: usize| #[trigger]
                    is_pair(text, a as int, b as int) implies table@.contains_key(a)
                    && table@.contains_key(b) by {
                    assert(is_bracket_at(text, a as int));
                    assert(is_bracket_at(text, b as int));
                    if opens@.contains(a) {
                        let j = choose|j: int| 0 <= j < opens@.len() && opens@[j] == a;
                        assert(opens@[j] < b + 1);
                        assert(depth(text, b + 1) > j);
                    }
                    if opens@.contains(b) {
                        let j = choose|j: int| 0 <= j < opens@.len() && opens@[j] == b;
                        assert(text[opens@[j] as int] == OPEN);
                    }
                }
            }
            table
        },
        Err(ip) => {
            proof {
                assert(depth(text, ip + 1) >= 0);
            }
            HashMap::new()
        },
    }
}

} // verus!
