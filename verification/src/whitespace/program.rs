//! A program: its instructions, each with its place in the run, and the
//! places that its labels name.

use vstd::prelude::*;
use vstd::string::StringExecFns;
use crate::text::{decimal, push_decimal};
use crate::whitespace::tokens::{FlowControlOp, Label, OpCode};
use crate::whitespace::Describe;

verus! {

/// The map that `entries` write, a later entry replacing an earlier one
/// for the same label.
pub open spec fn spec_label_map(entries: Seq<(Label, usize)>) -> Map<Label, usize>
    decreases entries.len(),
{
    if entries.len() == 0 {
        Map::empty()
    } else {
        spec_label_map(entries.drop_last()).insert(entries.last().0, entries.last().1)
    }
}

/// The places that labels name.
#[derive(Debug)]
pub struct LabelMap {
    entries: Vec<(Label, usize)>,
}

impl View for LabelMap {
    type V = Map<Label, usize>;

    closed spec fn view(&self) -> Map<Label, usize> {
        spec_label_map(self.entries@)
    }
}

impl LabelMap {
    /// The map without any label.
    pub fn new() -> (m: Self)
        ensures
            m@ == Map::<Label, usize>::empty(),
    {
        LabelMap { entries: Vec::new() }
    }

    /// Lets `label` name the place `ip`, whatever it named before.
    pub fn insert(&mut self, label: Label, ip: usize)
        ensures
            final(self)@ == old(self)@.insert(label, ip),
    {
        self.entries.push((label, ip));
        proof {
            assert(self.entries@.drop_last() =~= old(self).entries@);
        }
    }

    /// The place that `label` names, where it names one.
    pub fn get(&self, label: &Label) -> (r: Option<usize>)
        ensures
            r == if self@.contains_key(*label) {
                Some(self@[*label])
            } else {
                None
            },
    {
        let mut i: usize = self.entries.len();
        proof {
            assert(self.entries@.take(i as int) =~= self.entries@);
        }
        while i > 0
            invariant
                i <= self.entries@.len(),
                self@.contains_key(*label) == spec_label_map(
                    self.entries@.take(i as int),
                ).contains_key(*label),
                self@.contains_key(*label) ==> self@[*label] == spec_label_map(
                    self.entries@.take(i as int),
                )[*label],
            decreases i,
        {
            proof {
                assert(self.entries@.take(i as int).drop_last() =~= self.entries@.take(i - 1));
            }
            let entry = &self.entries[i - 1];
            if entry.0.value == label.value && entry.0.prefixed_zeroes == label.prefixed_zeroes {
                return Some(entry.1);
            }
            i = i - 1;
        }
        None
    }
}

/// How many of the first `k` instructions are no labels.
pub open spec fn spec_count(ops: Seq<OpCode>, k: int) -> nat
    decreases k,
{
    if k <= 0 {
        0
    } else if ops[k - 1] is FlowControl && ops[k - 1]->FlowControl_0 is Label {
        spec_count(ops, k - 1)
    } else {
        spec_count(ops, k - 1) + 1
    }
}

/// The place of instruction `k` in the run: its number among the
/// instructions that are no labels; a label has no place.
pub open spec fn spec_place(ops: Seq<OpCode>, k: int) -> Option<usize> {
    if ops[k] is FlowControl && ops[k]->FlowControl_0 is Label {
        None
    } else {
        Some(spec_count(ops, k) as usize)
    }
}

/// The places that the labels among the first `k` instructions name: each
/// names the place of the next instruction that is no label. Of two labels
/// with one name the later counts.
pub open spec fn spec_labels(ops: Seq<OpCode>, k: int) -> Map<Label, usize>
    decreases k,
{
    if k <= 0 {
        Map::empty()
    } else {
        match ops[k - 1] {
            OpCode::FlowControl(FlowControlOp::Label(l)) => spec_labels(ops, k - 1).insert(
                l,
                spec_count(ops, k - 1) as usize,
            ),
            _ => spec_labels(ops, k - 1),
        }
    }
}

/// A program that has been read.
#[derive(Debug)]
pub struct Program {
    ops: Vec<(Option<usize>, OpCode)>,
    labels: LabelMap,
}

/// One line of a program's description: the place between square brackets,
/// two dashes for a label, and the instruction as described.
pub open spec fn spec_line(place: Option<usize>, op: OpCode) -> Seq<char> {
    match place {
        Some(index) => "["@ + decimal(index as nat) + "] "@ + op.spec_describe(),
        None => "[--] "@ + op.spec_describe(),
    }
}

/// The lines of the first `k` instructions, a line feed between two.
pub open spec fn spec_lines(ops: Seq<(Option<usize>, OpCode)>, k: int) -> Seq<char>
    decreases k,
{
    if k <= 0 {
        Seq::empty()
    } else if k == 1 {
        spec_line(ops[0].0, ops[0].1)
    } else {
        spec_lines(ops, k - 1) + "\n"@ + spec_line(ops[k - 1].0, ops[k - 1].1)
    }
}

impl Program {
    /// The instructions, each with its place in the run.
    pub closed spec fn spec_ops(&self) -> Seq<(Option<usize>, OpCode)> {
        self.ops@
    }

    /// The places that the labels name.
    pub closed spec fn spec_label_places(&self) -> Map<Label, usize> {
        self.labels@
    }

    /// Numbers the instructions and notes the places of the labels.
    pub fn new(ops: &[OpCode]) -> (p: Self)
        ensures
            p.spec_ops().len() == ops@.len(),
            forall|k: int|
                0 <= k < ops@.len() ==> #[trigger] p.spec_ops()[k] == (spec_place(ops@, k), ops@[k]),
            p.spec_label_places() == spec_labels(ops@, ops@.len() as int),
    {
        let mut indexed_ops: Vec<(Option<usize>, OpCode)> = Vec::new();
        let mut labels = LabelMap::new();
        let mut i: usize = 0;
        let mut k: usize = 0;
        while k < ops.len()
            invariant
                k <= ops@.len(),
                i == spec_count(ops@, k as int),
                i <= k,
                indexed_ops@.len() == k,
                forall|j: int|
                    0 <= j < k ==> #[trigger] indexed_ops@[j] == (spec_place(ops@, j), ops@[j]),
                labels@ == spec_labels(ops@, k as int),
            decreases ops@.len() - k,
        {
            let op = ops[k];
            let index = match op {
                OpCode::FlowControl(FlowControlOp::Label(l)) => {
                    labels.insert(l, i);
                    None
                },
                _ => {
                    i = i + 1;
                    Some(i - 1)
                },
            };
            indexed_ops.push((index, op));
            k = k + 1;
        }
        Self { ops: indexed_ops, labels }
    }

    /// The instructions, each with its place in the run.
    pub fn ops(&self) -> (r: &Vec<(Option<usize>, OpCode)>)
        ensures
            r@ == self.spec_ops(),
    {
        &self.ops
    }

    /// The places that the labels name.
    pub fn labels(&self) -> (r: &LabelMap)
        ensures
            r@ == self.spec_label_places(),
    {
        &self.labels
    }
}

impl Describe for Program {
    open spec fn spec_describe(&self) -> Seq<char> {
        spec_lines(self.spec_ops(), self.spec_ops().len() as int)
    }

    fn describe(&self) -> (s: String) {
        let mut s = String::new();
        let mut k: usize = 0;
        while k < self.ops.len()
            invariant
                k <= self.ops@.len(),
                s@ == spec_lines(self.ops@, k as int),
            decreases self.ops@.len() - k,
        {
            let ghost before = s@;
            if k > 0 {
                s.append("\n");
            }
            let ghost head = s@;
            let entry = &self.ops[k];
            match entry.0 {
                Some(index) => {
                    s.append("[");
                    push_decimal(&mut s, index as u64);
                    s.append("] ");
                },
                None => {
                    s.append("[--] ");
                },
            }
            s.append(entry.1.describe().as_str());
            proof {
                let line = spec_line(entry.0, entry.1);
                assert(s@ =~= head + line);
                if k == 0 {
                    assert(head + line =~= line);
                }
            }
            k = k + 1;
        }
        s
    }
}

} // verus!
