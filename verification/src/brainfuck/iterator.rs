//! A run as a sequence of snapshots, one before the first step and one
//! after each step.

use vstd::prelude::*;
use vstd::utf8::encode_utf8;
use crate::brainfuck::errors::BrainfuckError;
use crate::brainfuck::loops::balanced;
use crate::brainfuck::machine::{RunState, spec_step};
use crate::brainfuck::memory::{Linear, Memory, Wrapping};
use crate::brainfuck::program::{BrainfuckProgram, is_parse_error};

verus! {

broadcast use vstd::std_specs::hash::group_hash_axioms;

/// What a run looks like at one moment.
#[derive(Debug)]
pub struct Snapshot<M: Memory> {
    pub tape: M,
    pub cycle: usize,
    pub ip: usize,
    pub output: String,
    pub index: usize,
}

impl<M: Memory> Snapshot<M> {
    /// The snapshot with these parts.
    pub fn new(tape: M, cycle: usize, ip: usize, output: String, index: usize) -> (r: Self)
        ensures
            r.tape == tape,
            r.cycle == cycle,
            r.ip == ip,
            r.output == output,
            r.index == index,
    {
        Self { tape, cycle, ip, output, index }
    }

    /// Whether the snapshot shows the state `s`, whatever input is left.
    pub open spec fn shows(&self, s: RunState) -> bool {
        &&& self.tape.cells() == s.cells
        &&& self.cycle == s.cycle
        &&& self.ip == s.ip
        &&& self.output@ == s.output
        &&& self.index == s.index
    }
}

/// A run that hands out its snapshots one by one.
#[derive(Debug)]
pub struct BrainfuckIterator<M> where M: Memory {
    prog: BrainfuckProgram<M>,
    initial_yield: bool,
}

impl<M> BrainfuckIterator<M> where M: Memory {
    /// Whether the run inside is in good standing.
    pub closed spec fn wf(&self) -> bool {
        self.prog.wf()
    }

    /// The state of the run inside.
    pub closed spec fn state(&self) -> RunState {
        self.prog@
    }

    /// The program's text as bytes.
    pub closed spec fn bytes(&self) -> Seq<u8> {
        self.prog.bytes()
    }

    /// Whether the first snapshot has been handed out.
    pub closed spec fn started(&self) -> bool {
        self.initial_yield
    }

    /// Puts the characters of `input` behind the input that is still unread.
    pub fn feed(&mut self, input: &str)
        requires
            old(self).wf(),
        ensures
            final(self).wf(),
            final(self).bytes() == old(self).bytes(),
            final(self).started() == old(self).started(),
            final(self).state() == (RunState {
                input: old(self).state().input + input@,
                ..old(self).state()
            }),
    {
        self.prog.feed(input);
    }
}

impl BrainfuckProgram<Linear> {
    /// The run as it stands.
    pub fn snapshot(&self) -> (snap: Snapshot<Linear>)
        ensures
            snap.shows(self@),
    {
        let (tape, cycle, ip, index) = self.parts();
        Snapshot::new(tape.clone(), cycle, ip, self.output().clone(), index)
    }
}

impl BrainfuckProgram<Wrapping> {
    /// The run as it stands.
    pub fn snapshot(&self) -> (snap: Snapshot<Wrapping>)
        ensures
            snap.shows(self@),
    {
        let (tape, cycle, ip, index) = self.parts();
        Snapshot::new(tape.clone(), cycle, ip, self.output().clone(), index)
    }
}

impl BrainfuckIterator<Wrapping> {
    /// The snapshots of a run of `src` on a tape that wraps around.
    pub fn wrapping(src: &str) -> (r: Result<Self, BrainfuckError>)
        ensures
            match r {
                Ok(it) => {
                    &&& it.wf()
                    &&& !it.started()
                    &&& it.bytes() == encode_utf8(src@)
                    &&& balanced(encode_utf8(src@))
                    &&& it.state() == RunState::initial(Seq::empty())
                },
                Err(e) => !balanced(encode_utf8(src@)) && is_parse_error(e, src@),
            },
    {
        match BrainfuckProgram::wrapping_executor(src) {
            Ok(prog) => Ok(Self { prog, initial_yield: false }),
            Err(e) => Err(e),
        }
    }

    /// The next snapshot: the first time the run as it stands, afterwards
    /// the run after one more step. `None` once the program has come to its
    /// end, and when a step fails.
    pub fn next(&mut self) -> (r: Option<Snapshot<Wrapping>>)
        requires
            old(self).wf(),
        ensures
            final(self).wf(),
            final(self).started(),
            final(self).bytes() == old(self).bytes(),
            if !old(self).started() {
                final(self).state() == old(self).state() && r is Some && r.unwrap().shows(
                    old(self).state(),
                )
            } else if old(self).state().ip >= old(self).bytes().len() {
                final(self).state() == old(self).state() && r is None
            } else {
                match spec_step::<Wrapping>(old(self).bytes(), old(self).state()) {
                    Ok(next) => final(self).state() == next && r is Some && r.unwrap().shows(next),
                    Err(_) => final(self).state() == old(self).state() && r is None,
                }
            },
    {
        if !self.initial_yield {
            self.initial_yield = true;
            return Some(self.prog.snapshot());
        }
        if !self.prog.finished() {
            match self.prog.execute_next() {
                Ok(_) => Some(self.prog.snapshot()),
                Err(_) => None,
            }
        } else {
            None
        }
    }
}

impl BrainfuckIterator<Linear> {
    /// The snapshots of a run of `src` on a tape that begins at the first cell.
    pub fn linear(src: &str) -> (r: Result<Self, BrainfuckError>)
        ensures
            match r {
                Ok(it) => {
                    &&& it.wf()
                    &&& !it.started()
                    &&& it.bytes() == encode_utf8(src@)
                    &&& balanced(encode_utf8(src@))
                    &&& it.state() == RunState::initial(Seq::empty())
                },
                Err(e) => !balanced(encode_utf8(src@)) && is_parse_error(e, src@),
            },
    {
        match BrainfuckProgram::linear_memory_executor(src) {
            Ok(prog) => Ok(Self { prog, initial_yield: false }),
            Err(e) => Err(e),
        }
    }

    /// The next snapshot: the first time the run as it stands, afterwards
    /// the run after one more step. `None` once the program has come to its
    /// end, and when a step fails.
    pub fn next(&mut self) -> (r: Option<Snapshot<Linear>>)
        requires
            old(self).wf(),
        ensures
            final(self).wf(),
            final(self).started(),
            final(self).bytes() == old(self).bytes(),
            if !old(self).started() {
                final(self).state() == old(self).state() && r is Some && r.unwrap().shows(
                    old(self).state(),
                )
            } else if old(self).state().ip >= old(self).bytes().len() {
                final(self).state() == old(self).state() && r is None
            } else {
                match spec_step::<Linear>(old(self).bytes(), old(self).state()) {
                    Ok(next) => final(self).state() == next && r is Some && r.unwrap().shows(next),
                    Err(_) => final(self).state() == old(self).state() && r is None,
                }
            },
    {
        if !self.initial_yield {
            self.initial_yield = true;
            return Some(self.prog.snapshot());
        }
        if !self.prog.finished() {
            match self.prog.execute_next() {
                Ok(_) => Some(self.prog.snapshot()),
                Err(_) => None,
            }
        } else {
            None
        }
    }
}

} // verus!
