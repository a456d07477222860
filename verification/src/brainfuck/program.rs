//! The interpreter: a parsed program with its tape, one instruction at a
//! time or run to its end.

use vstd::prelude::*;
use vstd::string::{StringExecFns, StringSliceAdditionalSpecFns};
use vstd::utf8::encode_utf8;
use crate::brainfuck::errors::{
    BrainfuckError, Error, ExecutionContext, ExecutionErrorType, LoopErrorType, LoopType,
};
use crate::brainfuck::loops::{
    CLOSE, LoopMap, OPEN, balanced, first_unexpected_close, is_bracket_at, is_loop_table,
    is_pair, last_unclosed, lemma_pair_unique, verify_loops,
};
use crate::brainfuck::machine::{
    Progress, RunState, Token, lemma_trace_ended, spec_input_byte, spec_partner, spec_run,
    spec_step, spec_token, spec_tokens, spec_trace,
};
use crate::brainfuck::memory::{Cell, Linear, Memory, Wrapping};
use crate::text::chars_of;

verus! {

broadcast use vstd::std_specs::hash::group_hash_axioms;

/// The instructions of a program, one for each byte of its text.
pub fn parse(prog: &str) -> (tokens: Vec<Token>)
    ensures
        tokens@ == spec_tokens(prog.spec_bytes()),
{
    let bytes = prog.as_bytes();
    let mut tokens: Vec<Token> = Vec::new();
    let mut i: usize = 0;
    while i < bytes.len()
        invariant
            i <= bytes@.len(),
            bytes@ == prog.spec_bytes(),
            tokens@ == spec_tokens(bytes@.take(i as int)),
        decreases bytes@.len() - i,
    {
        let instruction = bytes[i];
        let token = if instruction == 43 {
            Token::Increment
        } else if instruction == 45 {
            Token::Decrement
        } else if instruction == 60 {
            Token::MoveLeft
        } else if instruction == 62 {
            Token::MoveRight
        } else if instruction == 46 {
            Token::Print
        } else if instruction == 44 {
            Token::Input
        } else if instruction == OPEN {
            Token::Loop(LoopType::Start)
        } else if instruction == CLOSE {
            Token::Loop(LoopType::End)
        } else {
            Token::Other
        };
        tokens.push(token);
        proof {
            assert(tokens@ =~= spec_tokens(bytes@.take(i + 1)));
        }
        i = i + 1;
    }
    proof {
        assert(bytes@.take(i as int) =~= bytes@);
    }
    tokens
}

/// The cell's value and one more, cut to eight bits.
pub fn incremented(cell: Cell) -> (r: Cell)
    ensures
        r == ((cell + 1) % 256) as Cell,
{
    if cell == 255 {
        0
    } else {
        cell + 1
    }
}

/// The cell's value and one less, cut to eight bits.
pub fn decremented(cell: Cell) -> (r: Cell)
    ensures
        r == ((cell - 1) % 256) as Cell,
{
    if cell == 0 {
        255
    } else {
        cell - 1
    }
}

/// Whether `e` is the error of a run on the program text `text` that
/// stopped at `ctx` on `fault`.
pub open spec fn is_execution_error(
    e: BrainfuckError,
    text: Seq<char>,
    ctx: ExecutionContext,
    fault: ExecutionErrorType,
) -> bool {
    match e {
        BrainfuckError::ExecutionError { src, location, ctx: at, err_type } => {
            &&& src@ == text
            &&& location == ctx.instruction_ptr
            &&& at == ctx
            &&& err_type == fault
        },
        _ => false,
    }
}

/// Whether `e` is the error of a program text whose brackets do not pair.
pub open spec fn is_parse_error(e: BrainfuckError, text: Seq<char>) -> bool {
    match e {
        BrainfuckError::ParseError { src, location, err_type, char_index } => {
            &&& src@ == text
            &&& location == char_index
            &&& match err_type {
                LoopErrorType::UnexpectedClosingBracket => first_unexpected_close(
                    encode_utf8(text),
                    char_index as int,
                ),
                LoopErrorType::UnclosedBracket => last_unclosed(
                    encode_utf8(text),
                    char_index as int,
                ),
            }
        },
        _ => false,
    }
}

/// Whether `r` is what the program text `text` gives on a tape of kind `M`
/// with the input `input`, cut off after `fuel` steps: the printed text; or
/// the error of brackets that do not pair; or where the run stopped and why.
pub open spec fn is_interpretation<M: Memory>(
    text: Seq<char>,
    input: Seq<char>,
    fuel: nat,
    r: Result<String, BrainfuckError>,
) -> bool {
    let prog = encode_utf8(text);
    match r {
        Ok(out) => balanced(prog) && spec_run::<M>(prog, RunState::initial(input), fuel) == Ok::<
            Seq<char>,
            (ExecutionContext, ExecutionErrorType),
        >(out@),
        Err(e) => if balanced(prog) {
            match spec_run::<M>(prog, RunState::initial(input), fuel) {
                Ok(_) => false,
                Err((ctx, fault)) => is_execution_error(e, text, ctx, fault),
            }
        } else {
            is_parse_error(e, text)
        },
    }
}

/// A program that has been read, with the tape it runs on and the state of
/// its run.
#[derive(Debug)]
pub struct BrainfuckProgram<M> where M: Memory {
    instructions: Vec<Token>,
    src: String,
    ctx: ExecutionContext,
    loop_table: LoopMap,
    tape: M,
    user_input: Vec<char>,
    output: String,
}

impl<M> View for BrainfuckProgram<M> where M: Memory {
    type V = RunState;

    closed spec fn view(&self) -> RunState {
        RunState {
            ip: self.ctx.instruction_ptr,
            cycle: self.ctx.cycle,
            index: self.ctx.cell_index,
            cells: self.tape.cells(),
            input: self.user_input@,
            output: self.output@,
        }
    }
}

impl<M> BrainfuckProgram<M> where M: Memory {
    /// The program's text.
    pub closed spec fn text(&self) -> Seq<char> {
        self.src@
    }

    /// The program's text as bytes.
    pub open spec fn bytes(&self) -> Seq<u8> {
        encode_utf8(self.text())
    }

    /// Whether the program's instructions and loop table are those of its
    /// text, and its next instruction lies within the text or just behind it.
    pub closed spec fn wf(&self) -> bool {
        &&& self.instructions@ == spec_tokens(self.bytes())
        &&& balanced(self.bytes())
        &&& is_loop_table(self.bytes(), self.loop_table@)
        &&& self.ctx.instruction_ptr <= self.bytes().len()
    }

    /// Reads a program. The run stands at its beginning, with no input.
    pub fn new(src: &str) -> (r: Result<Self, BrainfuckError>)
        ensures
            match r {
                Ok(p) => {
                    &&& p.wf()
                    &&& p.text() == src@
                    &&& balanced(encode_utf8(src@))
                    &&& p@ == RunState::initial(Seq::empty())
                },
                Err(e) => !balanced(encode_utf8(src@)) && is_parse_error(e, src@),
            },
    {
        let loop_table = match verify_loops(src) {
            Ok(table) => table,
            Err(e) => {
                return Err(e);
            },
        };
        Ok(
            Self {
                instructions: parse(src),
                src: String::from_str(src),
                ctx: ExecutionContext::default(),
                loop_table,
                tape: M::init(),
                user_input: Vec::new(),
                output: String::new(),
            },
        )
    }

    /// Puts the characters of `input` behind the input that is still unread.
    pub fn feed(&mut self, input: &str)
        ensures
            final(self)@ == (RunState { input: old(self)@.input + input@, ..old(self)@ }),
            final(self).text() == old(self).text(),
            old(self).wf() ==> final(self).wf(),
    {
        let mut chars = chars_of(input);
        self.user_input.append(&mut chars);
    }

    /// Where the run stands.
    pub fn context(&self) -> (ctx: ExecutionContext)
        ensures
            ctx == self@.context(),
    {
        self.ctx
    }

    /// The text printed so far.
    pub fn output(&self) -> (out: &String)
        ensures
            out@ == self@.output,
    {
        &self.output
    }

    /// The tape, the steps taken, the place of the next instruction and the
    /// index of the current cell.
    pub fn parts(&self) -> (r: (&M, usize, usize, usize))
        ensures
            r.0.cells() == self@.cells,
            r.1 == self@.cycle,
            r.2 == self@.ip,
            r.3 == self@.index,
    {
        (&self.tape, self.ctx.cycle, self.ctx.instruction_ptr, self.ctx.cell_index)
    }

    /// Whether the run has come to the end of the program.
    pub fn finished(&self) -> (b: bool)
        requires
            self.wf(),
        ensures
            b == (self@.ip >= self.bytes().len()),
    {
        self.ctx.instruction_ptr >= self.instructions.len()
    }

    /// The error of a run that stops here on `e`.
    fn execution_err(&self, e: ExecutionErrorType) -> (r: BrainfuckError)
        ensures
            is_execution_error(r, self.text(), self@.context(), e),
    {
        BrainfuckError::ExecutionError {
            src: self.src.clone(),
            location: self.ctx.instruction_ptr,
            ctx: self.ctx,
            err_type: e,
        }
    }

    /// Counts one step and makes `ip` the place of the next instruction.
    fn step(&mut self, ip: usize)
        ensures
            final(self)@ == (RunState {
                ip,
                cycle: if old(self)@.cycle < usize::MAX {
                    (old(self)@.cycle + 1) as usize
                } else {
                    old(self)@.cycle
                },
                ..old(self)@
            }),
            final(self).text() == old(self).text(),
            final(self).instructions == old(self).instructions,
            final(self).loop_table == old(self).loop_table,
    {
        if self.ctx.cycle < usize::MAX {
            self.ctx.cycle = self.ctx.cycle + 1;
        }
        self.ctx.instruction_ptr = ip;
    }

    /// Adds one to the current cell.
    fn increment_cell(&mut self) -> (r: Result<(), BrainfuckError>)
        ensures
            final(self).text() == old(self).text(),
            final(self).instructions == old(self).instructions,
            final(self).loop_table == old(self).loop_table,
            match r {
                Ok(_) => old(self)@.cells.contains_key(old(self)@.index) && final(self)@ == old(
                    self,
                )@.with_value(((old(self)@.cells[old(self)@.index] + 1) % 256) as Cell),
                Err(e) => !old(self)@.cells.contains_key(old(self)@.index) && final(self)@ == old(
                    self,
                )@ && is_execution_error(
                    e,
                    old(self).text(),
                    old(self)@.context(),
                    ExecutionErrorType::MemoryError(Error::CellAccessError(old(self)@.index)),
                ),
            },
    {
        match self.tape.modify(self.ctx.cell_index, incremented) {
            Ok(_) => Ok(()),
            Err(e) => Err(self.execution_err(ExecutionErrorType::MemoryError(e))),
        }
    }

    /// Takes one from the current cell.
    fn decrement_cell(&mut self) -> (r: Result<(), BrainfuckError>)
        ensures
            final(self).text() == old(self).text(),
            final(self).instructions == old(self).instructions,
            final(self).loop_table == old(self).loop_table,
            match r {
                Ok(_) => old(self)@.cells.contains_key(old(self)@.index) && final(self)@ == old(
                    self,
                )@.with_value(((old(self)@.cells[old(self)@.index] - 1) % 256) as Cell),
                Err(e) => !old(self)@.cells.contains_key(old(self)@.index) && final(self)@ == old(
                    self,
                )@ && is_execution_error(
                    e,
                    old(self).text(),
                    old(self)@.context(),
                    ExecutionErrorType::MemoryError(Error::CellAccessError(old(self)@.index)),
                ),
            },
    {
        match self.tape.modify(self.ctx.cell_index, decremented) {
            Ok(_) => Ok(()),
            Err(e) => Err(self.execution_err(ExecutionErrorType::MemoryError(e))),
        }
    }

    /// Moves to the cell on the right.
    fn move_right(&mut self) -> (r: Result<(), BrainfuckError>)
        ensures
            final(self).text() == old(self).text(),
            final(self).instructions == old(self).instructions,
            final(self).loop_table == old(self).loop_table,
            match r {
                Ok(_) => M::spec_right(old(self)@.cells, old(self)@.index) == Ok::<
                    (usize, Map<usize, Cell>),
                    Error,
                >((final(self)@.index, final(self)@.cells)) && final(self)@ == (RunState {
                    index: final(self)@.index,
                    cells: final(self)@.cells,
                    ..old(self)@
                }),
                Err(e) => final(self)@ == old(self)@ && match M::spec_right(
                    old(self)@.cells,
                    old(self)@.index,
                ) {
                    Ok(_) => false,
                    Err(fault) => is_execution_error(
                        e,
                        old(self).text(),
                        old(self)@.context(),
                        ExecutionErrorType::MemoryError(fault),
                    ),
                },
            },
    {
        match self.tape.move_right(self.ctx.cell_index) {
            Ok(new_index) => {
                self.ctx.cell_index = new_index;
                Ok(())
            },
            Err(e) => Err(self.execution_err(ExecutionErrorType::MemoryError(e))),
        }
    }

    /// Moves to the cell on the left.
    fn move_left(&mut self) -> (r: Result<(), BrainfuckError>)
        ensures
            final(self).text() == old(self).text(),
            final(self).instructions == old(self).instructions,
            final(self).loop_table == old(self).loop_table,
            match r {
                Ok(_) => M::spec_left(old(self)@.cells, old(self)@.index) == Ok::<
                    (usize, Map<usize, Cell>),
                    Error,
                >((final(self)@.index, final(self)@.cells)) && final(self)@ == (RunState {
                    index: final(self)@.index,
                    cells: final(self)@.cells,
                    ..old(self)@
                }),
                Err(e) => final(self)@ == old(self)@ && match M::spec_left(
                    old(self)@.cells,
                    old(self)@.index,
                ) {
                    Ok(_) => false,
                    Err(fault) => is_execution_error(
                        e,
                        old(self).text(),
                        old(self)@.context(),
                        ExecutionErrorType::MemoryError(fault),
                    ),
                },
            },
    {
        match self.tape.move_left(self.ctx.cell_index) {
            Ok(new_index) => {
                self.ctx.cell_index = new_index;
                Ok(())
            },
            Err(e) => Err(self.execution_err(ExecutionErrorType::MemoryError(e))),
        }
    }

    /// Puts `val` into the current cell.
    fn set_cell_val(&mut self, val: Cell) -> (r: Result<(), BrainfuckError>)
        ensures
            final(self).text() == old(self).text(),
            final(self).instructions == old(self).instructions,
            final(self).loop_table == old(self).loop_table,
            match r {
                Ok(_) => old(self)@.cells.contains_key(old(self)@.index) && final(self)@ == old(
                    self,
                )@.with_value(val),
                Err(e) => !old(self)@.cells.contains_key(old(self)@.index) && final(self)@ == old(
                    self,
                )@ && is_execution_error(
                    e,
                    old(self).text(),
                    old(self)@.context(),
                    ExecutionErrorType::MemoryError(Error::CellAccessError(old(self)@.index)),
                ),
            },
    {
        let put = |_c: Cell| -> (r: Cell)
            ensures
                r == val,
            { val };
        match self.tape.modify(self.ctx.cell_index, put) {
            Ok(_) => Ok(()),
            Err(e) => Err(self.execution_err(ExecutionErrorType::MemoryError(e))),
        }
    }

    /// The value of the current cell.
    fn cell_value(&self) -> (r: Result<Cell, BrainfuckError>)
        ensures
            match r {
                Ok(v) => self@.cells.contains_key(self@.index) && v == self@.cells[self@.index],
                Err(e) => !self@.cells.contains_key(self@.index) && is_execution_error(
                    e,
                    self.text(),
                    self@.context(),
                    ExecutionErrorType::MemoryError(Error::CellAccessError(self@.index)),
                ),
            },
    {
        match self.tape.cell_value(self.ctx.cell_index) {
            Ok(v) => Ok(v),
            Err(e) => Err(self.execution_err(ExecutionErrorType::MemoryError(e))),
        }
    }

    /// Takes the next character of the input into the current cell.
    fn get_input(&mut self) -> (r: Result<(), BrainfuckError>)
        ensures
            final(self).text() == old(self).text(),
            final(self).instructions == old(self).instructions,
            final(self).loop_table == old(self).loop_table,
            match r {
                Ok(_) => {
                    &&& old(self)@.input.len() > 0
                    &&& old(self)@.cells.contains_key(old(self)@.index)
                    &&& final(self)@ == (RunState {
                        input: old(self)@.input.drop_first(),
                        ..old(self)@
                    }).with_value(spec_input_byte(old(self)@.input[0]))
                },
                Err(e) => final(self)@ == old(self)@ && if old(self)@.input.len() == 0 {
                    is_execution_error(
                        e,
                        old(self).text(),
                        old(self)@.context(),
                        ExecutionErrorType::InputError,
                    )
                } else {
                    !old(self)@.cells.contains_key(old(self)@.index) && is_execution_error(
                        e,
                        old(self).text(),
                        old(self)@.context(),
                        ExecutionErrorType::MemoryError(Error::CellAccessError(old(self)@.index)),
                    )
                },
            },
    {
        if self.user_input.len() == 0 {
            return Err(self.execution_err(ExecutionErrorType::InputError));
        }
        match self.cell_value() {
            Ok(_) => {},
            Err(e) => {
                return Err(e);
            },
        }
        let first = self.user_input.remove(0);
        proof {
            assert(self.user_input@ =~= old(self).user_input@.drop_first());
        }
        let code: u32 = first as u32;
        self.set_cell_val((code % 256) as Cell)
    }

    /// At a bracket: goes to its partner where the current cell says so.
    fn jump(&mut self, jump_type: LoopType) -> (r: Result<(), BrainfuckError>)
        requires
            old(self).wf(),
            old(self)@.ip < old(self).bytes().len(),
            spec_token(old(self).bytes()[old(self)@.ip as int]) == Token::Loop(jump_type),
        ensures
            final(self).text() == old(self).text(),
            final(self).instructions == old(self).instructions,
            final(self).loop_table == old(self).loop_table,
            match r {
                Ok(_) => {
                    &&& old(self)@.cells.contains_key(old(self)@.index)
                    &&& final(self)@.ip < old(self).bytes().len()
                    &&& final(self)@ == (RunState {
                        ip: if (jump_type == LoopType::Start) == (old(self)@.cells[old(
                            self,
                        )@.index] == 0) {
                            spec_partner(old(self).bytes(), old(self)@.ip as int) as usize
                        } else {
                            old(self)@.ip
                        },
                        ..old(self)@
                    })
                },
                Err(e) => !old(self)@.cells.contains_key(old(self)@.index) && final(self)@ == old(
                    self,
                )@ && is_execution_error(
                    e,
                    old(self).text(),
                    old(self)@.context(),
                    ExecutionErrorType::MemoryError(Error::CellAccessError(old(self)@.index)),
                ),
            },
    {
        let cell_val = match self.cell_value() {
            Ok(v) => v,
            Err(e) => {
                return Err(e);
            },
        };
        let jumps = match jump_type {
            LoopType::Start => cell_val == 0,
            LoopType::End => cell_val != 0,
        };
        if jumps {
            let ip = self.ctx.instruction_ptr;
            proof {
                assert(is_bracket_at(self.bytes(), ip as int));
                assert(self.loop_table@.contains_key(ip));
            }
            match self.loop_table.get(&ip) {
                Some(target) => {
                    proof {
                        let prog = self.bytes();
                        let partner = spec_partner(prog, ip as int);
                        if prog[ip as int] == OPEN {
                            assert(is_pair(prog, ip as int, *target as int));
                            assert(is_pair(prog, ip as int, partner));
                            lemma_pair_unique(prog, ip as int, *target as int, ip as int, partner);
                        } else {
                            assert(is_pair(prog, *target as int, ip as int));
                            assert(is_pair(prog, partner, ip as int));
                            lemma_pair_unique(prog, *target as int, ip as int, partner, ip as int);
                        }
                    }
                    self.ctx.instruction_ptr = *target;
                },
                None => {
                    return Err(self.execution_err(ExecutionErrorType::LoopError(ip)));
                },
            }
        }
        Ok(())
    }

    /// Executes the next instruction. The run must not have come to the
    /// program's end. On a fault the state stays as it was.
    pub fn execute_next(&mut self) -> (r: Result<(), BrainfuckError>)
        requires
            old(self).wf(),
            old(self)@.ip < old(self).bytes().len(),
        ensures
            final(self).wf(),
            final(self).text() == old(self).text(),
            match r {
                Ok(_) => spec_step::<M>(old(self).bytes(), old(self)@) == Ok::<
                    RunState,
                    ExecutionErrorType,
                >(final(self)@),
                Err(e) => final(self)@ == old(self)@ && match spec_step::<M>(
                    old(self).bytes(),
                    old(self)@,
                ) {
                    Ok(_) => false,
                    Err(fault) => is_execution_error(
                        e,
                        old(self).text(),
                        old(self)@.context(),
                        fault,
                    ),
                },
            },
    {
        let instruction = self.instructions[self.ctx.instruction_ptr];
        let done = match instruction {
            Token::Increment => self.increment_cell(),
            Token::Decrement => self.decrement_cell(),
            Token::MoveLeft => self.move_left(),
            Token::MoveRight => self.move_right(),
            Token::Print => match self.cell_value() {
                Ok(v) => {
                    self.output.push(v as char);
                    Ok(())
                },
                Err(e) => Err(e),
            },
            Token::Input => self.get_input(),
            Token::Loop(l) => self.jump(l),
            Token::Other => Ok(()),
        };
        match done {
            Ok(_) => {
                let count = self.instructions.len();
                assert(self.ctx.instruction_ptr < count);
                self.step(self.ctx.instruction_ptr + 1);
                Ok(())
            },
            Err(e) => Err(e),
        }
    }

    /// Runs the program from where it stands to its end, for `max_steps`
    /// steps at most, and gives all that it has printed. A run that is cut
    /// off stops on `StepLimit`.
    pub fn run(&mut self, max_steps: usize) -> (r: Result<String, BrainfuckError>)
        requires
            old(self).wf(),
        ensures
            final(self).wf(),
            final(self).text() == old(self).text(),
            match r {
                Ok(out) => spec_run::<M>(old(self).bytes(), old(self)@, max_steps as nat) == Ok::<
                    Seq<char>,
                    (ExecutionContext, ExecutionErrorType),
                >(out@),
                Err(e) => match spec_run::<M>(old(self).bytes(), old(self)@, max_steps as nat) {
                    Ok(_) => false,
                    Err((ctx, fault)) => is_execution_error(e, old(self).text(), ctx, fault),
                },
            },
    {
        let ghost prog = self.bytes();
        let ghost start = self@;
        let mut steps: usize = 0;
        while steps < max_steps && self.ctx.instruction_ptr < self.instructions.len()
            invariant
                steps <= max_steps,
                self.wf(),
                self.text() == old(self).text(),
                prog == self.bytes(),
                start == old(self)@,
                spec_trace::<M>(prog, start, steps as nat) == Progress::Going(self@),
            decreases max_steps - steps,
        {
            let ghost before = self@;
            match self.execute_next() {
                Ok(_) => {},
                Err(e) => {
                    proof {
                        assert(spec_step::<M>(prog, before) is Err);
                        assert(spec_trace::<M>(prog, start, steps as nat) == Progress::Going(
                            before,
                        ));
                        assert(spec_trace::<M>(prog, start, (steps + 1) as nat)
                            == Progress::Failed(before, spec_step::<M>(prog, before)->Err_0));
                        lemma_trace_ended::<M>(prog, start, (steps + 1) as nat, max_steps as nat);
                    }
                    return Err(e);
                },
            }
            steps = steps + 1;
        }
        if self.ctx.instruction_ptr < self.instructions.len() {
            return Err(self.execution_err(ExecutionErrorType::StepLimit));
        }
        proof {
            lemma_trace_ended::<M>(prog, start, steps as nat, max_steps as nat);
        }
        Ok(self.output.clone())
    }
}

impl BrainfuckProgram<Linear> {
    /// Reads a program that runs on a tape without wrap-around.
    pub fn linear_memory_executor(src: &str) -> (r: Result<Self, BrainfuckError>)
        ensures
            match r {
                Ok(p) => {
                    &&& p.wf()
                    &&& p.text() == src@
                    &&& balanced(encode_utf8(src@))
                    &&& p@ == RunState::initial(Seq::empty())
                },
                Err(e) => !balanced(encode_utf8(src@)) && is_parse_error(e, src@),
            },
    {
        Self::new(src)
    }
}

impl BrainfuckProgram<Wrapping> {
    /// Reads a program that runs on a tape whose index wraps around.
    pub fn wrapping_executor(src: &str) -> (r: Result<Self, BrainfuckError>)
        ensures
            match r {
                Ok(p) => {
                    &&& p.wf()
                    &&& p.text() == src@
                    &&& balanced(encode_utf8(src@))
                    &&& p@ == RunState::initial(Seq::empty())
                },
                Err(e) => !balanced(encode_utf8(src@)) && is_parse_error(e, src@),
            },
    {
        Self::new(src)
    }
}

} // verus!
