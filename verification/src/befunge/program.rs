//! The interpreter: the machine's state in memory, one step, and whole runs.

use vstd::prelude::*;
use crate::befunge::cell::{Cell, to_char};
use crate::befunge::chance::choose_one;
use crate::befunge::input::Input;
use crate::befunge::model::{
    Ending, Fault, Machine, QUOTE, Status, World, lemma_step_ignores_chance, lemma_trace_prefix,
    lemma_trace_stopped, spec_chance, spec_char_output, spec_fetch, spec_int_output, spec_run,
    spec_start, spec_step, spec_trace, stack_drop, stack_peek, truth, wrapping_difference,
    wrapping_product, wrapping_sum,
};
use crate::befunge::space::{Direction, Grid, Pos, spec_advance};
use crate::befunge::tokens::{Data, Token};
use crate::text::{decimal, push_decimal};

verus! {

/// A loaded program together with the state of the machine that runs it.
#[derive(Debug)]
pub struct Program {
    pos: Pos,
    dir: Direction,
    field: Grid,
    string_mode: bool,
    stack: Vec<Data>,
}

/// How a run ended, with all that it printed.
#[derive(Debug)]
pub enum Outcome {
    /// The program ended the run.
    Halted(String),
    /// The run stopped on a fault.
    Faulted(Fault, String),
    /// The run was cut off after the steps it was allowed.
    Aborted(String),
}

impl View for Outcome {
    type V = Ending;

    open spec fn view(&self) -> Ending {
        match self {
            Outcome::Halted(s) => Ending::Halted(s@),
            Outcome::Faulted(f, s) => Ending::Faulted(*f, s@),
            Outcome::Aborted(s) => Ending::Aborted(s@),
        }
    }
}

/// The text that an ending carries.
pub open spec fn spec_ending_output(e: Ending) -> Seq<char> {
    match e {
        Ending::Halted(s) => s,
        Ending::Faulted(_, s) => s,
        Ending::Aborted(s) => s,
    }
}

impl Outcome {
    /// All that the run printed, however it ended.
    pub fn output(self) -> (s: String)
        ensures
            s@ == spec_ending_output(self@),
    {
        match self {
            Outcome::Halted(s) => s,
            Outcome::Faulted(_, s) => s,
            Outcome::Aborted(s) => s,
        }
    }

    /// Whether the program itself ended the run.
    pub fn is_halted(&self) -> (b: bool)
        ensures
            b == (self@ is Halted),
    {
        match self {
            Outcome::Halted(_) => true,
            _ => false,
        }
    }

    /// The fault on which the run stopped, if it stopped on one.
    pub fn fault(&self) -> (f: Option<Fault>)
        ensures
            f == match self@ {
                Ending::Faulted(fault, _) => Some(fault),
                _ => None,
            },
    {
        match self {
            Outcome::Faulted(f, _) => Some(*f),
            _ => None,
        }
    }
}

/// The numbers of a stack in decimal notation, from the bottom up, with one
/// space between two neighbours.
pub open spec fn spec_stack_text(stack: Seq<Data>) -> Seq<char>
    decreases stack.len(),
{
    if stack.len() == 0 {
        Seq::empty()
    } else if stack.len() == 1 {
        decimal(stack[0] as nat)
    } else {
        spec_stack_text(stack.drop_last()).push(' ') + decimal(stack.last() as nat)
    }
}

/// Dropping `i` values and then `j` drops `i + j`, and what lies at depth
/// `d` under the rest lay at depth `i + d` before.
pub proof fn lemma_drop_drop(stack: Seq<Data>, i: int, j: int, d: int)
    requires
        0 <= i,
        0 <= j,
        0 <= d,
    ensures
        stack_drop(stack_drop(stack, i), j) == stack_drop(stack, i + j),
        stack_peek(stack_drop(stack, i), d) == stack_peek(stack, i + d),
{
    assert(stack_drop(stack_drop(stack, i), j) =~= stack_drop(stack, i + j));
}

/// The sum of the two upper values, cut to the width of `Data`.
pub fn sum_of(a: Data, b: Data) -> (r: Data)
    ensures
        r == wrapping_sum(a, b),
{
    ((a as u32 + b as u32) % 0x1_0000) as Data
}

/// The lower value less the upper one, cut to the width of `Data`.
pub fn difference_of(a: Data, b: Data) -> (r: Data)
    ensures
        r == wrapping_difference(a, b),
{
    ((b as u32 + 0x1_0000 - a as u32) % 0x1_0000) as Data
}

/// The product of the two upper values, cut to the width of `Data`.
pub fn product_of(a: Data, b: Data) -> (r: Data)
    ensures
        r == wrapping_product(a, b),
{
    assert(a * b <= 0xFFFF * 0xFFFF) by (nonlinear_arith)
        requires
            a <= 0xFFFF,
            b <= 0xFFFF,
    ;
    ((a as u32 * b as u32) % 0x1_0000) as Data
}

/// 1 for zero and 0 for any other value.
pub fn negation_of(a: Data) -> (r: Data)
    ensures
        r == truth(a == 0),
{
    if a == 0 {
        1
    } else {
        0
    }
}

/// 1 where the lower value is greater than the upper one, else 0.
pub fn greater_of(a: Data, b: Data) -> (r: Data)
    ensures
        r == truth(b > a),
{
    if b > a {
        1
    } else {
        0
    }
}

impl View for Program {
    type V = Machine;

    closed spec fn view(&self) -> Machine {
        Machine {
            grid: self.field@,
            row: self.pos.row as int,
            col: self.pos.col as int,
            dir: self.dir,
            string_mode: self.string_mode,
            stack: self.stack@,
        }
    }
}

impl Program {
    /// Whether the program's grid is whole and its pointer on the grid.
    pub closed spec fn wf(&self) -> bool {
        self.field.wf() && self.pos.wf()
    }

    /// The state of a program in good standing is a state of the machine.
    pub proof fn lemma_wf(&self)
        requires
            self.wf(),
        ensures
            self@.wf(),
    {
        self.field.lemma_shape();
    }

    /// Loads `src` and puts the machine into its initial state.
    pub fn new(src: &str) -> (p: Self)
        ensures
            p.wf(),
            p@ == Machine::load(src@),
    {
        Self {
            pos: Pos::default(),
            dir: Direction::default(),
            field: Grid::new(src),
            string_mode: false,
            stack: Vec::new(),
        }
    }

    /// The position of the instruction pointer.
    pub fn position(&self) -> (p: Pos)
        requires
            self.wf(),
        ensures
            p.wf(),
            p.row == self@.row,
            p.col == self@.col,
    {
        self.pos
    }

    /// The direction in which the pointer moves.
    pub fn direction(&self) -> (d: Direction)
        ensures
            d == self@.dir,
    {
        self.dir
    }

    /// Whether the machine is in string mode.
    pub fn in_string_mode(&self) -> (b: bool)
        ensures
            b == self@.string_mode,
    {
        self.string_mode
    }

    /// The operand stack, from the bottom up.
    pub fn stack(&self) -> (s: &Vec<Data>)
        ensures
            s@ == self@.stack,
    {
        &self.stack
    }

    /// The position one move further in the current direction.
    pub fn next_pos(&self) -> (p: Pos)
        requires
            self.wf(),
        ensures
            p.wf(),
            (p.row as int, p.col as int) == spec_advance(self@.row, self@.col, self@.dir),
    {
        self.pos.advance(self.dir)
    }

    /// The cell one move further in the current direction.
    pub fn next_cell(&self) -> (c: Cell)
        requires
            self.wf(),
        ensures
            c@ == self@.grid[self@.moved().row][self@.moved().col],
    {
        self.get(self.next_pos())
    }

    /// Takes the top value off the stack; an empty stack gives zero and stays empty.
    pub fn pop(&mut self) -> (r: Data)
        ensures
            r == stack_peek(old(self)@.stack, 0),
            final(self)@ == old(self)@.with_stack(stack_drop(old(self)@.stack, 1)),
            old(self).wf() ==> final(self).wf(),
    {
        let r = match self.stack.pop() {
            Some(v) => v,
            None => 0,
        };
        assert(self.stack@ =~= stack_drop(old(self).stack@, 1));
        r
    }

    /// Replaces the top value `a` by `f(a)`.
    pub fn op1<F>(&mut self, f: F) where F: Fn(Data) -> Data
        requires
            forall|a: Data| #[trigger] f.requires((a,)),
        ensures
            f.ensures((stack_peek(old(self)@.stack, 0),), stack_peek(final(self)@.stack, 0)),
            final(self)@ == old(self)@.with_stack(
                stack_drop(old(self)@.stack, 1).push(stack_peek(final(self)@.stack, 0)),
            ),
            old(self).wf() ==> final(self).wf(),
    {
        let val = self.pop();
        let res = f(val);
        self.push(res);
    }

    /// Replaces the two upper values, `a` on top of `b`, by `f(a, b)`.
    pub fn op2<F>(&mut self, f: F) where F: Fn(Data, Data) -> Data
        requires
            forall|a: Data, b: Data| #[trigger] f.requires((a, b)),
        ensures
            f.ensures(
                (stack_peek(old(self)@.stack, 0), stack_peek(old(self)@.stack, 1)),
                stack_peek(final(self)@.stack, 0),
            ),
            final(self)@ == old(self)@.with_stack(
                stack_drop(old(self)@.stack, 2).push(stack_peek(final(self)@.stack, 0)),
            ),
            old(self).wf() ==> final(self).wf(),
    {
        let a = self.pop();
        let b = self.pop();
        proof {
            lemma_drop_drop(old(self)@.stack, 1, 1, 0);
        }
        let res = f(a, b);
        self.push(res);
    }

    /// Puts `val` on top of the stack.
    pub fn push(&mut self, val: Data)
        ensures
            final(self)@ == old(self)@.with_stack(old(self)@.stack.push(val)),
            old(self).wf() ==> final(self).wf(),
    {
        self.stack.push(val);
    }

    /// The stack as text: its numbers from the bottom up, a space between two.
    pub fn print_stack(&self) -> (s: String)
        ensures
            s@ == spec_stack_text(self@.stack),
    {
        let mut s = String::new();
        let mut i: usize = 0;
        while i < self.stack.len()
            invariant
                i <= self.stack@.len(),
                s@ == spec_stack_text(self.stack@.take(i as int)),
            decreases self.stack@.len() - i,
        {
            proof {
                assert(self.stack@.take(i + 1).drop_last() =~= self.stack@.take(i as int));
            }
            if i > 0 {
                s.push(' ');
            }
            push_decimal(&mut s, self.stack[i] as u64);
            i = i + 1;
        }
        proof {
            assert(self.stack@.take(i as int) =~= self.stack@);
        }
        s
    }

    /// The cell at `index`.
    pub fn get(&self, index: Pos) -> (c: Cell)
        requires
            self.wf(),
            index.wf(),
        ensures
            c@ == self@.grid[index.row as int][index.col as int],
    {
        self.field.read(index)
    }

    /// Writes `val` into the cell at `index`.
    pub fn insert(&mut self, index: Pos, val: Cell)
        requires
            old(self).wf(),
            index.wf(),
        ensures
            final(self).wf(),
            final(self)@ == (Machine {
                grid: old(self)@.grid.update(
                    index.row as int,
                    old(self)@.grid[index.row as int].update(index.col as int, val@),
                ),
                ..old(self)@
            }),
    {
        self.field.write(index, val);
    }

    /// What `Get` pushes for the row `x` and the column `y`: the number in
    /// that cell, or zero where the place is not on the grid.
    pub fn fetch(&self, x: Data, y: Data) -> (r: Data)
        requires
            self.wf(),
        ensures
            r == spec_fetch(self@.grid, x, y),
    {
        match Pos::checked(x, y) {
            Some(pos) => self.get(pos).to_num(),
            None => 0,
        }
    }

    /// Whether the next step draws a direction by chance.
    pub fn wants_chance(&self) -> (b: bool)
        requires
            self.wf(),
        ensures
            b == self@.wants_chance(),
    {
        if self.string_mode {
            false
        } else {
            match self.get(self.pos).to_token() {
                Some(Token::MoveRandom) => true,
                _ => false,
            }
        }
    }

    /// Moves the pointer one cell in the current direction.
    fn go(&mut self)
        requires
            old(self).wf(),
        ensures
            final(self).wf(),
            final(self)@ == old(self)@.moved(),
    {
        self.pos = self.pos.advance(self.dir);
    }

    /// One step of the machine. It reads from `input` where the instruction
    /// asks for input, appends to `output` what the instruction prints, and
    /// takes `chance` as its direction where the instruction is `MoveRandom`.
    pub fn step(&mut self, input: &mut Input, output: &mut String, chance: Direction) -> (status:
        Status)
        requires
            old(self).wf(),
            old(input).wf(),
        ensures
            final(self).wf(),
            final(input).wf(),
            final(self)@ == spec_step(old(self)@, old(input)@, chance).machine,
            final(input)@ == spec_step(old(self)@, old(input)@, chance).input,
            final(output)@ == old(output)@ + spec_step(old(self)@, old(input)@, chance).emitted,
            status == spec_step(old(self)@, old(input)@, chance).status,
    {
        let ghost m = self@;
        let ghost out = output@;
        proof {
            assert(out + Seq::<char>::empty() =~= out);
        }
        let cell = self.get(self.pos);
        if self.string_mode {
            if cell.to_num() == QUOTE {
                self.string_mode = false;
            } else {
                self.push(cell.to_num());
            }
            self.go();
            return Status::Running;
        }
        let token = match cell.to_token() {
            Some(t) => t,
            None => {
                self.go();
                return Status::Running;
            },
        };
        proof {
            lemma_drop_drop(m.stack, 1, 1, 0);
            lemma_drop_drop(m.stack, 2, 1, 0);
            lemma_drop_drop(m.stack, 1, 1, 1);
        }
        match token {
            Token::Add => self.op2(sum_of),
            Token::Sub => self.op2(difference_of),
            Token::Mul => self.op2(product_of),
            Token::Div => {
                let a = self.pop();
                let b = self.pop();
                if a == 0 {
                    return Status::Faulted(Fault::DivisionByZero);
                }
                self.push(b / a);
            },
            Token::Mod => {
                let a = self.pop();
                let b = self.pop();
                if a == 0 {
                    return Status::Faulted(Fault::DivisionByZero);
                }
                self.push(b % a);
            },
            Token::LogicalNot => self.op1(negation_of),
            Token::GreaterThan => self.op2(greater_of),
            Token::MoveRight => self.dir = Direction::Right,
            Token::MoveLeft => self.dir = Direction::Left,
            Token::MoveUp => self.dir = Direction::Up,
            Token::MoveDown => self.dir = Direction::Down,
            Token::MoveRandom => self.dir = chance,
            Token::HorizontalIf => {
                if self.pop() == 0 {
                    self.dir = Direction::Right;
                } else {
                    self.dir = Direction::Left;
                }
            },
            Token::VerticalIf => {
                if self.pop() == 0 {
                    self.dir = Direction::Down;
                } else {
                    self.dir = Direction::Up;
                }
            },
            Token::StringModeToggle => self.string_mode = true,
            Token::Duplicate => {
                let val = self.pop();
                self.push(val);
                self.push(val);
            },
            Token::Swap => {
                let a = self.pop();
                let b = self.pop();
                self.push(a);
                self.push(b);
            },
            Token::Discard => {
                self.pop();
            },
            Token::IntOutput => {
                let n = self.pop();
                push_decimal(output, n as u64);
                output.push(' ');
                proof {
                    assert(output@ =~= out + spec_int_output(n));
                }
            },
            Token::CharOutput => {
                let c = to_char(self.pop());
                if c != '\0' {
                    output.push(c);
                }
                proof {
                    assert(output@ =~= out + spec_char_output(stack_peek(m.stack, 0)));
                }
            },
            Token::Bridge => self.go(),
            Token::Get => {
                let y = self.pop();
                let x = self.pop();
                let value = self.fetch(x, y);
                self.push(value);
            },
            Token::Put => {
                let y = self.pop();
                let x = self.pop();
                let v = self.pop();
                match Pos::checked(x, y) {
                    Some(pos) => self.insert(pos, Cell::new(v)),
                    None => {
                        return Status::Faulted(Fault::PutOutOfBounds);
                    },
                }
            },
            Token::UserIntInput => {
                match input.read_int() {
                    Some(n) => self.push(n),
                    None => {
                        return Status::Faulted(Fault::InputExhausted);
                    },
                }
            },
            Token::UserCharInput => {
                match input.read_char() {
                    Some(b) => self.push(b as Data),
                    None => {
                        return Status::Faulted(Fault::InputExhausted);
                    },
                }
            },
            Token::Exit => {
                return Status::Halted;
            },
            Token::PushNumber(num) => self.push(num),
            Token::Blank => {},
            Token::Unknown(_) => {},
        }
        self.go();
        Status::Running
    }

    /// Runs the program until it halts or faults, for `max_steps` steps at
    /// most. The machine reads from `input`; its random directions are taken
    /// from `chances` in order, and are `Right` once `chances` has run out.
    pub fn run_scripted(
        self,
        input: Input,
        chances: &Vec<Direction>,
        max_steps: u64,
    ) -> (r: Outcome)
        requires
            self.wf(),
            input.wf(),
        ensures
            r@ == spec_run(self@, input@, chances@, max_steps as nat),
    {
        let ghost start = spec_start(self@, input@);
        let mut program = self;
        let mut feed = input;
        let mut output = String::new();
        let mut status = Status::Running;
        let mut steps: u64 = 0;
        let mut drawn: usize = 0;
        while steps < max_steps && status == Status::Running
            invariant
                steps <= max_steps,
                program.wf(),
                feed.wf(),
                drawn <= chances@.len(),
                (World {
                    machine: program@,
                    input: feed@,
                    output: output@,
                    status,
                    drawn: spec_trace(start, chances@, steps as nat).drawn,
                }) == spec_trace(start, chances@, steps as nat),
                drawn == if spec_trace(start, chances@, steps as nat).drawn < chances@.len() {
                    spec_trace(start, chances@, steps as nat).drawn
                } else {
                    chances@.len()
                },
            decreases max_steps - steps,
        {
            let chance = if drawn < chances.len() {
                chances[drawn]
            } else {
                Direction::Right
            };
            if drawn < chances.len() && program.wants_chance() {
                drawn = drawn + 1;
            }
            status = program.step(&mut feed, &mut output, chance);
            steps = steps + 1;
        }
        proof {
            if steps < max_steps {
                lemma_trace_stopped(start, chances@, steps as nat, max_steps as nat);
            }
        }
        match status {
            Status::Running => Outcome::Aborted(output),
            Status::Halted => Outcome::Halted(output),
            Status::Faulted(fault) => Outcome::Faulted(fault, output),
        }
    }

    /// Runs the program until it halts or faults, for `max_steps` steps at
    /// most. The machine reads from `input` and draws its random directions
    /// from the thread's random number generator. The run ends as the run
    /// with some sequence of directions ends.
    pub fn run(self, input: Input, max_steps: u64) -> (r: Outcome)
        requires
            self.wf(),
            input.wf(),
        ensures
            exists|chances: Seq<Direction>|
                r@ == #[trigger] spec_run(self@, input@, chances, max_steps as nat),
    {
        let ghost start = spec_start(self@, input@);
        let ghost mut chances: Seq<Direction> = Seq::empty();
        let options = vec![Direction::Right, Direction::Left, Direction::Up, Direction::Down];
        let mut rng = rand::thread_rng();
        let mut program = self;
        let mut feed = input;
        let mut output = String::new();
        let mut status = Status::Running;
        let mut steps: u64 = 0;
        while steps < max_steps && status == Status::Running
            invariant
                steps <= max_steps,
                program.wf(),
                feed.wf(),
                options@.len() == 4,
                (World {
                    machine: program@,
                    input: feed@,
                    output: output@,
                    status,
                    drawn: chances.len(),
                }) == spec_trace(start, chances, steps as nat),
            decreases max_steps - steps,
        {
            let ghost before = chances;
            let chance = if program.wants_chance() {
                let drawn = choose_one(&options, &mut rng);
                proof {
                    chances = chances.push(drawn);
                }
                drawn
            } else {
                Direction::Right
            };
            proof {
                lemma_trace_prefix(start, before, chances, steps as nat);
                if !program@.wants_chance() {
                    lemma_step_ignores_chance(
                        program@,
                        feed@,
                        chance,
                        spec_chance(chances, before.len()),
                    );
                }
            }
            status = program.step(&mut feed, &mut output, chance);
            steps = steps + 1;
        }
        proof {
            if steps < max_steps {
                lemma_trace_stopped(start, chances, steps as nat, max_steps as nat);
            }
        }
        let r = match status {
            Status::Running => Outcome::Aborted(output),
            Status::Halted => Outcome::Halted(output),
            Status::Faulted(fault) => Outcome::Faulted(fault, output),
        };
        proof {
            assert(r@ == spec_run(self@, input@, chances, max_steps as nat));
        }
        r
    }
}

} // verus!
