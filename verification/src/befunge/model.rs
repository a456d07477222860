//! The machine as mathematics: its state, what one step does to it, and what
//! a run of many steps leaves behind. The executable interpreter is proved
//! against these definitions.

use vstd::prelude::*;
use crate::befunge::cell::{spec_cell_token, spec_to_char};
use crate::befunge::input::{spec_read_byte, spec_read_int};
use crate::befunge::space::{
    Direction, MAX_HEIGHT, MAX_WIDTH, spec_advance, spec_grid_shape, spec_load,
};
use crate::befunge::tokens::{Data, Token};
use crate::text::decimal;

verus! {

/// The code of the character that opens and closes a string.
pub const QUOTE: Data = 34;

/// The state of the machine between two steps.
pub struct Machine {
    /// Program space, row by row.
    pub grid: Seq<Seq<Data>>,
    /// The row of the instruction pointer.
    pub row: int,
    /// The column of the instruction pointer.
    pub col: int,
    /// The direction in which the pointer moves.
    pub dir: Direction,
    /// Whether cells are pushed as they stand instead of being executed.
    pub string_mode: bool,
    /// The operand stack; its last element is the top.
    pub stack: Seq<Data>,
}

/// Why a run stopped before the program ended it.
#[derive(Debug, PartialEq, Eq, Clone, Copy, Structural)]
pub enum Fault {
    /// A division or a remainder whose divisor is zero.
    DivisionByZero,
    /// A write to a place that is not on the grid.
    PutOutOfBounds,
    /// A read when the input holds nothing more to read.
    InputExhausted,
}

/// Whether the machine goes on.
#[derive(Debug, PartialEq, Eq, Clone, Copy, Structural)]
pub enum Status {
    Running,
    Halted,
    Faulted(Fault),
}

/// What one step leaves behind.
pub struct Turn {
    /// The state after the step.
    pub machine: Machine,
    /// The input that is still unread.
    pub input: Seq<u8>,
    /// The text that the step printed.
    pub emitted: Seq<char>,
    /// Whether the machine goes on after the step.
    pub status: Status,
}

impl Machine {
    /// Whether the grid has the shape of program space and the pointer is on it.
    pub open spec fn wf(self) -> bool {
        &&& spec_grid_shape(self.grid)
        &&& 0 <= self.row < MAX_HEIGHT
        &&& 0 <= self.col < MAX_WIDTH
    }

    /// The state in which every run begins: the pointer in the upper left
    /// corner, moving right, outside string mode, with an empty stack.
    pub open spec fn initial(grid: Seq<Seq<Data>>) -> Machine {
        Machine {
            grid,
            row: 0,
            col: 0,
            dir: Direction::Right,
            string_mode: false,
            stack: Seq::empty(),
        }
    }

    /// The state in which the run of a source text begins.
    pub open spec fn load(text: Seq<char>) -> Machine {
        Machine::initial(spec_load(text))
    }

    /// The number in the cell under the pointer.
    pub open spec fn current(self) -> Data {
        self.grid[self.row][self.col]
    }

    /// The same state with the pointer one cell further in its direction.
    pub open spec fn moved(self) -> Machine {
        Machine {
            row: spec_advance(self.row, self.col, self.dir).0,
            col: spec_advance(self.row, self.col, self.dir).1,
            ..self
        }
    }

    /// The same state with another stack.
    pub open spec fn with_stack(self, stack: Seq<Data>) -> Machine {
        Machine { stack, ..self }
    }

    /// The same state with another direction.
    pub open spec fn with_dir(self, dir: Direction) -> Machine {
        Machine { dir, ..self }
    }

    /// Whether the next step asks for a direction chosen by chance.
    pub open spec fn wants_chance(self) -> bool {
        !self.string_mode && spec_cell_token(self.current()) == Some(Token::MoveRandom)
    }
}

/// The value at `depth` below the top of the stack, the top being at depth 0.
/// Below the bottom of the stack every value is zero.
pub open spec fn stack_peek(stack: Seq<Data>, depth: int) -> Data {
    if 0 <= depth < stack.len() {
        stack[stack.len() - 1 - depth]
    } else {
        0
    }
}

/// The stack without its upper `n` values; empty where it holds no more than `n`.
pub open spec fn stack_drop(stack: Seq<Data>, n: int) -> Seq<Data> {
    if n <= 0 {
        stack
    } else if n < stack.len() {
        stack.take(stack.len() - n)
    } else {
        Seq::empty()
    }
}

/// The stack after `Duplicate`: the top value is popped and pushed twice.
pub open spec fn stack_duplicate(stack: Seq<Data>) -> Seq<Data> {
    stack_drop(stack, 1).push(stack_peek(stack, 0)).push(stack_peek(stack, 0))
}

/// The stack after `Discard`: the top value is gone.
pub open spec fn stack_discard(stack: Seq<Data>) -> Seq<Data> {
    stack_drop(stack, 1)
}

/// The stack after `Swap`: the two upper values have changed places.
pub open spec fn stack_swap(stack: Seq<Data>) -> Seq<Data> {
    stack_drop(stack, 2).push(stack_peek(stack, 0)).push(stack_peek(stack, 1))
}

/// The sum of two numbers, cut to the width of `Data`.
pub open spec fn wrapping_sum(a: Data, b: Data) -> Data {
    ((a + b) % 0x1_0000) as Data
}

/// The difference `b - a`, cut to the width of `Data`.
pub open spec fn wrapping_difference(a: Data, b: Data) -> Data {
    ((b - a) % 0x1_0000) as Data
}

/// The product of two numbers, cut to the width of `Data`.
pub open spec fn wrapping_product(a: Data, b: Data) -> Data {
    ((a * b) % 0x1_0000) as Data
}

/// 1 for a condition that holds and 0 for one that does not.
pub open spec fn truth(b: bool) -> Data {
    if b {
        1
    } else {
        0
    }
}

/// What `Get` pushes for the coordinates `x` (the row) and `y` (the column):
/// the number in that cell, or zero where the place is not on the grid.
pub open spec fn spec_fetch(grid: Seq<Seq<Data>>, x: Data, y: Data) -> Data {
    if x < MAX_HEIGHT && y < MAX_WIDTH {
        grid[x as int][y as int]
    } else {
        0
    }
}

/// The grid with `value` in row `x` and column `y`.
pub open spec fn spec_store(grid: Seq<Seq<Data>>, x: Data, y: Data, value: Data) -> Seq<
    Seq<Data>,
> {
    grid.update(x as int, grid[x as int].update(y as int, value))
}

/// The text that `PrintChar` prints for `n`: nothing for the null character.
pub open spec fn spec_char_output(n: Data) -> Seq<char> {
    if spec_to_char(n) == '\0' {
        Seq::empty()
    } else {
        seq![spec_to_char(n)]
    }
}

/// The text that `PrintInt` prints for `n`: its decimal notation and a space.
pub open spec fn spec_int_output(n: Data) -> Seq<char> {
    decimal(n as nat).push(' ')
}

/// A step that prints nothing, reads nothing and lets the machine go on
/// from `m`, the pointer moved one cell.
pub open spec fn proceed(m: Machine, input: Seq<u8>) -> Turn {
    Turn { machine: m.moved(), input, emitted: Seq::empty(), status: Status::Running }
}

/// A step that stops the machine in state `m` with `fault`.
pub open spec fn fail(m: Machine, input: Seq<u8>, fault: Fault) -> Turn {
    Turn { machine: m, input, emitted: Seq::empty(), status: Status::Faulted(fault) }
}

/// What the instruction `t` does in state `m`. `chance` is the direction
/// that `MoveRandom` takes. The pointer has not moved yet in `m`; it moves
/// as part of this step unless the machine stops.
pub open spec fn spec_execute(m: Machine, t: Token, input: Seq<u8>, chance: Direction) -> Turn {
    let a = stack_peek(m.stack, 0);
    let b = stack_peek(m.stack, 1);
    let c = stack_peek(m.stack, 2);
    let under1 = stack_drop(m.stack, 1);
    let under2 = stack_drop(m.stack, 2);
    let under3 = stack_drop(m.stack, 3);
    match t {
        Token::Add => proceed(m.with_stack(under2.push(wrapping_sum(a, b))), input),
        Token::Sub => proceed(m.with_stack(under2.push(wrapping_difference(a, b))), input),
        Token::Mul => proceed(m.with_stack(under2.push(wrapping_product(a, b))), input),
        Token::Div => if a == 0 {
            fail(m.with_stack(under2), input, Fault::DivisionByZero)
        } else {
            proceed(m.with_stack(under2.push((b / a) as Data)), input)
        },
        Token::Mod => if a == 0 {
            fail(m.with_stack(under2), input, Fault::DivisionByZero)
        } else {
            proceed(m.with_stack(under2.push((b % a) as Data)), input)
        },
        Token::LogicalNot => proceed(m.with_stack(under1.push(truth(a == 0))), input),
        Token::GreaterThan => proceed(m.with_stack(under2.push(truth(b > a))), input),
        Token::MoveRight => proceed(m.with_dir(Direction::Right), input),
        Token::MoveLeft => proceed(m.with_dir(Direction::Left), input),
        Token::MoveUp => proceed(m.with_dir(Direction::Up), input),
        Token::MoveDown => proceed(m.with_dir(Direction::Down), input),
        Token::MoveRandom => proceed(m.with_dir(chance), input),
        Token::HorizontalIf => proceed(
            m.with_stack(under1).with_dir(
                if a == 0 {
                    Direction::Right
                } else {
                    Direction::Left
                },
            ),
            input,
        ),
        Token::VerticalIf => proceed(
            m.with_stack(under1).with_dir(
                if a == 0 {
                    Direction::Down
                } else {
                    Direction::Up
                },
            ),
            input,
        ),
        Token::StringModeToggle => proceed(Machine { string_mode: true, ..m }, input),
        Token::Duplicate => proceed(m.with_stack(stack_duplicate(m.stack)), input),
        Token::Swap => proceed(m.with_stack(stack_swap(m.stack)), input),
        Token::Discard => proceed(m.with_stack(stack_discard(m.stack)), input),
        Token::IntOutput => Turn {
            machine: m.with_stack(under1).moved(),
            input,
            emitted: spec_int_output(a),
            status: Status::Running,
        },
        Token::CharOutput => Turn {
            machine: m.with_stack(under1).moved(),
            input,
            emitted: spec_char_output(a),
            status: Status::Running,
        },
        Token::Bridge => proceed(m.moved(), input),
        Token::Get => proceed(m.with_stack(under2.push(spec_fetch(m.grid, b, a))), input),
        Token::Put => if b < MAX_HEIGHT && a < MAX_WIDTH {
            proceed(Machine { grid: spec_store(m.grid, b, a, c), stack: under3, ..m }, input)
        } else {
            fail(m.with_stack(under3), input, Fault::PutOutOfBounds)
        },
        Token::UserIntInput => match spec_read_int(input).0 {
            Some(n) => proceed(m.with_stack(m.stack.push(n)), spec_read_int(input).1),
            None => fail(m, spec_read_int(input).1, Fault::InputExhausted),
        },
        Token::UserCharInput => match spec_read_byte(input).0 {
            Some(n) => proceed(m.with_stack(m.stack.push(n as Data)), spec_read_byte(input).1),
            None => fail(m, spec_read_byte(input).1, Fault::InputExhausted),
        },
        Token::Exit => Turn { machine: m, input, emitted: Seq::empty(), status: Status::Halted },
        Token::PushNumber(n) => proceed(m.with_stack(m.stack.push(n)), input),
        Token::Blank => proceed(m, input),
        Token::Unknown(_) => proceed(m, input),
    }
}

/// One step of the machine. In string mode the cell under the pointer ends
/// the string if it is the quote and is pushed as it stands otherwise.
/// Outside string mode the cell is executed if it names an instruction and
/// passed over if it names none.
pub open spec fn spec_step(m: Machine, input: Seq<u8>, chance: Direction) -> Turn {
    if m.string_mode {
        if m.current() == QUOTE {
            proceed(Machine { string_mode: false, ..m }, input)
        } else {
            proceed(m.with_stack(m.stack.push(m.current())), input)
        }
    } else {
        match spec_cell_token(m.current()) {
            Some(t) => spec_execute(m, t, input, chance),
            None => proceed(m, input),
        }
    }
}

/// A run in progress: the machine, what it has still to read, what it has
/// printed, whether it goes on, and how many directions it has drawn by chance.
pub struct World {
    pub machine: Machine,
    pub input: Seq<u8>,
    pub output: Seq<char>,
    pub status: Status,
    pub drawn: nat,
}

/// The direction that the `k`-th draw takes from `chances`; `Right` once
/// `chances` has run out.
pub open spec fn spec_chance(chances: Seq<Direction>, k: nat) -> Direction {
    if k < chances.len() {
        chances[k as int]
    } else {
        Direction::Right
    }
}

/// A run before its first step.
pub open spec fn spec_start(machine: Machine, input: Seq<u8>) -> World {
    World { machine, input, output: Seq::empty(), status: Status::Running, drawn: 0 }
}

/// The run one step further. A run that has stopped stays as it is.
pub open spec fn spec_turn(w: World, chances: Seq<Direction>) -> World {
    if w.status is Running {
        let t = spec_step(w.machine, w.input, spec_chance(chances, w.drawn));
        World {
            machine: t.machine,
            input: t.input,
            output: w.output + t.emitted,
            status: t.status,
            drawn: if w.machine.wants_chance() {
                w.drawn + 1
            } else {
                w.drawn
            },
        }
    } else {
        w
    }
}

/// The run after `n` steps, or as it stopped if it stopped earlier.
pub open spec fn spec_trace(w: World, chances: Seq<Direction>, n: nat) -> World
    decreases n,
{
    if n == 0 {
        w
    } else {
        spec_turn(spec_trace(w, chances, (n - 1) as nat), chances)
    }
}

/// How a run ended, with all that it printed.
pub enum Ending {
    /// The program ended the run.
    Halted(Seq<char>),
    /// The run stopped on a fault.
    Faulted(Fault, Seq<char>),
    /// The run was cut off while the machine was still going.
    Aborted(Seq<char>),
}

/// How the run `w` ends if it is cut off now.
pub open spec fn spec_ending(w: World) -> Ending {
    match w.status {
        Status::Running => Ending::Aborted(w.output),
        Status::Halted => Ending::Halted(w.output),
        Status::Faulted(f) => Ending::Faulted(f, w.output),
    }
}

/// How a run from `machine` ends that reads `input`, draws its random
/// directions from `chances` in order, and is cut off after `fuel` steps.
pub open spec fn spec_run(
    machine: Machine,
    input: Seq<u8>,
    chances: Seq<Direction>,
    fuel: nat,
) -> Ending {
    spec_ending(spec_trace(spec_start(machine, input), chances, fuel))
}

/// A run that has stopped stays as it stopped, however many steps follow.
pub proof fn lemma_trace_stopped(w: World, chances: Seq<Direction>, n: nat, k: nat)
    requires
        n <= k,
        !(spec_trace(w, chances, n).status is Running),
    ensures
        spec_trace(w, chances, k) == spec_trace(w, chances, n),
    decreases k,
{
    if k > n {
        lemma_trace_stopped(w, chances, n, (k - 1) as nat);
    }
}

/// A step that draws no direction is the same whatever direction is offered.
pub proof fn lemma_step_ignores_chance(m: Machine, input: Seq<u8>, c1: Direction, c2: Direction)
    requires
        !m.wants_chance(),
    ensures
        spec_step(m, input, c1) == spec_step(m, input, c2),
{
}

/// The number of directions drawn never falls.
pub proof fn lemma_drawn_grows(w: World, chances: Seq<Direction>, n: nat, k: nat)
    requires
        n <= k,
    ensures
        spec_trace(w, chances, n).drawn <= spec_trace(w, chances, k).drawn,
    decreases k,
{
    if k > n {
        lemma_drawn_grows(w, chances, n, (k - 1) as nat);
    }
}

/// A run depends only on the directions that it draws: two sequences that
/// agree on as many directions as the run draws give the same run.
pub proof fn lemma_trace_prefix(w: World, c1: Seq<Direction>, c2: Seq<Direction>, n: nat)
    requires
        c1.len() <= c2.len(),
        forall|k: int| 0 <= k < c1.len() ==> c1[k] == c2[k],
        spec_trace(w, c1, n).drawn <= c1.len(),
    ensures
        spec_trace(w, c2, n) == spec_trace(w, c1, n),
    decreases n,
{
    if n > 0 {
        let prev = spec_trace(w, c1, (n - 1) as nat);
        lemma_drawn_grows(w, c1, (n - 1) as nat, n);
        lemma_trace_prefix(w, c1, c2, (n - 1) as nat);
        if prev.status is Running {
            if prev.machine.wants_chance() {
                assert(spec_chance(c1, prev.drawn) == spec_chance(c2, prev.drawn));
            } else {
                lemma_step_ignores_chance(
                    prev.machine,
                    prev.input,
                    spec_chance(c1, prev.drawn),
                    spec_chance(c2, prev.drawn),
                );
            }
        }
    }
}

/// A run that draws no direction ends the same way whatever is offered.
pub proof fn lemma_run_without_chance(
    machine: Machine,
    input: Seq<u8>,
    c1: Seq<Direction>,
    c2: Seq<Direction>,
    fuel: nat,
)
    requires
        spec_trace(spec_start(machine, input), c1, fuel).drawn == 0,
    ensures
        spec_run(machine, input, c1, fuel) == spec_run(machine, input, c2, fuel),
{
    let w = spec_start(machine, input);
    let none = Seq::<Direction>::empty();
    lemma_trace_unused(w, c1, fuel);
    lemma_trace_prefix(w, none, c2, fuel);
}

/// A run that draws nothing from `chances` is the run that is offered nothing.
proof fn lemma_trace_unused(w: World, chances: Seq<Direction>, n: nat)
    requires
        spec_trace(w, chances, n).drawn == w.drawn,
    ensures
        spec_trace(w, Seq::<Direction>::empty(), n) == spec_trace(w, chances, n),
    decreases n,
{
    if n > 0 {
        let none = Seq::<Direction>::empty();
        let prev = spec_trace(w, chances, (n - 1) as nat);
        lemma_drawn_grows(w, chances, 0, (n - 1) as nat);
        lemma_drawn_grows(w, chances, (n - 1) as nat, n);
        lemma_trace_unused(w, chances, (n - 1) as nat);
        if prev.status is Running {
            assert(!prev.machine.wants_chance());
            lemma_step_ignores_chance(
                prev.machine,
                prev.input,
                spec_chance(none, prev.drawn),
                spec_chance(chances, prev.drawn),
            );
        }
    }
}

} // verus!
