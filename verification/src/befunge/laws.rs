//! What holds of every program and every state of the machine.

use vstd::prelude::*;
use crate::befunge::cell::spec_cell_token;
use crate::befunge::model::{
    Ending, Machine, Status, lemma_trace_stopped, spec_execute, spec_fetch, spec_run,
    spec_start, spec_step, spec_store, spec_trace, stack_discard, stack_duplicate, stack_peek,
    stack_swap, wrapping_sum,
};
use crate::befunge::space::{Direction, MAX_HEIGHT, MAX_WIDTH, spec_grid_shape};
use crate::befunge::tokens::{Data, Token};

verus! {

/// Whether the first row of `grid` begins with `n` digits and the
/// instruction that ends the run.
pub open spec fn spec_digits_then_halt(grid: Seq<Seq<Data>>, n: int) -> bool {
    &&& 0 <= n < MAX_WIDTH
    &&& forall|i: int| 0 <= i < n ==> 48 <= #[trigger] grid[0][i] <= 57
    &&& grid[0][n] == 64
}

/// While the machine walks over the digits it pushes them and does nothing else.
proof fn lemma_digits_walk(
    grid: Seq<Seq<Data>>,
    n: int,
    input: Seq<u8>,
    chances: Seq<Direction>,
    k: nat,
)
    requires
        spec_grid_shape(grid),
        spec_digits_then_halt(grid, n),
        k <= n,
    ensures
        ({
            let w = spec_trace(spec_start(Machine::initial(grid), input), chances, k);
            &&& w.machine.grid == grid
            &&& w.machine.row == 0
            &&& w.machine.col == k
            &&& w.machine.dir == Direction::Right
            &&& !w.machine.string_mode
            &&& w.input == input
            &&& w.output == Seq::<char>::empty()
            &&& w.status == Status::Running
        }),
    decreases k,
{
    if k > 0 {
        lemma_digits_walk(grid, n, input, chances, (k - 1) as nat);
        let prev = spec_trace(spec_start(Machine::initial(grid), input), chances, (k - 1) as nat);
        let d = grid[0][k - 1];
        assert(48 <= d <= 57);
        assert(spec_cell_token(d) == Some(Token::PushNumber((d - 48) as Data)));
        assert(prev.output + Seq::<char>::empty() =~= prev.output);
    }
}

/// A program that is nothing but digits and then the instruction that ends
/// the run prints nothing and halts, whatever its input and whatever
/// directions chance offers, as soon as it is allowed a step for each digit
/// and one more.
pub proof fn lemma_digits_then_halt(
    grid: Seq<Seq<Data>>,
    n: int,
    input: Seq<u8>,
    chances: Seq<Direction>,
    fuel: nat,
)
    requires
        spec_grid_shape(grid),
        spec_digits_then_halt(grid, n),
        fuel > n,
    ensures
        spec_run(Machine::initial(grid), input, chances, fuel) == Ending::Halted(
            Seq::<char>::empty(),
        ),
{
    let start = spec_start(Machine::initial(grid), input);
    lemma_digits_walk(grid, n, input, chances, n as nat);
    let w = spec_trace(start, chances, n as nat);
    assert(spec_cell_token(64) == Some(Token::Exit));
    let last = spec_trace(start, chances, (n + 1) as nat);
    assert(last.status == Status::Halted);
    assert(last.output =~= Seq::<char>::empty());
    lemma_trace_stopped(start, chances, (n + 1) as nat, fuel);
}

/// `Duplicate` and then `Discard` leave a stack that is not empty as it was.
/// On every stack they leave each depth with the value it had, the depths
/// below the bottom counting as zero.
pub proof fn lemma_duplicate_then_discard(stack: Seq<Data>)
    ensures
        stack.len() > 0 ==> stack_discard(stack_duplicate(stack)) == stack,
        forall|d: int|
            stack_peek(#[trigger] stack_discard(stack_duplicate(stack)), d) == stack_peek(
                stack,
                d,
            ),
{
    if stack.len() > 0 {
        assert(stack_discard(stack_duplicate(stack)) =~= stack);
    }
}

/// Two swaps in a row leave a stack of two or more values as it was.
pub proof fn lemma_swap_twice(stack: Seq<Data>)
    requires
        stack.len() >= 2,
    ensures
        stack_swap(stack_swap(stack)) == stack,
{
    assert(stack_swap(stack_swap(stack)) =~= stack);
}

/// `Add` on an empty stack leaves the single value zero, and the machine goes on.
pub proof fn lemma_add_on_empty(m: Machine, input: Seq<u8>, chance: Direction)
    requires
        m.stack.len() == 0,
    ensures
        spec_execute(m, Token::Add, input, chance).machine.stack == seq![0 as Data],
        spec_execute(m, Token::Add, input, chance).status == Status::Running,
{
    assert(wrapping_sum(0, 0) == 0);
    assert(spec_execute(m, Token::Add, input, chance).machine.stack =~= seq![0 as Data]);
}

/// `Get` reads the last cell of the last row, and gives zero for a row or a
/// column just beyond the grid.
pub proof fn lemma_get_boundary(grid: Seq<Seq<Data>>, x: Data, y: Data)
    ensures
        spec_fetch(grid, (MAX_HEIGHT - 1) as Data, (MAX_WIDTH - 1) as Data) == grid[MAX_HEIGHT
            - 1][MAX_WIDTH - 1],
        spec_fetch(grid, MAX_HEIGHT as Data, y) == 0,
        spec_fetch(grid, x, MAX_WIDTH as Data) == 0,
{
}

/// What `Put` writes, a later `Get` at the same place reads; a `Get` at any
/// other place reads what was there before.
pub proof fn lemma_put_then_get(
    grid: Seq<Seq<Data>>,
    x: Data,
    y: Data,
    value: Data,
    x2: Data,
    y2: Data,
)
    requires
        spec_grid_shape(grid),
        x < MAX_HEIGHT,
        y < MAX_WIDTH,
    ensures
        spec_grid_shape(spec_store(grid, x, y, value)),
        spec_fetch(spec_store(grid, x, y, value), x, y) == value,
        (x2 != x || y2 != y) ==> spec_fetch(spec_store(grid, x, y, value), x2, y2) == spec_fetch(
            grid,
            x2,
            y2,
        ),
{
}

/// The cell that `Put` wrote is the cell that the machine executes when its
/// pointer comes to stand there: the step reads the new value.
pub proof fn lemma_step_sees_written_cell(m: Machine, x: Data, y: Data, value: Data)
    requires
        m.wf(),
        m.row == x,
        m.col == y,
    ensures
        (Machine { grid: spec_store(m.grid, x, y, value), ..m }).current() == value,
{
}

/// A step keeps the machine in good standing.
pub proof fn lemma_step_keeps_wf(m: Machine, input: Seq<u8>, chance: Direction)
    requires
        m.wf(),
    ensures
        spec_step(m, input, chance).machine.wf(),
{
}

} // verus!
