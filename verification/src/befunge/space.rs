//! Program space: the fixed grid of cells, positions on it, and how the
//! instruction pointer moves.

use vstd::prelude::*;
use crate::befunge::cell::{Cell, spec_char_code};
use crate::befunge::tokens::Data;
use crate::text::chars_of;

verus! {

/// The number of columns of the grid.
pub const MAX_WIDTH: usize = 80;

/// The number of rows of the grid.
pub const MAX_HEIGHT: usize = 25;

/// The number in a cell that nothing was written to: the code of a space.
pub const BLANK: Data = 32;

/// The way the instruction pointer moves.
#[derive(Debug, PartialEq, Eq, Clone, Copy, Structural)]
pub enum Direction {
    Left,
    Right,
    Up,
    Down,
}

impl Default for Direction {
    fn default() -> (r: Self)
        ensures
            r == Direction::Right,
    {
        Self::Right
    }
}

/// A place on the grid.
#[derive(Debug, PartialEq, Eq, Clone, Copy, Structural)]
pub struct Pos {
    pub row: usize,
    pub col: usize,
}

/// Where a pointer at (`row`, `col`) comes to stand after one move in
/// direction `dir`. Each axis wraps around on its own.
pub open spec fn spec_advance(row: int, col: int, dir: Direction) -> (int, int) {
    match dir {
        Direction::Left => (row, (col - 1) % (MAX_WIDTH as int)),
        Direction::Right => (row, (col + 1) % (MAX_WIDTH as int)),
        Direction::Up => ((row - 1) % (MAX_HEIGHT as int), col),
        Direction::Down => ((row + 1) % (MAX_HEIGHT as int), col),
    }
}

impl Default for Pos {
    fn default() -> (r: Self)
        ensures
            r.row == 0,
            r.col == 0,
    {
        Pos { row: 0, col: 0 }
    }
}

impl Pos {
    /// Whether the position lies on the grid.
    pub open spec fn wf(self) -> bool {
        self.row < MAX_HEIGHT && self.col < MAX_WIDTH
    }

    /// The position in row `row` and column `col`.
    pub fn new(row: usize, col: usize) -> (r: Self)
        requires
            row < MAX_HEIGHT,
            col < MAX_WIDTH,
        ensures
            r.row == row,
            r.col == col,
            r.wf(),
    {
        Self { row, col }
    }

    /// The position for a pair of numbers, where the pair lies on the grid.
    pub fn checked(row: Data, col: Data) -> (r: Option<Self>)
        ensures
            r is Some <==> (row < MAX_HEIGHT && col < MAX_WIDTH),
            r is Some ==> r.unwrap().row == row && r.unwrap().col == col,
    {
        if (row as usize) < MAX_HEIGHT && (col as usize) < MAX_WIDTH {
            Some(Pos { row: row as usize, col: col as usize })
        } else {
            None
        }
    }

    /// The neighbouring position in direction `dir`, wrapping around the
    /// edges of the grid.
    pub fn advance(self, dir: Direction) -> (r: Self)
        requires
            self.wf(),
        ensures
            r.wf(),
            (r.row as int, r.col as int) == spec_advance(self.row as int, self.col as int, dir),
    {
        match dir {
            Direction::Left => Pos {
                row: self.row,
                col: if self.col == 0 {
                    MAX_WIDTH - 1
                } else {
                    self.col - 1
                },
            },
            Direction::Right => Pos {
                row: self.row,
                col: if self.col + 1 == MAX_WIDTH {
                    0
                } else {
                    self.col + 1
                },
            },
            Direction::Up => Pos {
                row: if self.row == 0 {
                    MAX_HEIGHT - 1
                } else {
                    self.row - 1
                },
                col: self.col,
            },
            Direction::Down => Pos {
                row: if self.row + 1 == MAX_HEIGHT {
                    0
                } else {
                    self.row + 1
                },
                col: self.col,
            },
        }
    }
}

/// Moving left from column 0 lands on the last column, and moving up from
/// row 0 lands on the last row; the other coordinate stays.
pub proof fn lemma_wrap_around(row: int, col: int)
    requires
        0 <= row < MAX_HEIGHT,
        0 <= col < MAX_WIDTH,
    ensures
        spec_advance(row, 0, Direction::Left) == (row, MAX_WIDTH - 1),
        spec_advance(0, col, Direction::Up) == (MAX_HEIGHT - 1, col),
        spec_advance(row, MAX_WIDTH - 1, Direction::Right) == (row, 0int),
        spec_advance(MAX_HEIGHT - 1, col, Direction::Down) == (0int, col),
{
}

/// A move never leaves the grid, and the move in the opposite direction
/// leads back.
pub proof fn lemma_advance_stays_and_returns(row: int, col: int, dir: Direction)
    requires
        0 <= row < MAX_HEIGHT,
        0 <= col < MAX_WIDTH,
    ensures
        0 <= spec_advance(row, col, dir).0 < MAX_HEIGHT,
        0 <= spec_advance(row, col, dir).1 < MAX_WIDTH,
        spec_advance(
            spec_advance(row, col, dir).0,
            spec_advance(row, col, dir).1,
            spec_opposite(dir),
        ) == (row, col),
{
}

/// The direction that undoes `dir`.
pub open spec fn spec_opposite(dir: Direction) -> Direction {
    match dir {
        Direction::Left => Direction::Right,
        Direction::Right => Direction::Left,
        Direction::Up => Direction::Down,
        Direction::Down => Direction::Up,
    }
}

/// A line without the carriage return that may end it.
pub open spec fn strip_cr(line: Seq<char>) -> Seq<char> {
    if line.len() > 0 && line.last() == '\r' {
        line.drop_last()
    } else {
        line
    }
}

/// The text read from the left: the lines that a line feed has closed, each
/// without a carriage return before that line feed, and the characters after
/// the last line feed.
pub open spec fn scan_lines(text: Seq<char>) -> (Seq<Seq<char>>, Seq<char>)
    decreases text.len(),
{
    if text.len() == 0 {
        (Seq::empty(), Seq::empty())
    } else {
        let (closed, open) = scan_lines(text.drop_last());
        if text.last() == '\n' {
            (closed.push(strip_cr(open)), Seq::empty())
        } else {
            (closed, open.push(text.last()))
        }
    }
}

/// The lines of a text. A line ends at a line feed, or at a carriage return
/// with a line feed behind it; what follows the last line feed is a line
/// unless it is empty.
pub open spec fn spec_lines(text: Seq<char>) -> Seq<Seq<char>> {
    let (closed, open) = scan_lines(text);
    if open.len() > 0 {
        closed.push(open)
    } else {
        closed
    }
}

/// The number at (`row`, `col`) of the grid that holds `lines`: the code of
/// the character in that line and column, and a blank where there is none.
pub open spec fn spec_lines_cell(lines: Seq<Seq<char>>, row: int, col: int) -> Data {
    if 0 <= row < lines.len() && 0 <= col < lines[row].len() {
        spec_char_code(lines[row][col])
    } else {
        BLANK
    }
}

/// The number at (`row`, `col`) while a text is being read: `closed` are the
/// lines read so far, `open` is the line that is being read.
pub open spec fn spec_partial_cell(
    closed: Seq<Seq<char>>,
    open: Seq<char>,
    row: int,
    col: int,
) -> Data {
    spec_lines_cell(closed.push(open), row, col)
}

/// The grid that a source text loads to. Lines beyond the last row and
/// characters beyond the last column are left out.
pub open spec fn spec_load(text: Seq<char>) -> Seq<Seq<Data>> {
    Seq::new(
        MAX_HEIGHT as nat,
        |r: int| Seq::new(MAX_WIDTH as nat, |c: int| spec_lines_cell(spec_lines(text), r, c)),
    )
}

/// Whether `grid` has the shape of program space.
pub open spec fn spec_grid_shape(grid: Seq<Seq<Data>>) -> bool {
    &&& grid.len() == MAX_HEIGHT
    &&& forall|r: int| 0 <= r < MAX_HEIGHT ==> (#[trigger] grid[r]).len() == MAX_WIDTH
}

/// The fixed grid of cells, stored row after row.
#[derive(Debug)]
pub struct Grid {
    cells: Vec<Cell>,
}

impl View for Grid {
    type V = Seq<Seq<Data>>;

    closed spec fn view(&self) -> Seq<Seq<Data>> {
        Seq::new(
            MAX_HEIGHT as nat,
            |r: int| Seq::new(MAX_WIDTH as nat, |c: int| self.cells@[r * (MAX_WIDTH as int) + c]@),
        )
    }
}

impl Grid {
    /// Whether the grid has all its cells.
    pub closed spec fn wf(&self) -> bool {
        self.cells@.len() == MAX_HEIGHT * MAX_WIDTH
    }

    /// A grid in good standing has the shape of program space.
    pub proof fn lemma_shape(&self)
        requires
            self.wf(),
        ensures
            spec_grid_shape(self@),
    {
    }

    /// The grid with a blank in every cell.
    pub fn blank() -> (g: Self)
        ensures
            g.wf(),
            g@ == spec_load(Seq::<char>::empty()),
    {
        let mut cells: Vec<Cell> = Vec::new();
        let mut i: usize = 0;
        while i < MAX_HEIGHT * MAX_WIDTH
            invariant
                i <= MAX_HEIGHT * MAX_WIDTH,
                cells@.len() == i,
                forall|k: int| 0 <= k < i ==> (#[trigger] cells@[k])@ == BLANK,
            decreases MAX_HEIGHT * MAX_WIDTH - i,
        {
            cells.push(Cell::new(BLANK));
            i = i + 1;
        }
        let g = Grid { cells };
        proof {
            assert(scan_lines(Seq::<char>::empty()).1.len() == 0);
            assert(spec_lines(Seq::<char>::empty()).len() == 0);
            assert forall|r: int| 0 <= r < MAX_HEIGHT implies #[trigger] g@[r] == spec_load(
                Seq::<char>::empty(),
            )[r] by {
                assert forall|c: int| 0 <= c < MAX_WIDTH implies #[trigger] g@[r][c] == spec_load(
                    Seq::<char>::empty(),
                )[r][c] by {
                    assert(0 <= r * 80 + c < 2000);
                }
                assert(g@[r] =~= spec_load(Seq::<char>::empty())[r]);
            }
            assert(g@ =~= spec_load(Seq::<char>::empty()));
        }
        g
    }

    /// Loads a source text: the character in line `i` and column `j` goes
    /// to the cell in row `i` and column `j`, every other cell is blank, and
    /// what lies beyond the last row or the last column is left out.
    pub fn new(src: &str) -> (g: Self)
        ensures
            g.wf(),
            g@ == spec_load(src@),
    {
        let mut g = Grid::blank();
        let chars = chars_of(src);
        let mut row: usize = 0;
        let mut col: usize = 0;
        let mut cr_written: bool = false;
        let ghost mut closed: Seq<Seq<char>> = Seq::empty();
        let ghost mut open: Seq<char> = Seq::empty();
        let mut i: usize = 0;
        proof {
            assert(chars@.take(0) =~= Seq::<char>::empty());
            assert(scan_lines(Seq::<char>::empty()).1.len() == 0);
            assert(spec_lines(Seq::<char>::empty()).len() == 0);
            assert forall|r: int, c: int| 0 <= r < MAX_HEIGHT && 0 <= c < MAX_WIDTH implies g@[r][c]
                == spec_partial_cell(closed, open, r, c) by {
                assert(g@[r][c] == spec_load(Seq::<char>::empty())[r][c]);
            }
        }
        while i < chars.len()
            invariant
                i <= chars.len(),
                chars@ == src@,
                g.wf(),
                (closed, open) == scan_lines(chars@.take(i as int)),
                row == if closed.len() < MAX_HEIGHT {
                    closed.len()
                } else {
                    MAX_HEIGHT as nat
                },
                col == if open.len() < MAX_WIDTH {
                    open.len()
                } else {
                    MAX_WIDTH as nat
                },
                cr_written == (row < MAX_HEIGHT && 0 < open.len() <= MAX_WIDTH && open.last()
                    == '\r'),
                forall|r: int, c: int|
                    0 <= r < MAX_HEIGHT && 0 <= c < MAX_WIDTH ==> g@[r][c] == spec_partial_cell(
                        closed,
                        open,
                        r,
                        c,
                    ),
            decreases chars.len() - i,
        {
            let ch = chars[i];
            let ghost before = g@;
            let ghost old_closed = closed;
            let ghost old_open = open;
            proof {
                g.lemma_shape();
                assert(chars@.take(i + 1).drop_last() =~= chars@.take(i as int));
                assert(chars@.take(i + 1).last() == ch);
            }
            if ch == '\n' {
                if cr_written {
                    g.write(Pos::new(row, col - 1), Cell::new(BLANK));
                }
                if row < MAX_HEIGHT {
                    row = row + 1;
                }
                col = 0;
                cr_written = false;
                proof {
                    closed = old_closed.push(strip_cr(old_open));
                    open = Seq::empty();
                    assert forall|r: int, c: int|
                        0 <= r < MAX_HEIGHT && 0 <= c < MAX_WIDTH implies g@[r][c]
                        == spec_partial_cell(closed, open, r, c) by {
                        assert(before[r][c] == spec_partial_cell(old_closed, old_open, r, c));
                    }
                }
            } else {
                if col < MAX_WIDTH {
                    if row < MAX_HEIGHT {
                        g.write(Pos::new(row, col), Cell::from_char(ch));
                    }
                    col = col + 1;
                    cr_written = row < MAX_HEIGHT && ch == '\r';
                } else {
                    cr_written = false;
                }
                proof {
                    open = old_open.push(ch);
                    assert forall|r: int, c: int|
                        0 <= r < MAX_HEIGHT && 0 <= c < MAX_WIDTH implies g@[r][c]
                        == spec_partial_cell(closed, open, r, c) by {
                        assert(before[r][c] == spec_partial_cell(old_closed, old_open, r, c));
                    }
                }
            }
            i = i + 1;
        }
        proof {
            g.lemma_shape();
            assert(chars@.take(i as int) =~= src@);
            let lines = spec_lines(src@);
            assert forall|r: int| 0 <= r < MAX_HEIGHT implies #[trigger] g@[r] == spec_load(
                src@,
            )[r] by {
                assert forall|c: int| 0 <= c < MAX_WIDTH implies #[trigger] g@[r][c] == spec_load(
                    src@,
                )[r][c] by {
                    assert(g@[r][c] == spec_partial_cell(closed, open, r, c));
                }
                assert(g@[r] =~= spec_load(src@)[r]);
            }
            assert(g@ =~= spec_load(src@));
        }
        g
    }

    /// The cell at `pos`.
    pub fn read(&self, pos: Pos) -> (c: Cell)
        requires
            self.wf(),
            pos.wf(),
        ensures
            c@ == self@[pos.row as int][pos.col as int],
    {
        self.cells[pos.row * MAX_WIDTH + pos.col]
    }

    /// Puts `val` into the cell at `pos` and leaves every other cell as it is.
    pub fn write(&mut self, pos: Pos, val: Cell)
        requires
            old(self).wf(),
            pos.wf(),
        ensures
            final(self).wf(),
            final(self)@ == old(self)@.update(
                pos.row as int,
                old(self)@[pos.row as int].update(pos.col as int, val@),
            ),
    {
        let ghost before = self@;
        self.cells.set(pos.row * MAX_WIDTH + pos.col, val);
        proof {
            let after = before.update(
                pos.row as int,
                before[pos.row as int].update(pos.col as int, val@),
            );
            assert forall|r: int| 0 <= r < MAX_HEIGHT implies #[trigger] self@[r] == after[r] by {
                assert forall|c: int| 0 <= c < MAX_WIDTH implies #[trigger] self@[r][c]
                    == after[r][c] by {
                    assert(0 <= r * 80 + c < 2000);
                    if r != pos.row || c != pos.col {
                        assert(r * 80 + c != pos.row * 80 + pos.col);
                    }
                }
                assert(self@[r] =~= after[r]);
            }
            assert(self@ =~= after);
        }
    }
}

} // verus!
