//! The tape: cells of one byte each, found by their index.

use vstd::prelude::*;
use std::collections::HashMap;
pub use crate::brainfuck::errors::Error;

verus! {

broadcast use vstd::std_specs::hash::group_hash_axioms;

/// The value of one cell.
pub type Cell = u8;

/// The index of a cell.
pub type CellIndex = usize;

/// A tape that takes a step to the right for every cell it has.
pub type Linear = Vec<Cell>;

/// A tape whose index wraps around at both ends.
pub type Wrapping = HashMap<usize, Cell>;

/// The index after `index` on a tape that wraps around.
pub open spec fn wrapping_next(index: usize) -> usize {
    if index == usize::MAX {
        0
    } else {
        (index + 1) as usize
    }
}

/// The index before `index` on a tape that wraps around.
pub open spec fn wrapping_previous(index: usize) -> usize {
    if index == 0 {
        usize::MAX
    } else {
        (index - 1) as usize
    }
}

/// The cells with one more cell at `index`, holding zero, unless there is one.
pub open spec fn with_cell(cells: Map<usize, Cell>, index: usize) -> Map<usize, Cell> {
    if cells.contains_key(index) {
        cells
    } else {
        cells.insert(index, 0)
    }
}

/// What a tape offers to the machine. The cells that exist, each with its
/// value, are `cells`; what a move does to the index and to the cells is
/// `spec_left` and `spec_right`.
pub trait Memory: Sized {
    /// The cells that exist, each with its value.
    spec fn cells(&self) -> Map<usize, Cell>;

    /// The index and the cells after a move to the left from `index`.
    spec fn spec_left(cells: Map<usize, Cell>, index: CellIndex) -> Result<
        (CellIndex, Map<usize, Cell>),
        Error,
    >;

    /// The index and the cells after a move to the right from `index`.
    spec fn spec_right(cells: Map<usize, Cell>, index: CellIndex) -> Result<
        (CellIndex, Map<usize, Cell>),
        Error,
    >;

    /// The tape on which every run begins: one cell, at index 0, holding zero.
    fn init() -> (r: Self)
        ensures
            r.cells() == Map::<usize, Cell>::empty().insert(0, 0),
    ;

    /// Replaces the value `v` of the cell at `index` by `op(v)`; fails where
    /// there is no such cell.
    fn modify<F>(&mut self, index: usize, op: F) -> (r: Result<(), Error>) where F: Fn(Cell) -> Cell
        requires
            forall|c: Cell| #[trigger] op.requires((c,)),
        ensures
            match r {
                Ok(_) => {
                    &&& old(self).cells().contains_key(index)
                    &&& final(self).cells().contains_key(index)
                    &&& op.ensures((old(self).cells()[index],), final(self).cells()[index])
                    &&& final(self).cells() == old(self).cells().insert(
                        index,
                        final(self).cells()[index],
                    )
                },
                Err(e) => {
                    &&& !old(self).cells().contains_key(index)
                    &&& e == Error::CellAccessError(index)
                    &&& final(self).cells() == old(self).cells()
                },
            },
    ;

    /// Moves one cell to the left of `index`.
    fn move_left(&mut self, index: CellIndex) -> (r: Result<CellIndex, Error>)
        ensures
            match r {
                Ok(i) => Self::spec_left(old(self).cells(), index) == Ok::<
                    (CellIndex, Map<usize, Cell>),
                    Error,
                >((i, final(self).cells())),
                Err(e) => Self::spec_left(old(self).cells(), index) == Err::<
                    (CellIndex, Map<usize, Cell>),
                    Error,
                >(e) && final(self).cells() == old(self).cells(),
            },
    ;

    /// Moves one cell to the right of `index`.
    fn move_right(&mut self, index: CellIndex) -> (r: Result<CellIndex, Error>)
        ensures
            match r {
                Ok(i) => Self::spec_right(old(self).cells(), index) == Ok::<
                    (CellIndex, Map<usize, Cell>),
                    Error,
                >((i, final(self).cells())),
                Err(e) => Self::spec_right(old(self).cells(), index) == Err::<
                    (CellIndex, Map<usize, Cell>),
                    Error,
                >(e) && final(self).cells() == old(self).cells(),
            },
    ;

    /// The value of the cell at `index`; fails where there is no such cell.
    fn cell_value(&self, index: CellIndex) -> (r: Result<Cell, Error>)
        ensures
            r == if self.cells().contains_key(index) {
                Ok::<Cell, Error>(self.cells()[index])
            } else {
                Err::<Cell, Error>(Error::CellAccessError(index))
            },
    ;
}

impl Memory for HashMap<usize, Cell> {
    open spec fn cells(&self) -> Map<usize, Cell> {
        self@
    }

    open spec fn spec_left(cells: Map<usize, Cell>, index: CellIndex) -> Result<
        (CellIndex, Map<usize, Cell>),
        Error,
    > {
        Ok((wrapping_previous(index), with_cell(cells, wrapping_previous(index))))
    }

    open spec fn spec_right(cells: Map<usize, Cell>, index: CellIndex) -> Result<
        (CellIndex, Map<usize, Cell>),
        Error,
    > {
        Ok((wrapping_next(index), with_cell(cells, wrapping_next(index))))
    }

    fn init() -> (r: Self) {
        let mut tape: HashMap<usize, Cell> = HashMap::new();
        tape.insert(0, 0);
        tape
    }

    fn move_left(&mut self, index: usize) -> (r: Result<usize, Error>) {
        let cell_index = if index == 0 {
            usize::MAX
        } else {
            index - 1
        };
        if !self.contains_key(&cell_index) {
            self.insert(cell_index, 0);
        }
        Ok(cell_index)
    }

    fn move_right(&mut self, index: usize) -> (r: Result<usize, Error>) {
        let cell_index = if index == usize::MAX {
            0
        } else {
            index + 1
        };
        if !self.contains_key(&cell_index) {
            self.insert(cell_index, 0);
        }
        Ok(cell_index)
    }

    fn modify<F>(&mut self, index: usize, op: F) -> (r: Result<(), Error>) where
        F: Fn(Cell) -> Cell,
     {
        let cell_val = match self.get(&index) {
            Some(v) => *v,
            None => {
                return Err(Error::CellAccessError(index));
            },
        };
        let changed = op(cell_val);
        self.insert(index, changed);
        Ok(())
    }

    fn cell_value(&self, index: CellIndex) -> (r: Result<Cell, Error>) {
        match self.get(&index) {
            Some(v) => Ok(*v),
            None => Err(Error::CellAccessError(index)),
        }
    }
}

impl Memory for Vec<Cell> {
    open spec fn cells(&self) -> Map<usize, Cell> {
        Map::new(|i: usize| i < self@.len(), |i: usize| self@[i as int])
    }

    open spec fn spec_left(cells: Map<usize, Cell>, index: CellIndex) -> Result<
        (CellIndex, Map<usize, Cell>),
        Error,
    > {
        if index == 0 {
            Err(Error::CellIndexUnderflow)
        } else {
            Ok(((index - 1) as usize, cells))
        }
    }

    open spec fn spec_right(cells: Map<usize, Cell>, index: CellIndex) -> Result<
        (CellIndex, Map<usize, Cell>),
        Error,
    > {
        let next = wrapping_next(index);
        if !cells.contains_key(next) && (next == 0 || cells.contains_key((next - 1) as usize)) {
            Ok((next, cells.insert(next, 0)))
        } else {
            Ok((next, cells))
        }
    }

    fn init() -> (r: Self) {
        let mut tape: Vec<Cell> = Vec::new();
        tape.push(0);
        assert(tape.cells() =~= Map::<usize, Cell>::empty().insert(0, 0));
        tape
    }

    fn move_left(&mut self, index: usize) -> (r: Result<usize, Error>) {
        if index == 0 {
            Err(Error::CellIndexUnderflow)
        } else {
            Ok(index - 1)
        }
    }

    fn move_right(&mut self, index: usize) -> (r: Result<usize, Error>) {
        let cell_index = if index == usize::MAX {
            0
        } else {
            index + 1
        };
        if cell_index == self.len() {
            self.push(0);
            assert(self.cells() =~= old(self).cells().insert(cell_index, 0));
        }
        Ok(cell_index)
    }

    fn modify<F>(&mut self, index: usize, op: F) -> (r: Result<(), Error>) where
        F: Fn(Cell) -> Cell,
     {
        if index >= self.len() {
            return Err(Error::CellAccessError(index));
        }
        let changed = op(self[index]);
        self.set(index, changed);
        assert(self.cells() =~= old(self).cells().insert(index, changed));
        Ok(())
    }

    fn cell_value(&self, index: CellIndex) -> (r: Result<Cell, Error>) {
        if index < self.len() {
            Ok(self[index])
        } else {
            Err(Error::CellAccessError(index))
        }
    }
}

} // verus!
