//! The grid engine: storage, the step from one generation to the next, and
//! the record of the cells that the last step changed.

use crate::bits::bits_of;
use crate::patterns::{
    glider, glider_offsets, pattern_positions, pulsar, pulsar_offsets, stamp_positions,
};
use crate::rules::{
    alive_at, all_dead, all_inside, cell_index, flipped_below, flipped_indices,
    lemma_cell_index_bounds, lemma_cell_index_split, live_neighbors, marked, names_index,
    next_cell_state, next_generation, weight,
};
use crate::text::{glyph, glyph_of, rendering};
use fixedbitset::FixedBitSet;
use vstd::prelude::*;

verus! {

/// State of one cell.
#[derive(Clone, Copy, Debug, PartialEq, Eq, Structural)]
pub enum Cell {
    Dead,
    Alive,
}

/// Why a command was rejected. A rejected command leaves the grid untouched.
#[derive(Clone, Copy, Debug, PartialEq, Eq, Structural)]
pub enum GridError {
    /// A row or column lies outside the grid.
    OutOfBounds,
    /// A dimension is zero, or the grid would have more cells than a `u32`
    /// can index.
    InvalidDimension,
    /// The number of values given differs from the number of cells.
    LengthMismatch,
}

/// A toroidal grid of cells with two buffers: the current generation and the
/// scratch space in which the next one is built.
pub struct Universe {
    width: u32,
    height: u32,
    current: FixedBitSet,
    next: FixedBitSet,
    changed_cells: Vec<u32>,
}

/// The pattern of a fresh grid: cell `i` is alive when `i` is a multiple of
/// two or of seven.
pub open spec fn seed_pattern(count: int) -> Seq<bool> {
    Seq::new(count as nat, |i: int| i % 2 == 0 || i % 7 == 0)
}

impl View for Universe {
    type V = Seq<bool>;

    /// The current generation, row-major.
    closed spec fn view(&self) -> Seq<bool> {
        bits_of(self.current)
    }
}

impl Universe {
    /// Number of columns.
    pub closed spec fn spec_width(&self) -> int {
        self.width as int
    }

    /// Number of rows.
    pub closed spec fn spec_height(&self) -> int {
        self.height as int
    }

    /// Indices recorded by the last `tick` or `clear`.
    pub closed spec fn changed(&self) -> Seq<u32> {
        self.changed_cells@
    }

    /// Number of cells that the scratch buffer has room for.
    pub closed spec fn scratch_len(&self) -> int {
        bits_of(self.next).len() as int
    }

    /// The invariant of a grid: both dimensions are positive, every cell has
    /// an index that fits a `u32`, and both buffers hold one bit per cell.
    pub open spec fn wf(&self) -> bool {
        &&& 0 < self.spec_width()
        &&& 0 < self.spec_height()
        &&& self.spec_width() * self.spec_height() <= u32::MAX
        &&& self@.len() == self.spec_width() * self.spec_height()
        &&& self.scratch_len() == self.spec_width() * self.spec_height()
    }

    /// A 64 by 64 grid that holds the seed pattern.
    pub fn new() -> (universe: Universe)
        ensures
            universe.wf(),
            universe.spec_width() == 64,
            universe.spec_height() == 64,
            universe@ == seed_pattern(4096),
            universe.changed() == Seq::<u32>::empty(),
    {
        let width: u32 = 64;
        let height: u32 = 64;
        let size: usize = 4096;
        let mut current = FixedBitSet::with_capacity(size);
        let mut i: usize = 0;
        while i < size
            invariant
                size == 4096,
                i <= size,
                bits_of(current).len() == size,
                forall|j: int| 0 <= j < i ==> bits_of(current)[j] == (j % 2 == 0 || j % 7 == 0),
            decreases size - i,
        {
            current.set(i, i % 2 == 0 || i % 7 == 0);
            i += 1;
        }
        let next = FixedBitSet::with_capacity(size);
        assert(bits_of(current) =~= seed_pattern(4096));
        Universe { width, height, current, next, changed_cells: Vec::new() }
    }

    /// Number of columns.
    pub fn width(&self) -> (width: u32)
        ensures
            width == self.spec_width(),
    {
        self.width
    }

    /// Number of rows.
    pub fn height(&self) -> (height: u32)
        ensures
            height == self.spec_height(),
    {
        self.height
    }

    /// Index of the cell at `(row, column)` in the buffers.
    fn get_index(&self, row: u32, column: u32) -> (index: usize)
        requires
            self.wf(),
            row < self.spec_height(),
            column < self.spec_width(),
        ensures
            index == cell_index(self.spec_width(), row as int, column as int),
            index < self@.len(),
    {
        proof {
            lemma_cell_index_bounds(
                self.spec_width(),
                self.spec_height(),
                row as int,
                column as int,
            );
        }
        (row * self.width + column) as usize
    }

    /// One if the cell at `(row, column)` is alive, zero if it is dead.
    fn weight_at(&self, row: u32, column: u32) -> (count: u8)
        requires
            self.wf(),
            row < self.spec_height(),
            column < self.spec_width(),
        ensures
            count == weight(alive_at(self@, self.spec_width(), row as int, column as int)),
    {
        let index = self.get_index(row, column);
        if self.current.contains(index) {
            1
        } else {
            0
        }
    }

    /// Number of live cells among the eight neighbors of `(row, column)`,
    /// where the grid's edges wrap to the opposite side.
    pub fn live_neighbor_count(&self, row: u32, column: u32) -> (count: u8)
        requires
            self.wf(),
            row < self.spec_height(),
            column < self.spec_width(),
        ensures
            count == live_neighbors(
                self@,
                self.spec_width(),
                self.spec_height(),
                row as int,
                column as int,
            ),
            count <= 8,
    {
        let north = if row == 0 {
            self.height - 1
        } else {
            row - 1
        };
        let south = if row == self.height - 1 {
            0
        } else {
            row + 1
        };
        let west = if column == 0 {
            self.width - 1
        } else {
            column - 1
        };
        let east = if column == self.width - 1 {
            0
        } else {
            column + 1
        };
        let mut count: u8 = 0;
        count += self.weight_at(north, west);
        count += self.weight_at(north, column);
        count += self.weight_at(north, east);
        count += self.weight_at(row, west);
        count += self.weight_at(row, east);
        count += self.weight_at(south, west);
        count += self.weight_at(south, column);
        count += self.weight_at(south, east);
        count
    }

    /// What a grid is after one `tick` of `before`: the same size, the
    /// generation that follows, and as its record the indices at which the
    /// two generations differ, ascending.
    pub open spec fn is_tick_of(&self, before: Universe) -> bool {
        &&& self.spec_width() == before.spec_width()
        &&& self.spec_height() == before.spec_height()
        &&& self@ == next_generation(before@, before.spec_width(), before.spec_height())
        &&& self.changed() == flipped_indices(before@, self@)
    }

    /// Replaces the current generation by the one that follows it, and
    /// records in ascending order the index of every cell that changed.
    pub fn tick(&mut self)
        requires
            old(self).wf(),
        ensures
            final(self).wf(),
            final(self).is_tick_of(*old(self)),
    {
        let ghost before = self@;
        let ghost width = self.spec_width();
        let ghost height = self.spec_height();
        let ghost after = next_generation(before, width, height);
        self.changed_cells.clear();
        let mut row: u32 = 0;
        while row < self.height
            invariant
                self.wf(),
                self@ == before,
                self.spec_width() == width,
                self.spec_height() == height,
                after == next_generation(before, width, height),
                row <= height,
                forall|j: int| 0 <= j < row * width ==> bits_of(self.next)[j] == after[j],
                self.changed_cells@ == flipped_below(before, after, (row * width) as nat),
            decreases height - row,
        {
            let mut column: u32 = 0;
            while column < self.width
                invariant
                    self.wf(),
                    self@ == before,
                    self.spec_width() == width,
                    self.spec_height() == height,
                    after == next_generation(before, width, height),
                    row < height,
                    column <= width,
                    forall|j: int|
                        0 <= j < row * width + column ==> bits_of(self.next)[j] == after[j],
                    self.changed_cells@ == flipped_below(
                        before,
                        after,
                        (row * width + column) as nat,
                    ),
                decreases width - column,
            {
                let index = self.get_index(row, column);
                let old_value = self.current.contains(index);
                let live_neighbors = self.live_neighbor_count(row, column);
                let new_value = next_cell_state(old_value, live_neighbors);
                proof {
                    lemma_cell_index_split(width, row as int, column as int);
                    assert(after[index as int] == new_value);
                }
                self.next.set(index, new_value);
                if new_value != old_value {
                    self.changed_cells.push(index as u32);
                }
                column += 1;
            }
            proof {
                assert((row + 1) * width == row * width + width) by (nonlinear_arith);
            }
            row += 1;
        }
        proof {
            assert(height * width == width * height) by (nonlinear_arith);
            assert(bits_of(self.next) =~= after);
        }
        std::mem::swap(&mut self.current, &mut self.next);
    }

    /// Whether `(row, column)` names a cell of this grid.
    pub open spec fn contains_cell(&self, row: int, column: int) -> bool {
        0 <= row < self.spec_height() && 0 <= column < self.spec_width()
    }

    /// State of the cell at `(row, column)`.
    pub fn cell(&self, row: u32, column: u32) -> (result: Result<Cell, GridError>)
        requires
            self.wf(),
        ensures
            result is Ok <==> self.contains_cell(row as int, column as int),
            result is Err ==> result == Err::<Cell, GridError>(GridError::OutOfBounds),
            result is Ok ==> (result->Ok_0 == Cell::Alive) == alive_at(
                self@,
                self.spec_width(),
                row as int,
                column as int,
            ),
    {
        if row >= self.height || column >= self.width {
            return Err(GridError::OutOfBounds);
        }
        let index = self.get_index(row, column);
        if self.current.contains(index) {
            Ok(Cell::Alive)
        } else {
            Ok(Cell::Dead)
        }
    }

    /// Flips the cell at `(row, column)`. A position outside the grid is
    /// rejected and nothing changes.
    pub fn toggle_cell(&mut self, row: u32, column: u32) -> (result: Result<(), GridError>)
        requires
            old(self).wf(),
        ensures
            final(self).wf(),
            final(self).spec_width() == old(self).spec_width(),
            final(self).spec_height() == old(self).spec_height(),
            final(self).changed() == old(self).changed(),
            result is Ok <==> old(self).contains_cell(row as int, column as int),
            result is Err ==> result == Err::<(), GridError>(GridError::OutOfBounds),
            result is Err ==> final(self)@ == old(self)@,
            result is Ok ==> final(self)@ == old(self)@.update(
                cell_index(old(self).spec_width(), row as int, column as int),
                !alive_at(old(self)@, old(self).spec_width(), row as int, column as int),
            ),
    {
        if row >= self.height || column >= self.width {
            return Err(GridError::OutOfBounds);
        }
        let index = self.get_index(row, column);
        let current_value = self.current.contains(index);
        self.current.set(index, !current_value);
        Ok(())
    }

    /// What a grid is after one `clear` of `before`: the same size, every
    /// cell dead, and as its record the indices of the cells that were
    /// alive, ascending.
    pub open spec fn is_clear_of(&self, before: Universe) -> bool {
        &&& self.spec_width() == before.spec_width()
        &&& self.spec_height() == before.spec_height()
        &&& self@ == all_dead(before.spec_width() * before.spec_height())
        &&& self.changed() == flipped_indices(before@, self@)
    }

    /// Empties the grid, and records in ascending order the index of every
    /// cell that was alive.
    pub fn clear(&mut self)
        requires
            old(self).wf(),
        ensures
            final(self).wf(),
            final(self).is_clear_of(*old(self)),
    {
        let ghost before = self@;
        let ghost width = self.spec_width();
        let ghost height = self.spec_height();
        let ghost after = all_dead(width * height);
        self.changed_cells.clear();
        let size: usize = (self.width * self.height) as usize;
        let mut i: usize = 0;
        while i < size
            invariant
                self.wf(),
                self.spec_width() == width,
                self.spec_height() == height,
                size == width * height,
                before.len() == size,
                after == all_dead(width * height),
                i <= size,
                forall|j: int| 0 <= j < i ==> self@[j] == false,
                forall|j: int| i <= j < size ==> self@[j] == before[j],
                self.changed_cells@ == flipped_below(before, after, i as nat),
            decreases size - i,
        {
            if self.current.contains(i) {
                self.changed_cells.push(i as u32);
            }
            self.current.set(i, false);
            i += 1;
        }
        assert(self@ =~= after);
    }

    /// The indices that the last `tick` or `clear` recorded.
    pub fn changed_cells(&self) -> (changed: &Vec<u32>)
        ensures
            changed@ == self.changed(),
    {
        &self.changed_cells
    }

    /// How many indices the last `tick` or `clear` recorded.
    pub fn changed_cells_length(&self) -> (length: usize)
        ensures
            length == self.changed().len(),
    {
        self.changed_cells.len()
    }

    /// The bits of the current generation.
    pub fn get_cells(&self) -> (cells: &FixedBitSet)
        ensures
            bits_of(*cells) == self@,
    {
        &self.current
    }

    /// Makes the cells at `cells` alive, when all of them lie in the grid.
    fn mark_alive(&mut self, cells: &[(u32, u32)])
        requires
            old(self).wf(),
            all_inside(cells@, old(self).spec_width(), old(self).spec_height()),
        ensures
            final(self).wf(),
            final(self).spec_width() == old(self).spec_width(),
            final(self).spec_height() == old(self).spec_height(),
            final(self).changed() == old(self).changed(),
            final(self)@ == marked(old(self)@, old(self).spec_width(), cells@),
    {
        let ghost before = self@;
        let ghost width = self.spec_width();
        let mut k: usize = 0;
        assert(self@ =~= marked(before, width, cells@.take(0)));
        while k < cells.len()
            invariant
                self.wf(),
                self.spec_width() == width,
                self.spec_width() == old(self).spec_width(),
                self.spec_height() == old(self).spec_height(),
                self.changed() == old(self).changed(),
                all_inside(cells@, self.spec_width(), self.spec_height()),
                k <= cells.len(),
                self@ == marked(before, width, cells@.take(k as int)),
            decreases cells.len() - k,
        {
            let (row, column) = cells[k];
            assert(cells@[k as int].0 < self.spec_height());
            let index = self.get_index(row, column);
            let ghost so_far = self@;
            self.current.set(index, true);
            proof {
                let shorter = cells@.take(k as int);
                let longer = cells@.take(k + 1);
                assert forall|i: int| 0 <= i < before.len() implies #[trigger] self@[i] == marked(
                    before,
                    width,
                    longer,
                )[i] by {
                    if i == index {
                        assert(names_index(width, longer, k as int, i));
                    } else if so_far[i] && !before[i] {
                        let j = choose|j: int| names_index(width, shorter, j, i);
                        assert(names_index(width, longer, j, i));
                    } else if marked(before, width, longer)[i] && !before[i] {
                        let j = choose|j: int| names_index(width, longer, j, i);
                        assert(names_index(width, shorter, j, i));
                    }
                }
                assert(self@ =~= marked(before, width, longer));
            }
            k += 1;
        }
        assert(cells@.take(k as int) =~= cells@);
    }

    /// Whether every position in `cells` lies in the grid.
    fn contains_all(&self, cells: &[(u32, u32)]) -> (inside: bool)
        ensures
            inside == all_inside(cells@, self.spec_width(), self.spec_height()),
    {
        let mut k: usize = 0;
        while k < cells.len()
            invariant
                k <= cells.len(),
                all_inside(cells@.take(k as int), self.spec_width(), self.spec_height()),
            decreases cells.len() - k,
        {
            let (row, column) = cells[k];
            if row >= self.height || column >= self.width {
                return false;
            }
            assert forall|j: int| 0 <= j < k + 1 implies (#[trigger] cells@.take(k + 1)[j]).0
                < self.spec_height() && cells@.take(k + 1)[j].1 < self.spec_width() by {
                if j < k {
                    assert(cells@.take(k as int)[j] == cells@[j]);
                }
            }
            k += 1;
        }
        assert(cells@.take(k as int) =~= cells@);
        true
    }

    /// Makes every cell named in `cells` alive; a cell that is alive stays
    /// so. If any position lies outside the grid the whole list is rejected
    /// and nothing changes.
    pub fn set_cells(&mut self, cells: &[(u32, u32)]) -> (result: Result<(), GridError>)
        requires
            old(self).wf(),
        ensures
            final(self).wf(),
            final(self).spec_width() == old(self).spec_width(),
            final(self).spec_height() == old(self).spec_height(),
            final(self).changed() == old(self).changed(),
            result is Ok <==> all_inside(cells@, old(self).spec_width(), old(self).spec_height()),
            result is Err ==> result == Err::<(), GridError>(GridError::OutOfBounds),
            result is Err ==> final(self)@ == old(self)@,
            result is Ok ==> final(self)@ == marked(old(self)@, old(self).spec_width(), cells@),
    {
        if !self.contains_all(cells) {
            return Err(GridError::OutOfBounds);
        }
        self.mark_alive(cells);
        Ok(())
    }

    /// Gives every cell the state that `alive` holds for its index. A list
    /// whose length is not the number of cells is rejected and nothing
    /// changes.
    pub fn randomize(&mut self, alive: &[bool]) -> (result: Result<(), GridError>)
        requires
            old(self).wf(),
        ensures
            final(self).wf(),
            final(self).spec_width() == old(self).spec_width(),
            final(self).spec_height() == old(self).spec_height(),
            final(self).changed() == old(self).changed(),
            result is Ok <==> alive@.len() == old(self)@.len(),
            result is Err ==> result == Err::<(), GridError>(GridError::LengthMismatch),
            result is Err ==> final(self)@ == old(self)@,
            result is Ok ==> final(self)@ == alive@,
    {
        let size: usize = (self.width * self.height) as usize;
        if alive.len() != size {
            return Err(GridError::LengthMismatch);
        }
        let mut i: usize = 0;
        while i < size
            invariant
                self.wf(),
                self.spec_width() == old(self).spec_width(),
                self.spec_height() == old(self).spec_height(),
                self.changed() == old(self).changed(),
                size == self@.len(),
                size == alive@.len(),
                i <= size,
                forall|j: int| 0 <= j < i ==> self@[j] == alive@[j],
            decreases size - i,
        {
            self.current.set(i, alive[i]);
            i += 1;
        }
        assert(self@ =~= alive@);
        Ok(())
    }

    /// A pair of empty buffers for a grid of `width` by `height` cells, when
    /// such a grid can exist.
    fn empty_buffers(width: u32, height: u32) -> (buffers: Option<(FixedBitSet, FixedBitSet)>)
        ensures
            buffers is Some <==> 0 < width && 0 < height && width * height <= u32::MAX,
            buffers is Some ==> bits_of(buffers->Some_0.0) == all_dead(width * height),
            buffers is Some ==> bits_of(buffers->Some_0.1) == all_dead(width * height),
    {
        if width == 0 || height == 0 {
            return None;
        }
        assert(width * height <= u32::MAX * u32::MAX) by (nonlinear_arith)
            requires
                0 <= width <= u32::MAX,
                0 <= height <= u32::MAX,
        ;
        let cells: u64 = (width as u64) * (height as u64);
        if cells > u32::MAX as u64 {
            return None;
        }
        let size: usize = cells as usize;
        Some((FixedBitSet::with_capacity(size), FixedBitSet::with_capacity(size)))
    }

    /// Gives the grid `width` columns and makes every cell dead. A width of
    /// zero, or one with which the cells no longer have `u32` indices, is
    /// rejected and nothing changes.
    pub fn set_width(&mut self, width: u32) -> (result: Result<(), GridError>)
        requires
            old(self).wf(),
        ensures
            final(self).wf(),
            final(self).spec_height() == old(self).spec_height(),
            final(self).changed() == old(self).changed(),
            result is Ok <==> 0 < width && width * old(self).spec_height() <= u32::MAX,
            result is Err ==> result == Err::<(), GridError>(GridError::InvalidDimension),
            result is Err ==> final(self)@ == old(self)@,
            result is Err ==> final(self).spec_width() == old(self).spec_width(),
            result is Ok ==> final(self).spec_width() == width,
            result is Ok ==> final(self)@ == all_dead(width * old(self).spec_height()),
    {
        match Self::empty_buffers(width, self.height) {
            None => Err(GridError::InvalidDimension),
            Some((current, next)) => {
                self.width = width;
                self.current = current;
                self.next = next;
                Ok(())
            },
        }
    }

    /// Gives the grid `height` rows and makes every cell dead. A height of
    /// zero, or one with which the cells no longer have `u32` indices, is
    /// rejected and nothing changes.
    pub fn set_height(&mut self, height: u32) -> (result: Result<(), GridError>)
        requires
            old(self).wf(),
        ensures
            final(self).wf(),
            final(self).spec_width() == old(self).spec_width(),
            final(self).changed() == old(self).changed(),
            result is Ok <==> 0 < height && old(self).spec_width() * height <= u32::MAX,
            result is Err ==> result == Err::<(), GridError>(GridError::InvalidDimension),
            result is Err ==> final(self)@ == old(self)@,
            result is Err ==> final(self).spec_height() == old(self).spec_height(),
            result is Ok ==> final(self).spec_height() == height,
            result is Ok ==> final(self)@ == all_dead(old(self).spec_width() * height),
    {
        match Self::empty_buffers(self.width, height) {
            None => Err(GridError::InvalidDimension),
            Some((current, next)) => {
                self.height = height;
                self.current = current;
                self.next = next;
                Ok(())
            },
        }
    }

    /// Makes the cells of a pattern alive, with its anchor at
    /// `(row, column)` and every position wrapped onto the grid.
    fn stamp(&mut self, row: u32, column: u32, offsets: &[(i32, i32)])
        requires
            old(self).wf(),
        ensures
            final(self).wf(),
            final(self).spec_width() == old(self).spec_width(),
            final(self).spec_height() == old(self).spec_height(),
            final(self).changed() == old(self).changed(),
            final(self)@ == marked(
                old(self)@,
                old(self).spec_width(),
                stamp_positions(
                    offsets@,
                    row as int,
                    column as int,
                    old(self).spec_width(),
                    old(self).spec_height(),
                ),
            ),
    {
        let positions = pattern_positions(offsets, row, column, self.width, self.height);
        self.mark_alive(positions.as_slice());
    }

    /// Stamps a glider with its anchor at `(row, column)`. Rows and columns
    /// wrap, so every anchor is accepted.
    pub fn insert_glider_at(&mut self, row: u32, column: u32)
        requires
            old(self).wf(),
        ensures
            final(self).wf(),
            final(self).spec_width() == old(self).spec_width(),
            final(self).spec_height() == old(self).spec_height(),
            final(self).changed() == old(self).changed(),
            final(self)@ == marked(
                old(self)@,
                old(self).spec_width(),
                stamp_positions(
                    glider_offsets(),
                    row as int,
                    column as int,
                    old(self).spec_width(),
                    old(self).spec_height(),
                ),
            ),
    {
        let offsets = glider();
        self.stamp(row, column, offsets.as_slice());
    }

    /// Stamps the pulsar pattern with its anchor at `(row, column)`. Rows
    /// and columns wrap, so every anchor is accepted.
    pub fn insert_pulsar_at(&mut self, row: u32, column: u32)
        requires
            old(self).wf(),
        ensures
            final(self).wf(),
            final(self).spec_width() == old(self).spec_width(),
            final(self).spec_height() == old(self).spec_height(),
            final(self).changed() == old(self).changed(),
            final(self)@ == marked(
                old(self)@,
                old(self).spec_width(),
                stamp_positions(
                    pulsar_offsets(),
                    row as int,
                    column as int,
                    old(self).spec_width(),
                    old(self).spec_height(),
                ),
            ),
    {
        let offsets = pulsar();
        self.stamp(row, column, offsets.as_slice());
    }

    /// The current generation as text.
    pub fn render(&self) -> (text: String)
        requires
            self.wf(),
        ensures
            text@ == rendering(self@, self.spec_width(), self.spec_height()),
    {
        let ghost width = self.spec_width();
        let ghost height = self.spec_height();
        let ghost target = rendering(self@, width, height);
        let mut text = String::new();
        let mut row: u32 = 0;
        while row < self.height
            invariant
                self.wf(),
                width == self.spec_width(),
                height == self.spec_height(),
                target == rendering(self@, width, height),
                row <= height,
                text@.len() == row * (width + 1),
                forall|j: int| 0 <= j < text@.len() ==> text@[j] == target[j],
            decreases height - row,
        {
            let mut column: u32 = 0;
            while column < self.width
                invariant
                    self.wf(),
                    width == self.spec_width(),
                    height == self.spec_height(),
                    target == rendering(self@, width, height),
                    row < height,
                    column <= width,
                    text@.len() == row * (width + 1) + column,
                    forall|j: int| 0 <= j < text@.len() ==> text@[j] == target[j],
                decreases width - column,
            {
                let index = self.get_index(row, column);
                let alive = self.current.contains(index);
                proof {
                    let place = cell_index(width + 1, row as int, column as int);
                    lemma_cell_index_split(width + 1, row as int, column as int);
                    lemma_cell_index_bounds(width + 1, height, row as int, column as int);
                    assert((width + 1) * height == height * (width + 1)) by (nonlinear_arith);
                    assert(place == text@.len());
                    assert(target[place] == glyph(alive));
                }
                text.push(glyph_of(alive));
                column += 1;
            }
            proof {
                let place = cell_index(width + 1, row as int, width);
                lemma_cell_index_split(width + 1, row as int, width);
                lemma_cell_index_bounds(width + 1, height, row as int, width);
                assert((width + 1) * height == height * (width + 1)) by (nonlinear_arith);
                assert((row + 1) * (width + 1) == row * (width + 1) + width + 1)
                    by (nonlinear_arith);
                assert(place == text@.len());
                assert(target[place] == '\n');
            }
            text.push('\n');
            row += 1;
        }
        assert(text@ =~= target);
        text
    }
}

} // verus!
