//! The mathematical model of the automaton: a generation is a sequence of
//! booleans in row-major order, read on a torus of `width` columns and
//! `height` rows.

use vstd::prelude::*;

verus! {

/// Position of the cell at `(row, column)` in a row-major sequence.
pub open spec fn cell_index(width: int, row: int, column: int) -> int {
    row * width + column
}

/// The coordinate before `i` on a ring of `n` places.
pub open spec fn ring_prev(i: int, n: int) -> int {
    if i == 0 {
        n - 1
    } else {
        i - 1
    }
}

/// The coordinate after `i` on a ring of `n` places.
pub open spec fn ring_next(i: int, n: int) -> int {
    if i == n - 1 {
        0
    } else {
        i + 1
    }
}

/// Whether the cell at `(row, column)` is alive.
pub open spec fn alive_at(cells: Seq<bool>, width: int, row: int, column: int) -> bool {
    cells[cell_index(width, row, column)]
}

/// What one cell adds to a neighbor count.
pub open spec fn weight(alive: bool) -> int {
    if alive {
        1
    } else {
        0
    }
}

/// Number of live cells among the eight toroidal neighbors of `(row, column)`.
pub open spec fn live_neighbors(
    cells: Seq<bool>,
    width: int,
    height: int,
    row: int,
    column: int,
) -> int {
    let north = ring_prev(row, height);
    let south = ring_next(row, height);
    let west = ring_prev(column, width);
    let east = ring_next(column, width);
    weight(alive_at(cells, width, north, west)) + weight(alive_at(cells, width, north, column))
        + weight(alive_at(cells, width, north, east)) + weight(alive_at(cells, width, row, west))
        + weight(alive_at(cells, width, row, east)) + weight(alive_at(cells, width, south, west))
        + weight(alive_at(cells, width, south, column)) + weight(
        alive_at(cells, width, south, east),
    )
}

/// State of a cell in the next generation, given its state and its number of
/// live neighbors: alive with two or three neighbors survives, dead with
/// exactly three is born, everything else is dead.
pub open spec fn next_state(alive: bool, neighbors: int) -> bool {
    neighbors == 3 || (alive && neighbors == 2)
}

/// The generation that follows `cells`.
pub open spec fn next_generation(cells: Seq<bool>, width: int, height: int) -> Seq<bool> {
    Seq::new(
        (width * height) as nat,
        |i: int| next_state(cells[i], live_neighbors(cells, width, height, i / width, i % width)),
    )
}

/// A generation of `count` dead cells.
pub open spec fn all_dead(count: int) -> Seq<bool> {
    Seq::new(count as nat, |i: int| false)
}

/// The indices below `n` at which `before` and `after` differ, ascending.
pub open spec fn flipped_below(before: Seq<bool>, after: Seq<bool>, n: nat) -> Seq<u32>
    decreases n,
{
    if n == 0 {
        Seq::empty()
    } else {
        let rest = flipped_below(before, after, (n - 1) as nat);
        if before[n - 1] != after[n - 1] {
            rest.push((n - 1) as u32)
        } else {
            rest
        }
    }
}

/// The indices at which two generations of one size differ, ascending.
pub open spec fn flipped_indices(before: Seq<bool>, after: Seq<bool>) -> Seq<u32> {
    flipped_below(before, after, before.len())
}

/// Whether entry `k` of `positions` names the cell with index `i`.
pub open spec fn names_index(width: int, positions: Seq<(u32, u32)>, k: int, i: int) -> bool {
    0 <= k < positions.len() && cell_index(width, positions[k].0 as int, positions[k].1 as int)
        == i
}

/// Whether every entry of `positions` lies inside a `width` by `height` grid.
pub open spec fn all_inside(positions: Seq<(u32, u32)>, width: int, height: int) -> bool {
    forall|k: int|
        0 <= k < positions.len() ==> (#[trigger] positions[k]).0 < height && positions[k].1
            < width
}

/// The generation in which the cells at `positions` are alive and every other
/// cell is as in `cells`.
pub open spec fn marked(cells: Seq<bool>, width: int, positions: Seq<(u32, u32)>) -> Seq<bool> {
    Seq::new(
        cells.len(),
        |i: int| cells[i] || exists|k: int| names_index(width, positions, k, i),
    )
}

/// Applies the rules to one cell, in their order of precedence.
pub fn next_cell_state(alive: bool, neighbors: u8) -> (next: bool)
    ensures
        next == next_state(alive, neighbors as int),
{
    if alive && neighbors < 2 {
        false
    } else if alive && (neighbors == 2 || neighbors == 3) {
        true
    } else if alive && neighbors > 3 {
        false
    } else if !alive && neighbors == 3 {
        true
    } else {
        alive
    }
}

/// A cell inside the grid has an index inside the sequence.
pub proof fn lemma_cell_index_bounds(width: int, height: int, row: int, column: int)
    requires
        0 <= row < height,
        0 <= column < width,
    ensures
        0 <= cell_index(width, row, column) < width * height,
{
    assert(row * width >= 0) by (nonlinear_arith)
        requires
            row >= 0,
            width > 0,
    ;
    assert(row * width + width <= height * width) by (nonlinear_arith)
        requires
            row + 1 <= height,
            width > 0,
    ;
    assert(height * width == width * height) by (nonlinear_arith);
}

/// Row and column are recovered from an index by division and remainder.
pub proof fn lemma_cell_index_split(width: int, row: int, column: int)
    requires
        0 <= row,
        0 <= column < width,
    ensures
        cell_index(width, row, column) / width == row,
        cell_index(width, row, column) % width == column,
{
    vstd::arithmetic::div_mod::lemma_fundamental_div_mod_converse(
        cell_index(width, row, column),
        width,
        row,
        column,
    );
}

/// Every index of a `width` by `height` grid names one cell inside it.
pub proof fn lemma_index_names_cell(width: int, height: int, i: int)
    requires
        0 < width,
        0 <= i < width * height,
    ensures
        0 <= i / width < height,
        0 <= i % width < width,
        cell_index(width, i / width, i % width) == i,
{
    vstd::arithmetic::div_mod::lemma_fundamental_div_mod(i, width);
    vstd::arithmetic::div_mod::lemma_mod_bound(i, width);
    let q = i / width;
    assert(width * q == q * width) by (nonlinear_arith);
    assert(q >= 0) by (nonlinear_arith)
        requires
            i >= 0,
            width > 0,
            q == i / width,
    ;
    assert(q < height) by (nonlinear_arith)
        requires
            q * width <= i,
            i < width * height,
            width > 0,
    ;
}

} // verus!
