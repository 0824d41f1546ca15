//! What holds of the engine as a whole, each statement proved from the
//! contracts of the operations it speaks of.

use crate::rules::{
    alive_at, flipped_below, flipped_indices, lemma_cell_index_bounds, lemma_cell_index_split,
    live_neighbors, next_generation, ring_next, ring_prev,
};
use crate::universe::Universe;
use vstd::prelude::*;

verus! {

/// A tick is a function of the generation and the size alone: two grids of
/// one size that hold the same generation hold the same generation after a
/// tick each, with the same record of changes, whatever else they held
/// before. Step by step, equal starts give equal sequences of generations.
pub proof fn lemma_tick_is_deterministic(
    first: Universe,
    second: Universe,
    first_after: Universe,
    second_after: Universe,
)
    requires
        first.wf(),
        second.wf(),
        first.spec_width() == second.spec_width(),
        first.spec_height() == second.spec_height(),
        first@ == second@,
        first_after.is_tick_of(first),
        second_after.is_tick_of(second),
    ensures
        first_after.spec_width() == second_after.spec_width(),
        first_after.spec_height() == second_after.spec_height(),
        first_after@ == second_after@,
        first_after.changed() == second_after.changed(),
{
}

/// The grid is a torus: the last cell of the last row has the first cell of
/// the first row as a neighbor, and the other way round, so a live cell at
/// either corner is counted at the other.
pub proof fn lemma_corners_are_neighbors(cells: Seq<bool>, width: int, height: int)
    requires
        0 < width,
        0 < height,
        cells.len() == width * height,
    ensures
        ring_next(height - 1, height) == 0,
        ring_next(width - 1, width) == 0,
        ring_prev(0, height) == height - 1,
        ring_prev(0, width) == width - 1,
        alive_at(cells, width, 0, 0) ==> live_neighbors(
            cells,
            width,
            height,
            height - 1,
            width - 1,
        ) >= 1,
        alive_at(cells, width, height - 1, width - 1) ==> live_neighbors(
            cells,
            width,
            height,
            0,
            0,
        ) >= 1,
{
}

/// On a grid of at least three rows and three columns whose only live cell
/// is the first one, the last cell of the last row counts exactly one live
/// neighbor: the first cell, reached across both edges.
pub proof fn lemma_lone_corner_counts_once(cells: Seq<bool>, width: int, height: int)
    requires
        3 <= width,
        3 <= height,
        cells.len() == width * height,
        cells[0],
        forall|i: int| 0 < i < cells.len() ==> !cells[i],
    ensures
        live_neighbors(cells, width, height, height - 1, width - 1) == 1,
{
    lemma_cell_index_bounds(width, height, height - 2, width - 2);
    lemma_cell_index_bounds(width, height, height - 2, width - 1);
    lemma_cell_index_bounds(width, height, height - 2, 0);
    lemma_cell_index_bounds(width, height, height - 1, width - 2);
    lemma_cell_index_bounds(width, height, height - 1, 0);
    lemma_cell_index_bounds(width, height, 0, width - 2);
    lemma_cell_index_bounds(width, height, 0, width - 1);
    assert((height - 2) * width > 0) by (nonlinear_arith)
        requires
            height >= 3,
            width >= 3,
    ;
    assert((height - 1) * width > 0) by (nonlinear_arith)
        requires
            height >= 3,
            width >= 3,
    ;
}

/// The rules, cell by cell: a live cell with fewer than two live neighbors
/// or with more than three is dead in the next generation, a live cell with
/// two or three stays alive, a dead cell with exactly three comes alive, and
/// any other dead cell stays dead.
pub proof fn lemma_rules_hold(cells: Seq<bool>, width: int, height: int, row: int, column: int)
    requires
        0 < width,
        0 < height,
        cells.len() == width * height,
        0 <= row < height,
        0 <= column < width,
    ensures
        ({
            let alive = alive_at(cells, width, row, column);
            let neighbors = live_neighbors(cells, width, height, row, column);
            let next = alive_at(next_generation(cells, width, height), width, row, column);
            &&& 0 <= neighbors <= 8
            &&& alive && neighbors < 2 ==> !next
            &&& alive && (neighbors == 2 || neighbors == 3) ==> next
            &&& alive && neighbors > 3 ==> !next
            &&& !alive && neighbors == 3 ==> next
            &&& !alive && neighbors != 3 ==> !next
        }),
{
    lemma_cell_index_bounds(width, height, row, column);
    lemma_cell_index_split(width, row, column);
}

/// The record of changes is complete and exact: an index occurs in it if and
/// only if the two generations differ at that index. It is strictly
/// ascending, so no index occurs twice.
pub proof fn lemma_flipped_indices_exact(before: Seq<bool>, after: Seq<bool>)
    requires
        before.len() == after.len(),
        before.len() <= u32::MAX,
    ensures
        forall|i: u32|
            #[trigger] flipped_indices(before, after).contains(i) <==> (i < before.len()
                && before[i as int] != after[i as int]),
        forall|a: int, b: int|
            0 <= a < b < flipped_indices(before, after).len() ==> #[trigger] flipped_indices(
                before,
                after,
            )[a] < #[trigger] flipped_indices(before, after)[b],
{
    lemma_flipped_below_exact(before, after, before.len());
}

/// The same for the indices below `n`.
pub proof fn lemma_flipped_below_exact(before: Seq<bool>, after: Seq<bool>, n: nat)
    requires
        n <= before.len(),
        n <= after.len(),
        n <= u32::MAX,
    ensures
        forall|i: u32|
            #[trigger] flipped_below(before, after, n).contains(i) <==> (i < n && before[i as int]
                != after[i as int]),
        forall|a: int, b: int|
            0 <= a < b < flipped_below(before, after, n).len() ==> #[trigger] flipped_below(
                before,
                after,
                n,
            )[a] < #[trigger] flipped_below(before, after, n)[b],
    decreases n,
{
    let list = flipped_below(before, after, n);
    if n > 0 {
        let rest = flipped_below(before, after, (n - 1) as nat);
        lemma_flipped_below_exact(before, after, (n - 1) as nat);
        let last = (n - 1) as u32;
        if before[n - 1] != after[n - 1] {
            assert(list == rest.push(last));
            assert forall|i: u32| #[trigger] list.contains(i) <==> (i < n && before[i as int]
                != after[i as int]) by {
                if list.contains(i) {
                    let k = choose|k: int| 0 <= k < list.len() && list[k] == i;
                    if k < rest.len() {
                        assert(rest[k] == i);
                        assert(rest.contains(i));
                    }
                }
                if i < n && before[i as int] != after[i as int] {
                    if i == last {
                        assert(list[rest.len() as int] == i);
                    } else {
                        assert(rest.contains(i));
                        let k = choose|k: int| 0 <= k < rest.len() && rest[k] == i;
                        assert(list[k] == i);
                    }
                }
            }
            assert forall|a: int, b: int| 0 <= a < b < list.len() implies #[trigger] list[a]
                < #[trigger] list[b] by {
                if b == rest.len() {
                    assert(rest.contains(rest[a]));
                } else {
                    assert(rest[a] < rest[b]);
                }
            }
        }
    }
}

/// Clearing twice records nothing the second time: after one `clear` the
/// grid is empty, so a second `clear` finds no live cell and leaves an empty
/// record.
pub proof fn lemma_second_clear_records_nothing(start: Universe, once: Universe, twice: Universe)
    requires
        start.wf(),
        once.wf(),
        once.is_clear_of(start),
        twice.is_clear_of(once),
    ensures
        twice@ == once@,
        twice.changed() == Seq::<u32>::empty(),
{
    lemma_unchanged_flips_nothing(once@, once@.len());
}

/// A generation differs from itself nowhere.
pub proof fn lemma_unchanged_flips_nothing(cells: Seq<bool>, n: nat)
    ensures
        flipped_below(cells, cells, n) == Seq::<u32>::empty(),
    decreases n,
{
    if n > 0 {
        lemma_unchanged_flips_nothing(cells, (n - 1) as nat);
    }
}

} // verus!
