//! Fixed patterns of live cells, given as offsets from an anchor, and the
//! arithmetic that places them on a torus.

use crate::rules::all_inside;
use vstd::prelude::*;

verus! {

/// The coordinate `offset` places away from `anchor` on a ring of `size`
/// places. The remainder is the mathematical one, never negative.
pub open spec fn wrapped(anchor: int, offset: int, size: int) -> int {
    (anchor + offset) % size
}

/// The cells of a glider, as `(row, column)` offsets from its anchor.
pub open spec fn glider_offsets() -> Seq<(i32, i32)> {
    seq![(-1i32, 0i32), (0i32, 1i32), (1i32, -1i32), (1i32, 0i32), (1i32, 1i32)]
}

/// The cells of the pulsar pattern, as `(row, column)` offsets from its
/// anchor: five rows, mirrored left to right and top to bottom.
pub open spec fn pulsar_offsets() -> Seq<(i32, i32)> {
    seq![
        (-4i32, -2i32),
        (-4i32, -1i32),
        (-4i32, 1i32),
        (-4i32, 2i32),
        (-2i32, -4i32),
        (-2i32, -3i32),
        (-2i32, -2i32),
        (-2i32, -1i32),
        (-2i32, 1i32),
        (-2i32, 2i32),
        (-2i32, 3i32),
        (-2i32, 4i32),
        (0i32, -4i32),
        (0i32, -3i32),
        (0i32, 3i32),
        (0i32, 4i32),
        (2i32, -4i32),
        (2i32, -3i32),
        (2i32, -2i32),
        (2i32, -1i32),
        (2i32, 1i32),
        (2i32, 2i32),
        (2i32, 3i32),
        (2i32, 4i32),
        (4i32, -2i32),
        (4i32, -1i32),
        (4i32, 1i32),
        (4i32, 2i32),
    ]
}

/// Where the cells of a pattern fall when its anchor is `(row, column)` on a
/// torus of `width` columns and `height` rows.
pub open spec fn stamp_positions(
    offsets: Seq<(i32, i32)>,
    row: int,
    column: int,
    width: int,
    height: int,
) -> Seq<(u32, u32)> {
    Seq::new(
        offsets.len(),
        |k: int|
            (
                wrapped(row, offsets[k].0 as int, height) as u32,
                wrapped(column, offsets[k].1 as int, width) as u32,
            ),
    )
}

/// Moves `anchor` by `offset` on a ring of `size` places.
pub fn wrap_offset(anchor: u32, offset: i32, size: u32) -> (place: u32)
    requires
        0 < size,
    ensures
        place == wrapped(anchor as int, offset as int, size as int),
        place < size,
{
    let sum: i64 = anchor as i64 + offset as i64;
    proof {
        vstd::arithmetic::div_mod::lemma_mod_bound(sum as int, size as int);
    }
    let place: i64 = sum.checked_rem_euclid(size as i64).unwrap();
    place as u32
}

/// The glider's offsets.
pub fn glider() -> (offsets: [(i32, i32); 5])
    ensures
        offsets@ == glider_offsets(),
{
    let offsets: [(i32, i32); 5] = [(-1, 0), (0, 1), (1, -1), (1, 0), (1, 1)];
    assert(offsets@ =~= glider_offsets());
    offsets
}

/// The pulsar pattern's offsets.
pub fn pulsar() -> (offsets: [(i32, i32); 28])
    ensures
        offsets@ == pulsar_offsets(),
{
    let offsets: [(i32, i32); 28] = [
        (-4, -2),
        (-4, -1),
        (-4, 1),
        (-4, 2),
        (-2, -4),
        (-2, -3),
        (-2, -2),
        (-2, -1),
        (-2, 1),
        (-2, 2),
        (-2, 3),
        (-2, 4),
        (0, -4),
        (0, -3),
        (0, 3),
        (0, 4),
        (2, -4),
        (2, -3),
        (2, -2),
        (2, -1),
        (2, 1),
        (2, 2),
        (2, 3),
        (2, 4),
        (4, -2),
        (4, -1),
        (4, 1),
        (4, 2),
    ];
    assert(offsets@ =~= pulsar_offsets());
    offsets
}

/// The positions of a pattern's cells for a given anchor and grid size.
pub fn pattern_positions(
    offsets: &[(i32, i32)],
    row: u32,
    column: u32,
    width: u32,
    height: u32,
) -> (positions: Vec<(u32, u32)>)
    requires
        0 < width,
        0 < height,
    ensures
        positions@ == stamp_positions(
            offsets@,
            row as int,
            column as int,
            width as int,
            height as int,
        ),
        all_inside(positions@, width as int, height as int),
{
    let mut positions: Vec<(u32, u32)> = Vec::new();
    let mut k: usize = 0;
    while k < offsets.len()
        invariant
            0 < width,
            0 < height,
            k <= offsets.len(),
            all_inside(positions@, width as int, height as int),
            positions@ == stamp_positions(
                offsets@.take(k as int),
                row as int,
                column as int,
                width as int,
                height as int,
            ),
        decreases offsets.len() - k,
    {
        let (row_offset, column_offset) = offsets[k];
        let new_row = wrap_offset(row, row_offset, height);
        let new_column = wrap_offset(column, column_offset, width);
        positions.push((new_row, new_column));
        assert(positions@ =~= stamp_positions(
            offsets@.take(k + 1),
            row as int,
            column as int,
            width as int,
            height as int,
        ));
        k += 1;
    }
    assert(offsets@.take(k as int) =~= offsets@);
    positions
}

} // verus!
