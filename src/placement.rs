use vstd::prelude::*;

use crate::grid::{cell_at, cell_count, cell_of, lemma_cell_in_range, Grid, MAX_SIDE_COUNT};

verus! {

/// What a cell's transform is built from, in exact integer terms.
///
/// With spacing `d`, the cell center sits at `d·c − d·S/2 = (d/2)·(2c − S)` on each
/// axis `c`, so `offset_*` is that position in half-spacing units. At time `t` the
/// cell is turned by `(t/10)·spin_*` radians about each axis: `0.3·t·x`, `0.2·t·y`
/// and `0.1·t·z`.
#[derive(Clone, Copy, Debug, PartialEq, Eq, Structural)]
pub struct CellPlacement {
    pub index: u32,
    pub x: u32,
    pub y: u32,
    pub z: u32,
    pub offset_x: i32,
    pub offset_y: i32,
    pub offset_z: i32,
    pub spin_x: u32,
    pub spin_y: u32,
    pub spin_z: u32,
}

/// Center of coordinate `c` on an axis of `s` cells, in half-spacing units.
pub open spec fn half_offset(c: int, s: int) -> int {
    2 * c - s
}

/// Placement of the cell at linear index `i` in a grid of side `s`.
pub open spec fn placement_at(i: int, s: int) -> CellPlacement {
    let (x, y, z) = cell_at(i, s);
    CellPlacement {
        index: i as u32,
        x: x as u32,
        y: y as u32,
        z: z as u32,
        offset_x: half_offset(x, s) as i32,
        offset_y: half_offset(y, s) as i32,
        offset_z: half_offset(z, s) as i32,
        spin_x: (3 * x) as u32,
        spin_y: (2 * y) as u32,
        spin_z: z as u32,
    }
}

/// Center of coordinate `c` on an axis of `side_count` cells, in half-spacing units.
pub fn offset_of(c: u32, side_count: u32) -> (r: i32)
    requires
        0 < side_count <= MAX_SIDE_COUNT,
        c < side_count,
    ensures
        r as int == half_offset(c as int, side_count as int),
        -(side_count as int) <= r < side_count,
{
    2 * (c as i32) - side_count as i32
}

/// Placement of the cell at linear index `i`.
pub fn placement_of(grid: &Grid, i: u32) -> (r: CellPlacement)
    requires
        grid.wf(),
        i < grid.count_spec(),
    ensures
        r == placement_at(i as int, grid.side_count as int),
{
    let s = grid.side_count;
    let (x, y, z) = cell_of(i, s);
    CellPlacement {
        index: i,
        x,
        y,
        z,
        offset_x: offset_of(x, s),
        offset_y: offset_of(y, s),
        offset_z: offset_of(z, s),
        spin_x: 3 * x,
        spin_y: 2 * y,
        spin_z: z,
    }
}

/// The cell center is `d·c − d·S/2`: doubled, it is `d` times the offset. Stated for
/// every integer spacing `d`; being linear in `d`, it scales to every rational one.
pub proof fn lemma_translation_offset(i: int, s: int, d: int)
    requires
        0 < s <= MAX_SIDE_COUNT,
        0 <= i < cell_count(s),
    ensures
        2 * (d * cell_at(i, s).0) - d * s == d * placement_at(i, s).offset_x,
        2 * (d * cell_at(i, s).1) - d * s == d * placement_at(i, s).offset_y,
        2 * (d * cell_at(i, s).2) - d * s == d * placement_at(i, s).offset_z,
{
    lemma_cell_in_range(i, s);
    let (x, y, z) = cell_at(i, s);
    assert(2 * (d * x) - d * s == d * (2 * x - s)) by (nonlinear_arith);
    assert(2 * (d * y) - d * s == d * (2 * y - s)) by (nonlinear_arith);
    assert(2 * (d * z) - d * s == d * (2 * z - s)) by (nonlinear_arith);
}

} // verus!
