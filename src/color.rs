use vstd::prelude::*;

use crate::grid::{
    cell_at, cell_count, cell_of, lemma_cell_of_index_of, linear_index, Grid, MAX_SIDE_COUNT,
};

verus! {

/// An 8-bit sRGBA color.
#[derive(Clone, Copy, Debug, PartialEq, Eq, Structural)]
pub struct Color {
    pub r: u8,
    pub g: u8,
    pub b: u8,
    pub a: u8,
}

/// Channel intensity of coordinate `c` on an axis of `s` cells: `⌊255·c/s⌋`.
pub open spec fn channel(c: int, s: int) -> int {
    255 * c / s
}

/// Color of cell `(x, y, z)` in a grid of side `s`: opaque, one channel per axis.
pub open spec fn cell_color(x: int, y: int, z: int, s: int) -> Color {
    Color { r: channel(x, s) as u8, g: channel(y, s) as u8, b: channel(z, s) as u8, a: 255 }
}

/// The color table of a grid of side `s`, in linear cell order.
pub open spec fn color_table(s: int) -> Seq<Color> {
    Seq::new(
        cell_count(s) as nat,
        |i: int| cell_color(cell_at(i, s).0, cell_at(i, s).1, cell_at(i, s).2, s),
    )
}

proof fn lemma_channel_bounds(c: int, s: int)
    requires
        0 < s <= MAX_SIDE_COUNT,
        0 <= c < s,
    ensures
        0 <= channel(c, s) < 255,
        255 * c <= 255 * MAX_SIDE_COUNT,
{
    assert(0 <= 255 * c / s < 255) by (nonlinear_arith)
        requires 0 < s, 0 <= c < s;
}

/// Channel intensity of coordinate `c` on an axis of `side_count` cells.
pub fn channel_value(c: u32, side_count: u32) -> (r: u8)
    requires
        0 < side_count <= MAX_SIDE_COUNT,
        c < side_count,
    ensures
        r as int == channel(c as int, side_count as int),
{
    proof {
        lemma_channel_bounds(c as int, side_count as int);
    }
    (255 * c / side_count) as u8
}

/// Color of cell `(x, y, z)`.
pub fn color_of_cell(x: u32, y: u32, z: u32, side_count: u32) -> (r: Color)
    requires
        0 < side_count <= MAX_SIDE_COUNT,
        x < side_count,
        y < side_count,
        z < side_count,
    ensures
        r == cell_color(x as int, y as int, z as int, side_count as int),
        r.r as int == channel(x as int, side_count as int),
        r.g as int == channel(y as int, side_count as int),
        r.b as int == channel(z as int, side_count as int),
{
    Color {
        r: channel_value(x, side_count),
        g: channel_value(y, side_count),
        b: channel_value(z, side_count),
        a: 255,
    }
}

/// One color per cell, in linear cell order.
pub fn build_colors(grid: &Grid) -> (r: Vec<Color>)
    requires
        grid.wf(),
    ensures
        r@ == color_table(grid.side_count as int),
{
    let s = grid.side_count;
    let n = grid.count();
    let mut colors: Vec<Color> = Vec::new();
    let mut i: u32 = 0;
    while i < n
        invariant
            0 < s <= MAX_SIDE_COUNT,
            n as int == cell_count(s as int),
            i <= n,
            colors@ =~= color_table(s as int).take(i as int),
        decreases n - i,
    {
        let (x, y, z) = cell_of(i, s);
        colors.push(color_of_cell(x, y, z, s));
        i = i + 1;
    }
    colors
}

/// Building the color table twice gives the same table, entry for entry.
pub proof fn lemma_colors_deterministic(s: int, first: Seq<Color>, second: Seq<Color>)
    requires
        0 < s <= MAX_SIDE_COUNT,
        first == color_table(s),
        second == color_table(s),
    ensures
        first.len() == second.len(),
        forall|i: int| 0 <= i < first.len() ==> first[i] == second[i],
{
}

/// The entry of cell `(x, y, z)` is `(⌊255·x/s⌋, ⌊255·y/s⌋, ⌊255·z/s⌋, 255)`.
pub proof fn lemma_color_formula(s: int, x: int, y: int, z: int)
    requires
        0 < s <= MAX_SIDE_COUNT,
        0 <= x < s,
        0 <= y < s,
        0 <= z < s,
    ensures
        0 <= linear_index(x, y, z, s) < color_table(s).len(),
        color_table(s)[linear_index(x, y, z, s)].r as int == 255 * x / s,
        color_table(s)[linear_index(x, y, z, s)].g as int == 255 * y / s,
        color_table(s)[linear_index(x, y, z, s)].b as int == 255 * z / s,
        color_table(s)[linear_index(x, y, z, s)].a == 255,
{
    crate::grid::lemma_index_in_range(x, y, z, s);
    lemma_cell_of_index_of(x, y, z, s);
    lemma_channel_bounds(x, s);
    lemma_channel_bounds(y, s);
    lemma_channel_bounds(z, s);
}

} // verus!
