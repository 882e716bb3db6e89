use vstd::arithmetic::div_mod::{
    lemma_div_denominator, lemma_fundamental_div_mod, lemma_fundamental_div_mod_converse,
};
use vstd::prelude::*;

verus! {

/// Largest number of cubes along one axis: the cube of it still fits a `u32`.
pub const MAX_SIDE_COUNT: u32 = 1625;

/// Index of cell `(x, y, z)` in the linear cell order of a grid of side `s`.
pub open spec fn linear_index(x: int, y: int, z: int, s: int) -> int {
    x + s * y + s * s * z
}

/// Cell at linear index `i` of a grid of side `s`.
pub open spec fn cell_at(i: int, s: int) -> (int, int, int) {
    (i % s, (i / s) % s, i / (s * s))
}

/// Number of cells of a grid of side `s`.
pub open spec fn cell_count(s: int) -> int {
    s * s * s
}

/// Cell at linear index `i`, for `0 <= i < side_count³`.
pub fn cell_of(i: u32, side_count: u32) -> (r: (u32, u32, u32))
    requires
        0 < side_count <= MAX_SIDE_COUNT,
        i < cell_count(side_count as int),
    ensures
        (r.0 as int, r.1 as int, r.2 as int) == cell_at(i as int, side_count as int),
        r.0 < side_count,
        r.1 < side_count,
        r.2 < side_count,
{
    proof {
        lemma_cell_in_range(i as int, side_count as int);
    }
    let sq: u32 = side_count * side_count;
    (i % side_count, (i / side_count) % side_count, i / sq)
}

/// Linear index of cell `(x, y, z)`, each coordinate below `side_count`.
pub fn index_of(x: u32, y: u32, z: u32, side_count: u32) -> (r: u32)
    requires
        0 < side_count <= MAX_SIDE_COUNT,
        x < side_count,
        y < side_count,
        z < side_count,
    ensures
        r as int == linear_index(x as int, y as int, z as int, side_count as int),
        r < cell_count(side_count as int),
{
    proof {
        lemma_index_in_range(x as int, y as int, z as int, side_count as int);
    }
    let sq: u32 = side_count * side_count;
    x + side_count * y + sq * z
}

pub proof fn lemma_cell_in_range(i: int, s: int)
    requires
        0 < s <= MAX_SIDE_COUNT,
        0 <= i < cell_count(s),
    ensures
        s * s <= MAX_SIDE_COUNT * MAX_SIDE_COUNT,
        0 <= cell_at(i, s).0 < s,
        0 <= cell_at(i, s).1 < s,
        0 <= cell_at(i, s).2 < s,
{
    assert(s * s <= MAX_SIDE_COUNT * MAX_SIDE_COUNT) by (nonlinear_arith)
        requires 0 < s <= MAX_SIDE_COUNT;
    assert(0 <= i / (s * s) < s) by (nonlinear_arith)
        requires 0 < s, 0 <= i < s * s * s;
    assert(0 <= (i / s) % s < s) by (nonlinear_arith)
        requires 0 < s, 0 <= i;
}

pub proof fn lemma_index_in_range(x: int, y: int, z: int, s: int)
    requires
        0 < s <= MAX_SIDE_COUNT,
        0 <= x < s,
        0 <= y < s,
        0 <= z < s,
    ensures
        0 <= linear_index(x, y, z, s) < cell_count(s),
        cell_count(s) <= MAX_SIDE_COUNT * MAX_SIDE_COUNT * MAX_SIDE_COUNT,
        s * s <= MAX_SIDE_COUNT * MAX_SIDE_COUNT,
        0 <= s * y <= s * s,
        0 <= s * s * z < s * s * s,
        0 <= x + s * y < s * s,
{
    assert(s * s <= MAX_SIDE_COUNT * MAX_SIDE_COUNT) by (nonlinear_arith)
        requires 0 < s <= MAX_SIDE_COUNT;
    assert(0 <= s * y <= s * s) by (nonlinear_arith)
        requires 0 < s, 0 <= y < s;
    assert(0 <= x + s * y < s * s) by (nonlinear_arith)
        requires 0 < s, 0 <= x < s, 0 <= y < s;
    assert(0 <= s * s * z < s * s * s) by (nonlinear_arith)
        requires 0 < s, 0 <= z < s;
    assert(0 <= x + s * y + s * s * z < s * s * s) by (nonlinear_arith)
        requires 0 <= x < s, 0 <= y < s, 0 <= z < s;
    assert(s * s * s <= MAX_SIDE_COUNT * MAX_SIDE_COUNT * MAX_SIDE_COUNT) by (nonlinear_arith)
        requires 0 < s <= MAX_SIDE_COUNT;
}

/// Cell order is a bijection, one way: the cell at index `i` has index `i`.
pub proof fn lemma_index_of_cell_of(i: int, s: int)
    requires
        0 < s,
        0 <= i < cell_count(s),
    ensures
        linear_index(cell_at(i, s).0, cell_at(i, s).1, cell_at(i, s).2, s) == i,
{
    lemma_fundamental_div_mod(i, s);
    lemma_fundamental_div_mod(i / s, s);
    lemma_div_denominator(i, s, s);
    assert(i / s >= 0) by (nonlinear_arith)
        requires 0 < s, 0 <= i;
    let q = i / s;
    assert(s * q == s * (s * (q / s)) + s * (q % s)) by (nonlinear_arith)
        requires q == s * (q / s) + (q % s);
    assert(s * (s * (q / s)) == s * s * (q / s)) by (nonlinear_arith);
}

/// Cell order is a bijection, the other way: the index of a cell leads back to it.
pub proof fn lemma_cell_of_index_of(x: int, y: int, z: int, s: int)
    requires
        0 < s,
        0 <= x < s,
        0 <= y < s,
        0 <= z < s,
    ensures
        cell_at(linear_index(x, y, z, s), s) == (x, y, z),
{
    let i = linear_index(x, y, z, s);
    let q = y + s * z;
    assert(i == q * s + x) by (nonlinear_arith)
        requires i == x + s * y + s * s * z, q == y + s * z;
    lemma_fundamental_div_mod_converse(i, s, q, x);
    assert(q == z * s + y) by (nonlinear_arith)
        requires q == y + s * z;
    lemma_fundamental_div_mod_converse(q, s, z, y);
    assert(0 <= q) by (nonlinear_arith)
        requires 0 < s, 0 <= y, 0 <= z, q == y + s * z;
    assert(i >= 0);
    lemma_div_denominator(i, s, s);
}

/// Why a side count was refused.
#[derive(Clone, Copy, Debug, PartialEq, Eq, Structural)]
pub enum ConfigError {
    /// The side count is zero or negative.
    NonPositiveSideCount,
    /// The cube of the side count does not fit a `u32`.
    SideCountTooLarge,
}

/// A cubic grid of cells, `side_count` along each axis, fixed for the life of a program.
#[derive(Clone, Copy, Debug, PartialEq, Eq, Structural)]
pub struct Grid {
    pub side_count: u32,
}

impl Grid {
    pub open spec fn wf(&self) -> bool {
        0 < self.side_count <= MAX_SIDE_COUNT
    }

    /// Number of cells, `side_count³`.
    pub open spec fn count_spec(&self) -> int {
        cell_count(self.side_count as int)
    }

    /// Validates a side count.
    pub fn new(side_count: i32) -> (r: Result<Grid, ConfigError>)
        ensures
            side_count <= 0 ==> r == Err::<Grid, ConfigError>(ConfigError::NonPositiveSideCount),
            side_count > MAX_SIDE_COUNT ==> r == Err::<Grid, ConfigError>(
                ConfigError::SideCountTooLarge,
            ),
            0 < side_count <= MAX_SIDE_COUNT ==> r == Ok::<Grid, ConfigError>(
                (Grid { side_count: side_count as u32 }),
            ),
            r is Ok ==> r->Ok_0.wf(),
    {
        if side_count <= 0 {
            Err(ConfigError::NonPositiveSideCount)
        } else if side_count as u32 > MAX_SIDE_COUNT {
            Err(ConfigError::SideCountTooLarge)
        } else {
            Ok(Grid { side_count: side_count as u32 })
        }
    }

    /// Number of cells, `side_count³`.
    pub fn count(&self) -> (r: u32)
        requires
            self.wf(),
        ensures
            r as int == self.count_spec(),
    {
        proof {
            lemma_index_in_range(0, 0, 0, self.side_count as int);
            assert(cell_count(MAX_SIDE_COUNT as int) <= u32::MAX);
        }
        let s = self.side_count;
        s * s * s
    }
}

} // verus!
