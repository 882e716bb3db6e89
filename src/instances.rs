use vstd::prelude::*;

use crate::color::{build_colors, color_table, Color};
use crate::grid::Grid;
use crate::placement::{placement_at, placement_of, CellPlacement};

verus! {

/// What a renderer draws with hardware instancing: one transform per cell and,
/// optionally, one color per cell, both in linear cell order.
///
/// `T` is the transform type of the renderer. The transforms are made by a kernel
/// from each cell's `CellPlacement`. `allocations` counts how often the transform
/// storage was allocated.
pub struct InstanceSet<T> {
    pub transforms: Vec<T>,
    pub colors: Option<Vec<Color>>,
    pub allocations: u64,
}

/// `transforms[i]` is what `kernel` may return on the placement of cell `i`, for
/// every cell of a grid of side `s`.
pub open spec fn built_by<T, F: Fn(CellPlacement) -> T>(
    transforms: Seq<T>,
    s: int,
    kernel: F,
) -> bool {
    forall|i: int|
        0 <= i < transforms.len() ==> kernel.ensures((placement_at(i, s),), #[trigger] transforms[i])
}

/// The colors of a grid of side `s` when `with_colors`, else none.
pub open spec fn colors_for(s: int, with_colors: bool) -> Option<Seq<Color>> {
    if with_colors {
        Some(color_table(s))
    } else {
        None
    }
}

pub open spec fn colors_view(colors: Option<Vec<Color>>) -> Option<Seq<Color>> {
    match colors {
        Some(c) => Some(c@),
        None => None,
    }
}

/// Overwrites each transform with the kernel's result for its cell.
fn fill_transforms<T, F: Fn(CellPlacement) -> T>(transforms: &mut Vec<T>, grid: &Grid, kernel: &F)
    requires
        grid.wf(),
        old(transforms)@.len() == grid.count_spec(),
        forall|p: CellPlacement| kernel.requires((p,)),
    ensures
        final(transforms)@.len() == grid.count_spec(),
        built_by(final(transforms)@, grid.side_count as int, *kernel),
{
    let n = grid.count();
    let mut i: u32 = 0;
    while i < n
        invariant
            grid.wf(),
            n as int == grid.count_spec(),
            i <= n,
            transforms@.len() == n,
            forall|p: CellPlacement| kernel.requires((p,)),
            forall|j: int|
                0 <= j < i ==> kernel.ensures(
                    (placement_at(j, grid.side_count as int),),
                    #[trigger] transforms@[j],
                ),
        decreases n - i,
    {
        let p = placement_of(grid, i);
        let t = kernel(p);
        transforms.set(i as usize, t);
        i = i + 1;
    }
}

impl<T> InstanceSet<T> {
    /// Transform storage is sized for the grid, and so are the colors if present.
    pub open spec fn wf(&self, grid: Grid) -> bool {
        &&& self.transforms@.len() == grid.count_spec()
        &&& self.colors is Some ==> self.colors->Some_0@.len() == grid.count_spec()
    }

    pub open spec fn allocations_spec(&self) -> u64 {
        self.allocations
    }

    /// How often the transform storage was allocated.
    pub fn allocation_count(&self) -> (r: u64)
        ensures
            r == self.allocations_spec(),
    {
        self.allocations
    }

    /// Number of transforms.
    pub fn len(&self) -> (r: usize)
        ensures
            r == self.transforms@.len(),
    {
        self.transforms.len()
    }

    /// A fresh instance set: the kernel's transform for each cell, and the
    /// colors of the grid when `with_colors`.
    pub fn compute_instances<F: Fn(CellPlacement) -> T>(
        grid: &Grid,
        with_colors: bool,
        kernel: F,
    ) -> (r: InstanceSet<T>)
        requires
            grid.wf(),
            forall|p: CellPlacement| kernel.requires((p,)),
        ensures
            r.wf(*grid),
            built_by(r.transforms@, grid.side_count as int, kernel),
            colors_view(r.colors) == colors_for(grid.side_count as int, with_colors),
            r.allocations_spec() == 1,
    {
        let n = grid.count();
        let mut transforms: Vec<T> = Vec::new();
        let mut i: u32 = 0;
        while i < n
            invariant
                grid.wf(),
                n as int == grid.count_spec(),
                i <= n,
                transforms@.len() == i,
                forall|p: CellPlacement| kernel.requires((p,)),
                forall|j: int|
                    0 <= j < i ==> kernel.ensures(
                        (placement_at(j, grid.side_count as int),),
                        #[trigger] transforms@[j],
                    ),
            decreases n - i,
        {
            let p = placement_of(grid, i);
            transforms.push(kernel(p));
            i = i + 1;
        }
        let colors = if with_colors {
            Some(build_colors(grid))
        } else {
            None
        };
        InstanceSet { transforms, colors, allocations: 1 }
    }

    /// Rewrites every transform in place with the kernel's result for its cell.
    /// The storage must already hold one transform per cell; it is not reallocated.
    pub fn update_in_place<F: Fn(CellPlacement) -> T>(&mut self, grid: &Grid, kernel: F)
        requires
            grid.wf(),
            old(self).wf(*grid),
            forall|p: CellPlacement| kernel.requires((p,)),
        ensures
            final(self).wf(*grid),
            built_by(final(self).transforms@, grid.side_count as int, kernel),
            final(self).colors == old(self).colors,
            final(self).allocations_spec() == old(self).allocations_spec(),
    {
        fill_transforms(&mut self.transforms, grid, &kernel);
    }
}

impl<T: Copy> InstanceSet<T> {
    /// Storage for one transform per cell, each set to `fill`, allocated once.
    pub fn preallocate(grid: &Grid, fill: T, with_colors: bool) -> (r: InstanceSet<T>)
        requires
            grid.wf(),
        ensures
            r.wf(*grid),
            forall|i: int| 0 <= i < r.transforms@.len() ==> r.transforms@[i] == fill,
            colors_view(r.colors) == colors_for(grid.side_count as int, with_colors),
            r.allocations_spec() == 1,
    {
        let transforms = filled(grid.count() as usize, fill);
        let colors = if with_colors {
            Some(build_colors(grid))
        } else {
            None
        };
        InstanceSet { transforms, colors, allocations: 1 }
    }

    /// Sizes the storage for `grid`: kept as it is when it already holds one
    /// transform per cell, otherwise allocated anew with exactly that many,
    /// each set to `fill`. Colors of another length are rebuilt for the grid.
    pub fn fit_to(&mut self, grid: &Grid, fill: T)
        requires
            grid.wf(),
        ensures
            final(self).wf(*grid),
            old(self).transforms@.len() == grid.count_spec() ==> final(self).transforms
                == old(self).transforms,
            old(self).transforms@.len() == grid.count_spec() ==> final(self).allocations_spec()
                == old(self).allocations_spec(),
            old(self).transforms@.len() != grid.count_spec() ==> {
                &&& forall|i: int|
                    0 <= i < final(self).transforms@.len() ==> final(self).transforms@[i] == fill
                &&& final(self).allocations_spec() == if old(self).allocations_spec() == u64::MAX {
                    u64::MAX
                } else {
                    (old(self).allocations_spec() + 1) as u64
                }
            },
            final(self).colors is Some <==> old(self).colors is Some,
            old(self).colors is Some && old(self).colors->Some_0@.len() == grid.count_spec()
                ==> final(self).colors == old(self).colors,
            old(self).colors is Some && old(self).colors->Some_0@.len() != grid.count_spec()
                ==> final(self).colors->Some_0@ == color_table(grid.side_count as int),
    {
        let n = grid.count() as usize;
        if self.transforms.len() != n {
            self.transforms = filled(n, fill);
            self.allocations = self.allocations.saturating_add(1);
        }
        let stale = match &self.colors {
            Some(c) => c.len() != n,
            None => false,
        };
        if stale {
            self.colors = Some(build_colors(grid));
        }
    }
}

/// `n` copies of `fill`.
fn filled<T: Copy>(n: usize, fill: T) -> (r: Vec<T>)
    ensures
        r@.len() == n,
        forall|i: int| 0 <= i < n ==> r@[i] == fill,
{
    let mut v: Vec<T> = Vec::with_capacity(n);
    let mut i: usize = 0;
    while i < n
        invariant
            i <= n,
            v@.len() == i,
            forall|j: int| 0 <= j < i ==> v@[j] == fill,
        decreases n - i,
    {
        v.push(fill);
        i = i + 1;
    }
    v
}

} // verus!
