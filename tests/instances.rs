use instanced_cubes::color::{build_colors, Color};
use instanced_cubes::grid::Grid;
use instanced_cubes::instances::InstanceSet;
use instanced_cubes::placement::{offset_of, placement_of, CellPlacement};

fn translation(spacing: f32) -> impl Fn(CellPlacement) -> [f32; 3] {
    move |p: CellPlacement| {
        let half = 0.5 * spacing;
        [
            half * p.offset_x as f32,
            half * p.offset_y as f32,
            half * p.offset_z as f32,
        ]
    }
}

fn close(a: [f32; 3], b: [f32; 3]) -> bool {
    (0..3).all(|k| (a[k] - b[k]).abs() <= 1e-5)
}

#[test]
fn offsets_are_in_half_spacing_units() {
    assert_eq!(offset_of(0, 2), -2);
    assert_eq!(offset_of(1, 2), 0);
    assert_eq!(offset_of(0, 1), -1);
    assert_eq!(offset_of(39, 40), 38);
}

#[test]
fn placement_carries_cell_and_spin() {
    let grid = Grid::new(2).unwrap();
    let p = placement_of(&grid, 1);
    assert_eq!((p.index, p.x, p.y, p.z), (1, 1, 0, 0));
    assert_eq!((p.spin_x, p.spin_y, p.spin_z), (3, 0, 0));
    let angle_at_one_second = 0.1f32 * 1.0 * p.spin_x as f32;
    assert!((angle_at_one_second - 0.3).abs() <= 1e-5);
    let q = placement_of(&Grid::new(10).unwrap(), 543);
    assert_eq!((q.x, q.y, q.z), (3, 4, 5));
    assert_eq!((q.spin_x, q.spin_y, q.spin_z), (9, 8, 5));
    assert_eq!((q.offset_x, q.offset_y, q.offset_z), (-4, -2, 0));
}

#[test]
fn two_by_two_colored_instances() {
    let grid = Grid::new(2).unwrap();
    let set = InstanceSet::compute_instances(&grid, true, translation(3.0));
    assert_eq!(set.len(), 8);
    assert!(close(set.transforms[0], [-3.0, -3.0, -3.0]));
    // 3·1 − 0.5·3·2: the far corner cell sits at the origin.
    assert!(close(set.transforms[7], [0.0, 0.0, 0.0]));
    let colors = set.colors.as_ref().unwrap();
    assert_eq!(colors.len(), 8);
    assert_eq!(colors[0], Color { r: 0, g: 0, b: 0, a: 255 });
    assert_eq!(colors[7], Color { r: 127, g: 127, b: 127, a: 255 });
}

#[test]
fn ten_cubed_cell_one_one_one() {
    let grid = Grid::new(10).unwrap();
    let set = InstanceSet::compute_instances(&grid, false, translation(3.0));
    assert_eq!(set.len(), 1000);
    assert!(set.colors.is_none());
    assert!(close(set.transforms[111], [-12.0, -12.0, -12.0]));
}

#[test]
fn single_cell_is_black_and_half_a_cell_off() {
    let grid = Grid::new(1).unwrap();
    let set = InstanceSet::compute_instances(&grid, true, translation(3.0));
    assert_eq!(set.len(), 1);
    assert!(close(set.transforms[0], [-1.5, -1.5, -1.5]));
    assert_eq!(set.colors.unwrap(), vec![Color { r: 0, g: 0, b: 0, a: 255 }]);
}

#[test]
fn translation_matches_spacing_formula() {
    for (s, spacing) in [(2i32, 3.0f32), (5, 3.0), (7, 3.5)] {
        let grid = Grid::new(s).unwrap();
        let set = InstanceSet::compute_instances(&grid, false, translation(spacing));
        for (i, t) in set.transforms.iter().enumerate() {
            let p = placement_of(&grid, i as u32);
            let centre = |c: u32| spacing * c as f32 - 0.5 * spacing * s as f32;
            assert!(close(*t, [centre(p.x), centre(p.y), centre(p.z)]));
        }
    }
}

#[test]
fn instance_count_matches_cells() {
    for s in [1i32, 2, 3, 6] {
        let grid = Grid::new(s).unwrap();
        let n = (s * s * s) as usize;
        let set = InstanceSet::compute_instances(&grid, true, |p: CellPlacement| p.index);
        assert_eq!(set.transforms.len(), n);
        assert_eq!(set.colors.as_ref().unwrap().len(), n);
        assert_eq!(set.transforms, (0..n as u32).collect::<Vec<u32>>());
    }
}

#[test]
fn stress_grid_reuses_one_allocation() {
    let grid = Grid::new(40).unwrap();
    let mut set = InstanceSet::preallocate(&grid, [0.0f32; 3], true);
    assert_eq!(set.allocation_count(), 1);
    for frame in 0..1000 {
        set.fit_to(&grid, [0.0f32; 3]);
        if frame % 10 == 0 || frame == 999 {
            set.update_in_place(&grid, translation(3.5));
        }
    }
    assert_eq!(set.allocation_count(), 1);
    assert_eq!(set.len(), 64000);
    assert!(close(set.transforms[0], [-70.0, -70.0, -70.0]));
    assert_eq!(set.colors.as_ref().unwrap().len(), 64000);
}

#[test]
fn update_in_place_keeps_colors_and_storage() {
    let grid = Grid::new(3).unwrap();
    let mut set = InstanceSet::preallocate(&grid, u32::MAX, true);
    let before = set.colors.clone();
    set.update_in_place(&grid, |p: CellPlacement| p.index * 2);
    assert_eq!(set.colors, before);
    assert_eq!(set.allocation_count(), 1);
    assert_eq!(set.transforms, (0..27u32).map(|i| i * 2).collect::<Vec<u32>>());
}

#[test]
fn fit_to_reallocates_only_on_size_change() {
    let small = Grid::new(2).unwrap();
    let large = Grid::new(3).unwrap();
    let mut set = InstanceSet::preallocate(&small, 5u32, true);
    set.fit_to(&small, 9);
    assert_eq!(set.allocation_count(), 1);
    assert_eq!(set.transforms, vec![5u32; 8]);
    set.fit_to(&large, 9);
    assert_eq!(set.allocation_count(), 2);
    assert_eq!(set.transforms, vec![9u32; 27]);
    assert_eq!(set.colors.as_ref().unwrap(), &build_colors(&large));
}

#[test]
fn preallocate_without_colors() {
    let grid = Grid::new(4).unwrap();
    let set = InstanceSet::preallocate(&grid, 0u8, false);
    assert_eq!(set.len(), 64);
    assert!(set.colors.is_none());
    assert_eq!(set.allocation_count(), 1);
}
