use arenae::colors::ParticleMetadata;
use arenae::grid::{Cell, Grid};

fn sand_count(g: &Grid) -> usize {
    let mut n = 0;
    for y in 0..g.height {
        for x in 0..g.width {
            if g.get(x, y) == Some(Cell::Sand) {
                n += 1;
            }
        }
    }
    n
}

fn sand_positions(g: &Grid) -> Vec<(usize, usize)> {
    let mut v = Vec::new();
    for y in 0..g.height {
        for x in 0..g.width {
            if g.get(x, y) == Some(Cell::Sand) {
                v.push((x, y));
            }
        }
    }
    v
}

#[test]
fn new_grid_is_empty_with_given_shape() {
    let g = Grid::new(4, 3);
    assert_eq!(g.width, 4);
    assert_eq!(g.height, 3);
    for y in 0..3 {
        for x in 0..4 {
            assert_eq!(g.get(x, y), Some(Cell::Empty));
            let m = g.metadata_at(x, y).unwrap();
            assert_eq!(m.creation_frame, 0);
            assert_eq!(m.stationary_frames, 0);
            assert_eq!(m.last_x, 0);
            assert_eq!(m.last_y, 0);
        }
    }
    assert_eq!(sand_count(&g), 0);
}

#[test]
fn get_outside_grid_is_none() {
    let g = Grid::new(4, 3);
    assert_eq!(g.get(4, 0), None);
    assert_eq!(g.get(0, 3), None);
    assert_eq!(g.get(100, 100), None);
    assert!(g.metadata_at(4, 2).is_none());
}

#[test]
fn set_then_get_reads_back_and_leaves_others() {
    let mut g = Grid::new(4, 3);
    g.set(2, 1, Cell::Sand);
    assert_eq!(g.get(2, 1), Some(Cell::Sand));
    assert_eq!(sand_positions(&g), vec![(2, 1)]);
    g.set(2, 1, Cell::Empty);
    assert_eq!(g.get(2, 1), Some(Cell::Empty));
    assert_eq!(sand_count(&g), 0);
}

#[test]
fn set_outside_grid_changes_nothing() {
    let mut g = Grid::new(4, 3);
    g.set(4, 1, Cell::Sand);
    g.set(1, 3, Cell::Sand);
    assert_eq!(sand_count(&g), 0);
}

#[test]
fn in_bounds_edges() {
    let g = Grid::new(4, 3);
    assert!(g.in_bounds(0, 0));
    assert!(g.in_bounds(3, 2));
    assert!(!g.in_bounds(-1, 0));
    assert!(!g.in_bounds(0, -1));
    assert!(!g.in_bounds(4, 0));
    assert!(!g.in_bounds(0, 3));
}

#[test]
fn in_bounds_agrees_with_get() {
    let g = Grid::new(5, 2);
    for y in -2..4i32 {
        for x in -2..7i32 {
            let expected = x >= 0 && y >= 0 && g.get(x as usize, y as usize).is_some();
            assert_eq!(g.in_bounds(x, y), expected);
        }
    }
}

#[test]
fn clear_empties_every_cell() {
    let mut g = Grid::new(6, 6);
    g.add_sand_circle(3, 3, 2, 5);
    assert!(sand_count(&g) > 0);
    g.clear();
    assert_eq!(sand_count(&g), 0);
    assert_eq!(g.width, 6);
    assert_eq!(g.height, 6);
    // metadata stays as it was
    assert_eq!(g.metadata_at(3, 3).unwrap().creation_frame, 5);
}

#[test]
fn add_sand_circle_radius_one_is_a_plus() {
    let mut g = Grid::new(5, 5);
    g.add_sand_circle(2, 2, 1, 7);
    assert_eq!(sand_positions(&g), vec![(2, 1), (1, 2), (2, 2), (3, 2), (2, 3)]);
    let m = g.metadata_at(1, 2).unwrap();
    assert_eq!(m.creation_frame, 7);
    assert_eq!(m.stationary_frames, 0);
    assert_eq!(m.last_x, 1);
    assert_eq!(m.last_y, 2);
    // an untouched position keeps zeroed metadata
    assert_eq!(g.metadata_at(1, 1).unwrap().creation_frame, 0);
}

#[test]
fn add_sand_circle_radius_two() {
    let mut g = Grid::new(7, 7);
    g.add_sand_circle(3, 3, 2, 1);
    // 13 lattice points with dx*dx + dy*dy <= 4
    assert_eq!(sand_count(&g), 13);
    assert_eq!(g.get(1, 3), Some(Cell::Sand));
    assert_eq!(g.get(2, 2), Some(Cell::Sand));
    assert_eq!(g.get(1, 2), Some(Cell::Empty));
    assert_eq!(g.get(1, 1), Some(Cell::Empty));
}

#[test]
fn add_sand_circle_radius_zero_is_one_cell() {
    let mut g = Grid::new(3, 3);
    g.add_sand_circle(1, 1, 0, 2);
    assert_eq!(sand_positions(&g), vec![(1, 1)]);
}

#[test]
fn add_sand_circle_negative_radius_does_nothing() {
    let mut g = Grid::new(3, 3);
    g.add_sand_circle(1, 1, -3, 2);
    assert_eq!(sand_count(&g), 0);
}

#[test]
fn add_sand_circle_is_clipped_at_the_edges() {
    let mut g = Grid::new(4, 4);
    g.add_sand_circle(0, 0, 1, 3);
    assert_eq!(sand_positions(&g), vec![(0, 0), (1, 0), (0, 1)]);
    let mut h = Grid::new(4, 4);
    h.add_sand_circle(-5, -5, 2, 3);
    assert_eq!(sand_count(&h), 0);
}

#[test]
fn painting_twice_keeps_first_metadata() {
    let mut g = Grid::new(5, 5);
    g.add_sand_circle(2, 2, 1, 10);
    let first = sand_positions(&g);
    g.add_sand_circle(2, 2, 1, 99);
    assert_eq!(sand_positions(&g), first);
    for (x, y) in first {
        assert_eq!(g.metadata_at(x, y).unwrap().creation_frame, 10);
    }
}

#[test]
fn overlapping_stroke_stamps_only_new_grains() {
    let mut g = Grid::new(6, 3);
    g.add_sand_circle(1, 1, 0, 4);
    g.add_sand_circle(2, 1, 1, 9);
    assert_eq!(g.metadata_at(1, 1).unwrap().creation_frame, 4);
    assert_eq!(g.metadata_at(2, 1).unwrap().creation_frame, 9);
    assert_eq!(g.metadata_at(3, 1).unwrap().creation_frame, 9);
}

#[test]
fn remove_sand_circle_empties_the_disk_only() {
    let mut g = Grid::new(5, 5);
    for y in 0..5 {
        for x in 0..5 {
            g.set(x, y, Cell::Sand);
        }
    }
    g.remove_sand_circle(2, 2, 1);
    assert_eq!(sand_count(&g), 20);
    assert_eq!(g.get(2, 2), Some(Cell::Empty));
    assert_eq!(g.get(2, 1), Some(Cell::Empty));
    assert_eq!(g.get(1, 1), Some(Cell::Sand));
}

#[test]
fn erase_after_paint_matches_erase_alone() {
    let mut a = Grid::new(6, 6);
    a.set(0, 0, Cell::Sand);
    a.set(3, 4, Cell::Sand);
    let mut b = a.clone();
    a.add_sand_circle(3, 3, 2, 1);
    a.remove_sand_circle(3, 3, 2);
    b.remove_sand_circle(3, 3, 2);
    assert_eq!(sand_positions(&a), sand_positions(&b));
    assert_eq!(sand_positions(&a), vec![(0, 0)]);
}

#[test]
fn brush_counts_only_grow_or_shrink() {
    let mut g = Grid::new(8, 8);
    g.add_sand_circle(2, 2, 2, 0);
    let before = sand_count(&g);
    g.add_sand_circle(5, 5, 2, 1);
    assert!(sand_count(&g) >= before);
    let mid = sand_count(&g);
    g.remove_sand_circle(4, 4, 1);
    assert!(sand_count(&g) <= mid);
}

#[test]
fn brush_limits() {
    assert!(Grid::brush_within_limits(0, 0, 20));
    assert!(Grid::brush_within_limits(5, 5, -3));
    assert!(Grid::brush_within_limits(0, 0, 32767));
    assert!(!Grid::brush_within_limits(0, 0, 32768));
    assert!(!Grid::brush_within_limits(0, 0, 46341));
    assert!(!Grid::brush_within_limits(i32::MAX, 0, 1));
    assert!(!Grid::brush_within_limits(0, i32::MIN, 1));
    assert!(Grid::brush_within_limits(i32::MAX - 1, 0, 1));
}

#[test]
fn clone_is_independent() {
    let mut g = Grid::new(3, 3);
    g.set(1, 1, Cell::Sand);
    let c = g.clone();
    g.set(1, 1, Cell::Empty);
    assert_eq!(c.get(1, 1), Some(Cell::Sand));
    assert_eq!(c.width, 3);
    assert_eq!(c.height, 3);
}

#[test]
fn zero_sized_grids() {
    let g = Grid::new(0, 5);
    assert_eq!(g.get(0, 0), None);
    let h = Grid::new(5, 0);
    assert_eq!(h.get(0, 0), None);
    assert!(!h.in_bounds(0, 0));
}

#[test]
fn metadata_default_is_zero() {
    let m = ParticleMetadata::default();
    assert_eq!(m.creation_frame, 0);
    assert_eq!(m.stationary_frames, 0);
    assert_eq!(m.last_x, 0);
    assert_eq!(m.last_y, 0);
}

#[test]
fn cells_reads_by_row_and_column() {
    let mut g = Grid::new(4, 3);
    g.set(3, 1, Cell::Sand);
    let cells = g.cells();
    assert_eq!(cells.get(1, 3), Some(Cell::Sand));
    assert_eq!(cells.get(3, 1), None);
    assert_eq!(cells.get(0, 0), Some(Cell::Empty));
    assert_eq!(cells.get(2, 3), Some(Cell::Empty));
    assert_eq!(cells.get(3, 0), None);
    assert_eq!(cells.get(0, 4), None);
}

#[test]
fn width_and_height_getters() {
    let g = Grid::new(7, 2);
    assert_eq!(g.width(), 7);
    assert_eq!(g.height(), 2);
    assert_eq!(g.width, 7);
}
