use arenae::grid::{Cell, Grid};
use arenae::simulation::Simulation;

fn sand_positions(g: &Grid) -> Vec<(usize, usize)> {
    let mut v = Vec::new();
    for y in 0..g.height {
        for x in 0..g.width {
            if g.get(x, y) == Some(Cell::Sand) {
                v.push((x, y));
            }
        }
    }
    v
}

#[test]
fn new_simulation_starts_at_frame_zero() {
    let s = Simulation::new(8, 6);
    assert_eq!(s.current_frame(), 0);
    assert_eq!(s.grid().width, 8);
    assert_eq!(s.grid().height, 6);
    assert!(sand_positions(s.grid()).is_empty());
}

#[test]
fn step_advances_the_frame() {
    let mut s = Simulation::new(3, 3);
    s.step();
    s.step();
    assert_eq!(s.current_frame(), 2);
}

#[test]
fn grain_falls_one_row_per_step_and_rests_on_the_floor() {
    let mut s = Simulation::new(3, 4);
    s.grid_mut().set(1, 0, Cell::Sand);
    s.step();
    assert_eq!(sand_positions(s.grid()), vec![(1, 1)]);
    s.step();
    assert_eq!(sand_positions(s.grid()), vec![(1, 2)]);
    s.step();
    assert_eq!(sand_positions(s.grid()), vec![(1, 3)]);
    s.step();
    assert_eq!(sand_positions(s.grid()), vec![(1, 3)]);
}

#[test]
fn blocked_grain_on_even_position_slides_down_left() {
    let mut s = Simulation::new(3, 3);
    s.grid_mut().set(1, 2, Cell::Sand);
    s.grid_mut().set(1, 1, Cell::Sand);
    s.step();
    assert_eq!(sand_positions(s.grid()), vec![(0, 2), (1, 2)]);
}

#[test]
fn blocked_grain_on_odd_position_slides_down_right() {
    let mut s = Simulation::new(4, 3);
    s.grid_mut().set(2, 2, Cell::Sand);
    s.grid_mut().set(2, 1, Cell::Sand);
    s.step();
    assert_eq!(sand_positions(s.grid()), vec![(2, 2), (3, 2)]);
}

#[test]
fn blocked_left_takes_the_right() {
    // (1,1): even position, tries left first; left is taken, so it goes right.
    let mut s = Simulation::new(3, 3);
    s.grid_mut().set(0, 2, Cell::Sand);
    s.grid_mut().set(1, 2, Cell::Sand);
    s.grid_mut().set(1, 1, Cell::Sand);
    s.step();
    assert_eq!(sand_positions(s.grid()), vec![(0, 2), (1, 2), (2, 2)]);
}

#[test]
fn grain_at_left_edge_cannot_go_left() {
    // (0,0): even position; nothing to its left, so it goes down-right.
    let mut s = Simulation::new(2, 2);
    s.grid_mut().set(0, 1, Cell::Sand);
    s.grid_mut().set(0, 0, Cell::Sand);
    s.step();
    assert_eq!(sand_positions(s.grid()), vec![(0, 1), (1, 1)]);
}

#[test]
fn fully_blocked_grain_stays_and_counts_frames() {
    let mut s = Simulation::new(3, 2);
    for x in 0..3 {
        s.grid_mut().set(x, 1, Cell::Sand);
    }
    s.grid_mut().add_sand_circle(1, 0, 0, 0);
    s.step();
    assert_eq!(sand_positions(s.grid()), vec![(1, 0), (0, 1), (1, 1), (2, 1)]);
    let m = s.grid().metadata_at(1, 0).unwrap();
    assert_eq!(m.stationary_frames, 1);
    // a floor grain placed without metadata is first recorded where it is
    let f = s.grid().metadata_at(0, 1).unwrap();
    assert_eq!(f.stationary_frames, 0);
    assert_eq!((f.last_x, f.last_y), (0, 1));
    s.step();
    assert_eq!(s.grid().metadata_at(1, 0).unwrap().stationary_frames, 2);
    assert_eq!(s.grid().metadata_at(0, 1).unwrap().stationary_frames, 1);
}

#[test]
fn metadata_travels_with_the_grain() {
    let mut s = Simulation::new(3, 3);
    s.grid_mut().add_sand_circle(1, 0, 0, 5);
    s.step();
    assert_eq!(sand_positions(s.grid()), vec![(1, 1)]);
    let m = s.grid().metadata_at(1, 1).unwrap();
    assert_eq!(m.creation_frame, 5);
    assert_eq!(m.stationary_frames, 0);
    assert_eq!((m.last_x, m.last_y), (1, 1));
    // the copy left behind is unchanged
    let old = s.grid().metadata_at(1, 0).unwrap();
    assert_eq!(old.creation_frame, 5);
    assert_eq!((old.last_x, old.last_y), (1, 0));
}

#[test]
fn step_conserves_sand() {
    let mut s = Simulation::new(12, 10);
    s.grid_mut().add_sand_circle(6, 3, 2, 0);
    s.grid_mut().add_sand_circle(2, 6, 1, 0);
    let n = sand_positions(s.grid()).len();
    assert_eq!(n, 18);
    for _ in 0..40 {
        s.step();
        assert_eq!(sand_positions(s.grid()).len(), n);
    }
}

#[test]
fn floor_sand_stays_put() {
    let mut s = Simulation::new(5, 4);
    s.grid_mut().set(0, 3, Cell::Sand);
    s.grid_mut().set(4, 3, Cell::Sand);
    s.grid_mut().add_sand_circle(2, 1, 1, 0);
    for _ in 0..10 {
        s.step();
        assert_eq!(s.grid().get(0, 3), Some(Cell::Sand));
        assert_eq!(s.grid().get(4, 3), Some(Cell::Sand));
    }
}

#[test]
fn empty_grid_stays_empty() {
    let mut s = Simulation::new(4, 4);
    for _ in 0..5 {
        s.step();
    }
    assert!(sand_positions(s.grid()).is_empty());
}

#[test]
fn single_row_grid_only_counts() {
    let mut s = Simulation::new(3, 1);
    s.grid_mut().add_sand_circle(0, 0, 0, 1);
    s.step();
    assert_eq!(sand_positions(s.grid()), vec![(0, 0)]);
    assert_eq!(s.grid().metadata_at(0, 0).unwrap().stationary_frames, 1);
}

#[test]
fn can_step_needs_a_row() {
    assert!(!Simulation::new(3, 0).can_step());
    assert!(Simulation::new(3, 3).can_step());
    assert!(Simulation::new(0, 3).can_step());
}

#[test]
fn pile_settles() {
    let mut s = Simulation::new(5, 3);
    for x in 0..5 {
        s.grid_mut().set(x, 0, Cell::Sand);
    }
    for _ in 0..5 {
        s.step();
    }
    // five grains on a 5-wide grid end up on the floor row
    assert_eq!(sand_positions(s.grid()), vec![(0, 2), (1, 2), (2, 2), (3, 2), (4, 2)]);
}

#[test]
fn clear_through_grid_mut() {
    let mut s = Simulation::new(5, 5);
    s.grid_mut().add_sand_circle(2, 2, 2, 0);
    s.step();
    s.grid_mut().clear();
    assert!(sand_positions(s.grid()).is_empty());
    assert_eq!(s.current_frame(), 1);
}

#[test]
fn steps_keep_creation_frames() {
    let mut s = Simulation::new(10, 8);
    s.grid_mut().add_sand_circle(3, 1, 1, 3);
    s.grid_mut().add_sand_circle(6, 2, 1, 8);
    for _ in 0..20 {
        s.step();
        for y in 0..8 {
            for x in 0..10 {
                let f = s.grid().metadata_at(x, y).unwrap().creation_frame;
                assert!(f == 0 || f == 3 || f == 8);
            }
        }
    }
    let mut frames: Vec<u64> = Vec::new();
    for y in 0..8 {
        for x in 0..10 {
            if s.grid().get(x, y) == Some(Cell::Sand) {
                frames.push(s.grid().metadata_at(x, y).unwrap().creation_frame);
            }
        }
    }
    assert_eq!(frames.iter().filter(|f| **f == 3).count(), 5);
    assert_eq!(frames.iter().filter(|f| **f == 8).count(), 5);
}

#[test]
fn try_step_steps_when_possible() {
    let mut s = Simulation::new(3, 3);
    s.grid_mut().set(1, 0, Cell::Sand);
    assert!(s.try_step());
    assert_eq!(s.current_frame(), 1);
    assert_eq!(sand_positions(s.grid()), vec![(1, 1)]);
}

#[test]
fn try_step_refuses_a_grid_without_rows() {
    let mut s = Simulation::new(3, 0);
    assert!(!s.try_step());
    assert_eq!(s.current_frame(), 0);
}
