//! Physics: sand falls through the grid under simple gravity rules.
//!
//! One step sweeps the grid from the second-lowest row up to the top row,
//! even rows left to right and odd rows right to left, and moves each grain
//! it meets: straight down when the cell below is empty, else diagonally down
//! (first to the side its position's parity picks, then the other side), else
//! not at all. A grain's metadata travels with it. After the sweep, every
//! grain's stationary counter is updated.

use vstd::prelude::*;
use crate::colors::ParticleMetadata;
use crate::grid::{Cell, Grid, GridView, lemma_count_rows_insert, lemma_no_sand_count};

verus! {


/// The grid after the grain at `(x, y)` moved to `(nx, ny)`, taking its
/// metadata along; the metadata left at `(x, y)` stays as it was.
pub open spec fn moved(g: GridView, x: int, y: int, nx: int, ny: int) -> GridView {
    g.with_cell(x, y, Cell::Empty).with_cell(nx, ny, Cell::Sand).with_metadata(nx, ny, g.metadata(x, y))
}

/// Diagonal moves are tried down-left first when `x + y` is even, down-right
/// first otherwise.
pub open spec fn tries_left_first(x: int, y: int) -> bool {
    (x + y) % 2 == 0
}

/// `(x, y)` is a position of the grid and its cell is empty.
pub open spec fn empty_at(g: GridView, x: int, y: int) -> bool {
    g.contains(x, y) && g.cell(x, y) == Cell::Empty
}

/// The grid after the gravity rule is applied to position `(x, y)`: a grain
/// there moves to the first free cell among straight below and the two
/// diagonals below; anything else, including a position outside the grid,
/// leaves the grid as it is.
pub open spec fn update_cell(g: GridView, x: int, y: int) -> GridView {
    let left_free = x > 0 && empty_at(g, x - 1, y + 1);
    let right_free = x < g.width - 1 && empty_at(g, x + 1, y + 1);
    if !(g.contains(x, y) && g.cell(x, y) == Cell::Sand) {
        g
    } else if empty_at(g, x, y + 1) {
        moved(g, x, y, x, y + 1)
    } else if tries_left_first(x, y) {
        if left_free {
            moved(g, x, y, x - 1, y + 1)
        } else if right_free {
            moved(g, x, y, x + 1, y + 1)
        } else {
            g
        }
    } else {
        if right_free {
            moved(g, x, y, x + 1, y + 1)
        } else if left_free {
            moved(g, x, y, x - 1, y + 1)
        } else {
            g
        }
    }
}

/// The column visited `k`-th in row `y`: even rows run left to right, odd
/// rows right to left.
pub open spec fn sweep_column(width: int, y: int, k: int) -> int {
    if y % 2 == 0 { k } else { width - 1 - k }
}

/// The grid after the first `k` positions of row `y` were updated in sweep
/// order.
pub open spec fn sweep_row(g: GridView, y: int, k: nat) -> GridView
    decreases k,
{
    if k == 0 {
        g
    } else {
        let prev = sweep_row(g, y, (k - 1) as nat);
        update_cell(prev, sweep_column(g.width as int, y, k - 1), y)
    }
}

/// The grid after the `n` lowest rows above the bottom row were swept,
/// lowest first.
pub open spec fn sweep_rows(g: GridView, n: nat) -> GridView
    decreases n,
{
    if n == 0 {
        g
    } else {
        let prev = sweep_rows(g, (n - 1) as nat);
        sweep_row(prev, g.height - 2 - (n - 1), g.width as nat)
    }
}

/// The grid after the whole gravity sweep of one step.
pub open spec fn fall(g: GridView) -> GridView {
    sweep_rows(g, (g.height - 1) as nat)
}

/// The stationary-counter update of a grain at `(x, y)` with metadata `m`:
/// one more frame when it is still where it was last seen, else a reset of
/// the counter and a record of the new position.
pub open spec fn tick(m: ParticleMetadata, x: int, y: int) -> ParticleMetadata {
    if m.last_x == x && m.last_y == y {
        ParticleMetadata { stationary_frames: (m.stationary_frames + 1) as u32, ..m }
    } else {
        ParticleMetadata { stationary_frames: 0, last_x: x as usize, last_y: y as usize, ..m }
    }
}

/// The grid after every grain's stationary counter was updated.
pub open spec fn ticked(g: GridView) -> GridView {
    GridView {
        meta: Map::new(
            |p: (int, int)| g.meta.dom().contains(p),
            |p: (int, int)| if g.cells[p] == Cell::Sand { tick(g.meta[p], p.1, p.0) } else { g.meta[p] },
        ),
        ..g
    }
}

/// No grain that stayed in place has a stationary counter at its maximum.
pub open spec fn counters_fit(g: GridView) -> bool {
    forall|p: (int, int)|
        #![trigger g.meta[p]]
        g.meta.dom().contains(p) && g.cells[p] == Cell::Sand && g.meta[p].last_x == p.1 && g.meta[p].last_y == p.0
            ==> g.meta[p].stationary_frames < u32::MAX
}

/// The grid after one step.
pub open spec fn stepped(g: GridView) -> GridView {
    ticked(fall(g))
}

/// A gravity update keeps the grid's shape.
pub proof fn lemma_update_cell_shape(g: GridView, x: int, y: int)
    requires
        g.wf(),
        g.contains(x, y),
        g.contains(x, y + 1),
    ensures
        update_cell(g, x, y).wf(),
        update_cell(g, x, y).width == g.width,
        update_cell(g, x, y).height == g.height,
{
    let r = update_cell(g, x, y);
    assert(r.cells.dom() =~= g.cells.dom());
    assert(r.meta.dom() =~= g.meta.dom());
}

/// Sweeping part of a row keeps the grid's shape.
pub proof fn lemma_sweep_row_shape(g: GridView, y: int, k: nat)
    requires
        g.wf(),
        0 <= y,
        y + 1 < g.height,
        k <= g.width,
    ensures
        sweep_row(g, y, k).wf(),
        sweep_row(g, y, k).width == g.width,
        sweep_row(g, y, k).height == g.height,
    decreases k,
{
    if k > 0 {
        lemma_sweep_row_shape(g, y, (k - 1) as nat);
        lemma_update_cell_shape(sweep_row(g, y, (k - 1) as nat), sweep_column(g.width as int, y, k - 1), y);
    }
}

/// Sweeping rows keeps the grid's shape.
pub proof fn lemma_sweep_rows_shape(g: GridView, n: nat)
    requires
        g.wf(),
        n + 1 <= g.height,
    ensures
        sweep_rows(g, n).wf(),
        sweep_rows(g, n).width == g.width,
        sweep_rows(g, n).height == g.height,
    decreases n,
{
    if n > 0 {
        lemma_sweep_rows_shape(g, (n - 1) as nat);
        lemma_sweep_row_shape(sweep_rows(g, (n - 1) as nat), g.height - 2 - (n - 1), g.width as nat);
    }
}

/// Moving a grain into an empty cell keeps the number of grains.
proof fn lemma_moved_count(g: GridView, x: int, y: int, nx: int, ny: int)
    requires
        g.wf(),
        g.contains(x, y),
        g.contains(nx, ny),
        g.cell(x, y) == Cell::Sand,
        g.cell(nx, ny) == Cell::Empty,
    ensures
        moved(g, x, y, nx, ny).sand_count() == g.sand_count(),
{
    let w = g.width as nat;
    let h = g.height as nat;
    let c1 = g.cells.insert((y, x), Cell::Empty);
    lemma_count_rows_insert(g.cells, w, h, (y, x), Cell::Empty);
    lemma_count_rows_insert(c1, w, h, (ny, nx), Cell::Sand);
    assert(c1[(ny, nx)] == Cell::Empty);
}

/// A gravity update keeps the number of grains.
proof fn lemma_update_cell_count(g: GridView, x: int, y: int)
    requires
        g.wf(),
        g.contains(x, y),
        g.contains(x, y + 1),
    ensures
        update_cell(g, x, y).sand_count() == g.sand_count(),
{
    if g.cell(x, y) == Cell::Sand {
        if g.cell(x, y + 1) == Cell::Empty {
            lemma_moved_count(g, x, y, x, y + 1);
        } else {
            if x > 0 && g.cell(x - 1, y + 1) == Cell::Empty {
                lemma_moved_count(g, x, y, x - 1, y + 1);
            }
            if x < g.width - 1 && g.cell(x + 1, y + 1) == Cell::Empty {
                lemma_moved_count(g, x, y, x + 1, y + 1);
            }
        }
    }
}

/// Sweeping part of a row keeps the number of grains.
proof fn lemma_sweep_row_count(g: GridView, y: int, k: nat)
    requires
        g.wf(),
        0 <= y,
        y + 1 < g.height,
        k <= g.width,
    ensures
        sweep_row(g, y, k).sand_count() == g.sand_count(),
    decreases k,
{
    if k > 0 {
        lemma_sweep_row_count(g, y, (k - 1) as nat);
        lemma_sweep_row_shape(g, y, (k - 1) as nat);
        lemma_update_cell_count(sweep_row(g, y, (k - 1) as nat), sweep_column(g.width as int, y, k - 1), y);
    }
}

/// Sweeping rows keeps the number of grains.
proof fn lemma_sweep_rows_count(g: GridView, n: nat)
    requires
        g.wf(),
        n + 1 <= g.height,
    ensures
        sweep_rows(g, n).sand_count() == g.sand_count(),
    decreases n,
{
    if n > 0 {
        lemma_sweep_rows_count(g, (n - 1) as nat);
        lemma_sweep_rows_shape(g, (n - 1) as nat);
        lemma_sweep_row_count(sweep_rows(g, (n - 1) as nat), g.height - 2 - (n - 1), g.width as nat);
    }
}

/// A step keeps the grid's shape.
pub proof fn step_keeps_shape(g: GridView)
    requires
        g.wf(),
        g.height > 0,
    ensures
        stepped(g).wf(),
        stepped(g).width == g.width,
        stepped(g).height == g.height,
{
    lemma_sweep_rows_shape(g, (g.height - 1) as nat);
    let f = fall(g);
    assert(ticked(f).meta.dom() =~= f.meta.dom());
}

/// Sand is neither created nor destroyed by a step: the grid holds as many
/// grains after it as before.
pub proof fn step_conserves_sand(g: GridView)
    requires
        g.wf(),
        g.height > 0,
    ensures
        stepped(g).sand_count() == g.sand_count(),
{
    lemma_sweep_rows_count(g, (g.height - 1) as nat);
    lemma_sweep_rows_shape(g, (g.height - 1) as nat);
}

/// A gravity update at a row above `row` leaves a grain in row `row` in place.
proof fn lemma_update_cell_keeps_below(g: GridView, x: int, y: int, fx: int, row: int)
    requires
        g.wf(),
        g.contains(x, y),
        g.contains(x, y + 1),
        y < row,
        g.cell(fx, row) == Cell::Sand,
    ensures
        update_cell(g, x, y).cell(fx, row) == Cell::Sand,
{
}

/// Sweeping part of a row leaves a grain of a lower row in place.
proof fn lemma_sweep_row_keeps_below(g: GridView, y: int, k: nat, fx: int, row: int)
    requires
        g.wf(),
        0 <= y,
        y + 1 < g.height,
        k <= g.width,
        y < row,
        g.cell(fx, row) == Cell::Sand,
    ensures
        sweep_row(g, y, k).cell(fx, row) == Cell::Sand,
    decreases k,
{
    if k > 0 {
        lemma_sweep_row_keeps_below(g, y, (k - 1) as nat, fx, row);
        lemma_sweep_row_shape(g, y, (k - 1) as nat);
        lemma_update_cell_keeps_below(sweep_row(g, y, (k - 1) as nat), sweep_column(g.width as int, y, k - 1), y, fx, row);
    }
}

/// Sweeping rows leaves a grain of the bottom row in place.
proof fn lemma_sweep_rows_keeps_floor(g: GridView, n: nat, fx: int)
    requires
        g.wf(),
        n + 1 <= g.height,
        g.cell(fx, g.height - 1) == Cell::Sand,
    ensures
        sweep_rows(g, n).cell(fx, g.height - 1) == Cell::Sand,
    decreases n,
{
    if n > 0 {
        lemma_sweep_rows_keeps_floor(g, (n - 1) as nat, fx);
        lemma_sweep_rows_shape(g, (n - 1) as nat);
        lemma_sweep_row_keeps_below(sweep_rows(g, (n - 1) as nat), g.height - 2 - (n - 1), g.width as nat, fx, g.height - 1);
    }
}

/// Sand resting on the bottom row stays there through a step.
pub proof fn step_keeps_floor_sand(g: GridView, x: int)
    requires
        g.wf(),
        g.height > 0,
        0 <= x < g.width,
        g.cell(x, g.height - 1) == Cell::Sand,
    ensures
        stepped(g).cell(x, g.height - 1) == Cell::Sand,
{
    lemma_sweep_rows_keeps_floor(g, (g.height - 1) as nat, x);
}

/// A step on a grid without sand leaves every cell empty.
pub proof fn step_keeps_empty_grid_empty(g: GridView)
    requires
        g.wf(),
        g.height > 0,
        forall|x: int, y: int| g.contains(x, y) ==> #[trigger] g.cell(x, y) == Cell::Empty,
    ensures
        forall|x: int, y: int| stepped(g).contains(x, y) ==> #[trigger] stepped(g).cell(x, y) == Cell::Empty,
{
    lemma_no_sand_count(g);
    step_conserves_sand(g);
    step_keeps_shape(g);
    lemma_no_sand_count(stepped(g));
}


/// A gravity update moves at most one grain: the one at `(x, y)`, one row
/// down and at most one column sideways, into an empty cell. A position
/// holding no grain, outside the grid, on the bottom row, or with all three
/// cells below it taken, is left as it is.
pub proof fn update_cell_moves_one_step(g: GridView, x: int, y: int)
    requires
        g.wf(),
    ensures
        update_cell(g, x, y) == g || exists|nx: int|
            x - 1 <= nx <= x + 1 && g.contains(x, y) && g.cell(x, y) == Cell::Sand && empty_at(g, nx, y + 1)
                && update_cell(g, x, y) == #[trigger] moved(g, x, y, nx, y + 1),
        !(g.contains(x, y) && g.cell(x, y) == Cell::Sand) || !g.contains(x, y + 1)
            || (!empty_at(g, x, y + 1) && !empty_at(g, x - 1, y + 1) && !empty_at(g, x + 1, y + 1))
            ==> update_cell(g, x, y) == g,
{
    let r = update_cell(g, x, y);
    if r != g {
        if empty_at(g, x, y + 1) {
            assert(r == moved(g, x, y, x, y + 1));
        } else if r == moved(g, x, y, x - 1, y + 1) {
        } else {
            assert(r == moved(g, x, y, x + 1, y + 1));
        }
    }
}

/// Every grain's stationary counter is below its maximum.
pub open spec fn grains_fit(g: GridView) -> bool {
    forall|p: (int, int)|
        #![trigger g.meta[p]]
        g.meta.dom().contains(p) && g.cells[p] == Cell::Sand ==> g.meta[p].stationary_frames < u32::MAX
}

/// A gravity update keeps every grain's counter below its maximum, since a
/// moving grain takes its own metadata along.
proof fn lemma_update_cell_grains_fit(g: GridView, x: int, y: int)
    requires
        g.wf(),
        grains_fit(g),
    ensures
        grains_fit(update_cell(g, x, y)),
{
    let r = update_cell(g, x, y);
    assert forall|p: (int, int)| #![trigger r.meta[p]] r.meta.dom().contains(p) && r.cells[p] == Cell::Sand
        implies r.meta[p].stationary_frames < u32::MAX by {
        if r != g {
            assert(g.meta.dom().contains((y, x)));
            if r.meta[p] != g.meta[p] {
                assert(r.meta[p] == g.meta[(y, x)]);
            } else {
                assert(g.meta.dom().contains(p));
            }
        }
    }
}

/// Sweeping part of a row keeps every grain's counter below its maximum.
proof fn lemma_sweep_row_grains_fit(g: GridView, y: int, k: nat)
    requires
        g.wf(),
        grains_fit(g),
        0 <= y,
        y + 1 < g.height,
        k <= g.width,
    ensures
        grains_fit(sweep_row(g, y, k)),
    decreases k,
{
    if k > 0 {
        lemma_sweep_row_grains_fit(g, y, (k - 1) as nat);
        lemma_sweep_row_shape(g, y, (k - 1) as nat);
        lemma_update_cell_grains_fit(sweep_row(g, y, (k - 1) as nat), sweep_column(g.width as int, y, k - 1), y);
    }
}

/// The gravity sweep keeps every grain's counter below its maximum, so the
/// counters it raises afterwards all have room.
proof fn lemma_fall_grains_fit(g: GridView, n: nat)
    requires
        g.wf(),
        grains_fit(g),
        n + 1 <= g.height,
    ensures
        grains_fit(sweep_rows(g, n)),
        counters_fit(sweep_rows(g, n)),
    decreases n,
{
    if n > 0 {
        lemma_fall_grains_fit(g, (n - 1) as nat);
        lemma_sweep_rows_shape(g, (n - 1) as nat);
        lemma_sweep_row_grains_fit(sweep_rows(g, (n - 1) as nat), g.height - 2 - (n - 1), g.width as nat);
    }
    let r = sweep_rows(g, n);
    assert forall|p: (int, int)|
        #![trigger r.meta[p]]
        r.meta.dom().contains(p) && r.cells[p] == Cell::Sand && r.meta[p].last_x == p.1 && r.meta[p].last_y == p.0
            implies r.meta[p].stationary_frames < u32::MAX by {
    }
}

/// A grain with a free cell among the three below it always falls, in every
/// row above the bottom one: straight down when that cell is free; else
/// diagonally, to the side its position's parity tries first when both
/// diagonals are free, and to the free side when only one is. Its old cell
/// empties, the target fills with sand and takes the grain's metadata, and
/// the other cells below stay. Only when all three are taken does it stay.
pub proof fn update_cell_falls_when_free(g: GridView, x: int, y: int)
    requires
        g.wf(),
        g.contains(x, y),
        g.contains(x, y + 1),
        g.cell(x, y) == Cell::Sand,
    ensures
        g.cell(x, y + 1) == Cell::Empty ==> {
            &&& update_cell(g, x, y).cell(x, y) == Cell::Empty
            &&& update_cell(g, x, y).cell(x, y + 1) == Cell::Sand
            &&& update_cell(g, x, y).metadata(x, y + 1) == g.metadata(x, y)
            &&& update_cell(g, x, y).cell(x - 1, y + 1) == g.cell(x - 1, y + 1)
            &&& update_cell(g, x, y).cell(x + 1, y + 1) == g.cell(x + 1, y + 1)
        },
        g.cell(x, y + 1) == Cell::Sand && x > 0 && g.cell(x - 1, y + 1) == Cell::Empty
            && (x + 1 >= g.width || g.cell(x + 1, y + 1) == Cell::Sand || (x + y) % 2 == 0) ==> {
            &&& update_cell(g, x, y).cell(x, y) == Cell::Empty
            &&& update_cell(g, x, y).cell(x - 1, y + 1) == Cell::Sand
            &&& update_cell(g, x, y).metadata(x - 1, y + 1) == g.metadata(x, y)
            &&& update_cell(g, x, y).cell(x, y + 1) == Cell::Sand
            &&& update_cell(g, x, y).cell(x + 1, y + 1) == g.cell(x + 1, y + 1)
        },
        g.cell(x, y + 1) == Cell::Sand && x + 1 < g.width && g.cell(x + 1, y + 1) == Cell::Empty
            && (x == 0 || g.cell(x - 1, y + 1) == Cell::Sand || (x + y) % 2 == 1) ==> {
            &&& update_cell(g, x, y).cell(x, y) == Cell::Empty
            &&& update_cell(g, x, y).cell(x + 1, y + 1) == Cell::Sand
            &&& update_cell(g, x, y).metadata(x + 1, y + 1) == g.metadata(x, y)
            &&& update_cell(g, x, y).cell(x, y + 1) == Cell::Sand
            &&& update_cell(g, x, y).cell(x - 1, y + 1) == g.cell(x - 1, y + 1)
        },
        g.cell(x, y + 1) == Cell::Sand && (x == 0 || g.cell(x - 1, y + 1) == Cell::Sand)
            && (x + 1 >= g.width || g.cell(x + 1, y + 1) == Cell::Sand) ==> update_cell(g, x, y) == g,
{
    assert(g.cells.dom().contains((y + 1, x)));
    if x > 0 {
        assert(g.cells.dom().contains((y + 1, x - 1)));
    }
    if x + 1 < g.width {
        assert(g.cells.dom().contains((y + 1, x + 1)));
    }
    if g.cell(x, y + 1) == Cell::Sand {
        assert(!empty_at(g, x, y + 1));
    }
}

/// Whether `step` can run depends on one bound only: the grid has a row, the
/// frame counter is below `u64::MAX`, and no grain that the gravity sweep
/// leaves where it was last seen has its stationary counter at `u32::MAX`.
/// Any smaller counter is raised by one.
pub proof fn step_ok_bound_is_the_counter_type(s: Simulation)
    ensures
        s.step_ok() <==> {
            &&& s.board()@.height > 0
            &&& s.frame() < u64::MAX
            &&& forall|p: (int, int)|
                #![trigger fall(s.board()@).meta[p]]
                fall(s.board()@).meta.dom().contains(p) && fall(s.board()@).cells[p] == Cell::Sand
                    && fall(s.board()@).meta[p].last_x == p.1 && fall(s.board()@).meta[p].last_y == p.0
                    ==> fall(s.board()@).meta[p].stationary_frames != u32::MAX
        },
{
}

/// After the sweep, a grain still where it was last seen counts one more
/// frame at rest; a grain found elsewhere restarts its count at zero and
/// records its new place. Its creation frame never changes, and empty cells
/// keep their metadata.
pub proof fn ticked_counts_rest(g: GridView, x: int, y: int)
    requires
        g.wf(),
        counters_fit(g),
        g.contains(x, y),
    ensures
        ticked(g).metadata(x, y).creation_frame == g.metadata(x, y).creation_frame,
        g.cell(x, y) != Cell::Sand ==> ticked(g).metadata(x, y) == g.metadata(x, y),
        g.cell(x, y) == Cell::Sand && g.metadata(x, y).last_x == x && g.metadata(x, y).last_y == y ==> {
            &&& ticked(g).metadata(x, y).stationary_frames == g.metadata(x, y).stationary_frames + 1
            &&& ticked(g).metadata(x, y).last_x == x
            &&& ticked(g).metadata(x, y).last_y == y
        },
        g.cell(x, y) == Cell::Sand && !(g.metadata(x, y).last_x == x && g.metadata(x, y).last_y == y) ==> {
            &&& ticked(g).metadata(x, y).stationary_frames == 0
            &&& ticked(g).metadata(x, y).last_x == x
            &&& ticked(g).metadata(x, y).last_y == y
        },
{
    assert(g.meta.dom().contains((y, x)));
}

/// Every grain has room in its counter exactly when none is at `u32::MAX`.
pub proof fn grains_fit_bound_is_the_counter_type(g: GridView)
    ensures
        grains_fit(g) <==> forall|p: (int, int)|
            #![trigger g.meta[p]]
            g.meta.dom().contains(p) && g.cells[p] == Cell::Sand ==> g.meta[p].stationary_frames != u32::MAX,
{
}

/// A gravity update touches only the grain's own cell and the three cells
/// below it: every other cell and every other metadata entry stays, and the
/// metadata left in the grain's old cell is kept as it was.
pub proof fn update_cell_is_local(g: GridView, x: int, y: int, qx: int, qy: int)
    requires
        g.wf(),
        g.contains(qx, qy),
        !(qx == x && qy == y),
        !(qy == y + 1 && x - 1 <= qx <= x + 1),
    ensures
        update_cell(g, x, y).cell(qx, qy) == g.cell(qx, qy),
        update_cell(g, x, y).metadata(qx, qy) == g.metadata(qx, qy),
        update_cell(g, x, y).metadata(x, y) == g.metadata(x, y),
        update_cell(g, x, y).width == g.width,
        update_cell(g, x, y).height == g.height,
{
}

/// The sweep of a row updates its positions one at a time: on even rows
/// from the leftmost column rightwards, on odd rows from the rightmost
/// column leftwards.
pub proof fn sweep_row_visits_in_order(g: GridView, y: int, k: nat)
    requires
        k < g.width,
    ensures
        y % 2 == 0 ==> sweep_row(g, y, k + 1) == update_cell(sweep_row(g, y, k), k as int, y),
        y % 2 != 0 ==> sweep_row(g, y, k + 1) == update_cell(sweep_row(g, y, k), g.width - 1 - k, y),
{
}

/// The gravity sweep takes the rows from the one just above the bottom row
/// upwards, each row in full before the next.
pub proof fn fall_sweeps_rows_bottom_up(g: GridView, n: nat)
    requires
        n + 1 < g.height,
    ensures
        sweep_rows(g, n + 1) == sweep_row(sweep_rows(g, n), g.height - 2 - n, g.width as nat),
        sweep_rows(g, 0) == g,
{
}

/// Every creation frame recorded in `a` is one recorded somewhere in `b`.
pub open spec fn creation_frames_within(a: GridView, b: GridView) -> bool {
    forall|p: (int, int)| #[trigger] a.meta.dom().contains(p) ==> exists|q: (int, int)|
        #[trigger] b.meta.dom().contains(q) && a.meta[p].creation_frame == b.meta[q].creation_frame
}

/// `creation_frames_within` is transitive.
proof fn lemma_creation_frames_trans(a: GridView, b: GridView, c: GridView)
    requires
        creation_frames_within(a, b),
        creation_frames_within(b, c),
    ensures
        creation_frames_within(a, c),
{
    assert forall|p: (int, int)| #[trigger] a.meta.dom().contains(p) implies exists|q: (int, int)|
        #[trigger] c.meta.dom().contains(q) && a.meta[p].creation_frame == c.meta[q].creation_frame by {
        let r = choose|r: (int, int)| #[trigger] b.meta.dom().contains(r) && a.meta[p].creation_frame == b.meta[r].creation_frame;
        let q = choose|q: (int, int)| #[trigger] c.meta.dom().contains(q) && b.meta[r].creation_frame == c.meta[q].creation_frame;
        assert(c.meta.dom().contains(q));
    }
}

/// A gravity update only copies metadata around.
proof fn lemma_update_cell_creation(g: GridView, x: int, y: int)
    requires
        g.wf(),
        g.contains(x, y),
        g.contains(x, y + 1),
    ensures
        creation_frames_within(update_cell(g, x, y), g),
{
    let r = update_cell(g, x, y);
    assert forall|p: (int, int)| #[trigger] r.meta.dom().contains(p) implies exists|q: (int, int)|
        #[trigger] g.meta.dom().contains(q) && r.meta[p].creation_frame == g.meta[q].creation_frame by {
        lemma_update_cell_shape(g, x, y);
        if r.meta[p] == g.meta[p] {
            assert(g.meta.dom().contains(p));
        } else {
            assert(g.meta.dom().contains((y, x)));
            assert(r.meta[p] == g.meta[(y, x)]);
        }
    }
}

/// Sweeping part of a row only copies metadata around.
proof fn lemma_sweep_row_creation(g: GridView, y: int, k: nat)
    requires
        g.wf(),
        0 <= y,
        y + 1 < g.height,
        k <= g.width,
    ensures
        creation_frames_within(sweep_row(g, y, k), g),
    decreases k,
{
    if k == 0 {
        assert forall|p: (int, int)| #[trigger] g.meta.dom().contains(p) implies exists|q: (int, int)|
            #[trigger] g.meta.dom().contains(q) && g.meta[p].creation_frame == g.meta[q].creation_frame by {
            assert(g.meta.dom().contains(p));
        }
    } else {
        let prev = sweep_row(g, y, (k - 1) as nat);
        lemma_sweep_row_creation(g, y, (k - 1) as nat);
        lemma_sweep_row_shape(g, y, (k - 1) as nat);
        lemma_update_cell_creation(prev, sweep_column(g.width as int, y, k - 1), y);
        lemma_creation_frames_trans(sweep_row(g, y, k), prev, g);
    }
}

/// Sweeping rows only copies metadata around.
proof fn lemma_sweep_rows_creation(g: GridView, n: nat)
    requires
        g.wf(),
        n + 1 <= g.height,
    ensures
        creation_frames_within(sweep_rows(g, n), g),
    decreases n,
{
    if n == 0 {
        assert forall|p: (int, int)| #[trigger] g.meta.dom().contains(p) implies exists|q: (int, int)|
            #[trigger] g.meta.dom().contains(q) && g.meta[p].creation_frame == g.meta[q].creation_frame by {
            assert(g.meta.dom().contains(p));
        }
    } else {
        let prev = sweep_rows(g, (n - 1) as nat);
        lemma_sweep_rows_creation(g, (n - 1) as nat);
        lemma_sweep_rows_shape(g, (n - 1) as nat);
        lemma_sweep_row_creation(prev, g.height - 2 - (n - 1), g.width as nat);
        lemma_creation_frames_trans(sweep_rows(g, n), prev, g);
    }
}

/// A step never invents a creation frame: each creation frame recorded after
/// it was recorded somewhere before it. Metadata only travels with the grains,
/// so colouring by creation time never shows a frame at which no particle
/// was created.
pub proof fn step_keeps_creation_frames(g: GridView)
    requires
        g.wf(),
        g.height > 0,
    ensures
        creation_frames_within(stepped(g), g),
{
    let f = fall(g);
    lemma_sweep_rows_creation(g, (g.height - 1) as nat);
    let t = ticked(f);
    assert forall|p: (int, int)| #[trigger] t.meta.dom().contains(p) implies exists|q: (int, int)|
        #[trigger] f.meta.dom().contains(q) && t.meta[p].creation_frame == f.meta[q].creation_frame by {
        assert(f.meta.dom().contains(p));
    }
    lemma_creation_frames_trans(t, f, g);
}

pub struct Simulation {
    grid: Grid,
    current_frame: u64,
}

impl Simulation {
    /// The grid of the simulation.
    pub closed spec fn board(&self) -> Grid {
        self.grid
    }

    /// The number of steps taken so far.
    pub closed spec fn frame(&self) -> u64 {
        self.current_frame
    }

    /// The grid's arrays have its shape.
    pub open spec fn wf(&self) -> bool {
        self.board().wf()
    }

    /// `step` can run without an arithmetic overflow: the grid has a row,
    /// the frame counter has room, and no counter it raises is at its maximum.
    pub open spec fn step_ok(&self) -> bool {
        &&& self.board()@.height > 0
        &&& self.frame() < u64::MAX
        &&& counters_fit(fall(self.board()@))
    }

    pub fn new(width: usize, height: usize) -> (s: Self)
        requires
            width <= isize::MAX,
            height <= isize::MAX,
            width * height * 32 <= isize::MAX,
        ensures
            s.wf(),
            s.frame() == 0,
            s.board()@.width == width,
            s.board()@.height == height,
            forall|x: int, y: int| s.board()@.contains(x, y) ==> #[trigger] s.board()@.cell(x, y) == Cell::Empty,
            forall|x: int, y: int| s.board()@.contains(x, y) ==> #[trigger] s.board()@.metadata(x, y) == ParticleMetadata::zeroed(),
    {
        Simulation { grid: Grid::new(width, height), current_frame: 0 }
    }

    /// Get a reference to the grid.
    pub fn grid(&self) -> (g: &Grid)
        ensures
            *g == self.board(),
    {
        &self.grid
    }

    /// Get a mutable reference to the grid.
    pub fn grid_mut(&mut self) -> (g: &mut Grid)
        ensures
            *g == old(self).board(),
            final(self).board() == *final(g),
            final(self).frame() == old(self).frame(),
    {
        &mut self.grid
    }

    /// Get current frame number.
    pub fn current_frame(&self) -> (f: u64)
        ensures
            f == self.frame(),
    {
        self.current_frame
    }


    /// Update the simulation by one step.
    ///
    /// This implements falling sand physics:
    /// - Sand falls straight down if space below is empty
    /// - Sand falls diagonally (left or right) if straight down is blocked
    /// - Sand stays in place if no moves are possible
    pub fn step(&mut self)
        requires
            old(self).wf(),
            old(self).step_ok(),
        ensures
            final(self).wf(),
            final(self).frame() == old(self).frame() + 1,
            final(self).board()@ == stepped(old(self).board()@),
    {
        self.current_frame = self.current_frame + 1;
        self.fall_pass();
        self.update_counters();
    }

    /// Whether `step` may be called now: exactly when `step_ok` holds. It runs
    /// the gravity sweep on a copy of the grid to see which counters the step
    /// would raise.
    pub fn can_step(&self) -> (b: bool)
        requires
            self.wf(),
        ensures
            b == self.step_ok(),
    {
        if self.grid.height() == 0 || self.current_frame == u64::MAX {
            return false;
        }
        let mut probe = Simulation { grid: self.grid.clone(), current_frame: self.current_frame };
        probe.fall_pass();
        probe.counters_have_room()
    }

    /// Steps the simulation when `step` can run without an overflow, and
    /// reports whether it did; otherwise nothing changes. The test is cheap
    /// while every grain's counter is below its maximum, and falls back to
    /// `can_step` only when one is not.
    pub fn try_step(&mut self) -> (stepped_now: bool)
        requires
            old(self).wf(),
        ensures
            final(self).wf(),
            stepped_now == old(self).step_ok(),
            stepped_now ==> final(self).frame() == old(self).frame() + 1
                && final(self).board()@ == stepped(old(self).board()@),
            !stepped_now ==> final(self).frame() == old(self).frame() && final(self).board() == old(self).board(),
    {
        if self.grid.height() == 0 || self.current_frame == u64::MAX {
            return false;
        }
        if self.grains_have_room() {
            proof {
                lemma_fall_grains_fit(self.grid@, (self.grid@.height - 1) as nat);
            }
        } else if !self.can_step() {
            return false;
        }
        self.step();
        true
    }

    /// Whether every grain's stationary counter is below its maximum.
    fn grains_have_room(&self) -> (b: bool)
        requires
            self.wf(),
        ensures
            b == grains_fit(self.board()@),
    {
        let width = self.grid.width();
        let height = self.grid.height();
        let ghost g = self.grid@;
        let mut y: usize = 0;
        while y < height
            invariant
                g == self.grid@,
                g.wf(),
                width == g.width,
                height == g.height,
                y <= height,
                forall|p: (int, int)|
                    #![trigger g.meta[p]]
                    g.meta.dom().contains(p) && p.0 < y && g.cells[p] == Cell::Sand ==> g.meta[p].stationary_frames < u32::MAX,
            decreases height - y,
        {
            let mut x: usize = 0;
            while x < width
                invariant
                    g == self.grid@,
                    g.wf(),
                    width == g.width,
                    height == g.height,
                    y < height,
                    x <= width,
                    forall|p: (int, int)|
                        #![trigger g.meta[p]]
                        g.meta.dom().contains(p) && (p.0 < y || (p.0 == y && p.1 < x)) && g.cells[p] == Cell::Sand
                            ==> g.meta[p].stationary_frames < u32::MAX,
                decreases width - x,
            {
                if self.grid.get(x, y) == Some(Cell::Sand) {
                    proof {
                        assert(g.meta.dom().contains((y as int, x as int)));
                    }
                    let m = self.grid.metadata_of(x, y);
                    if m.stationary_frames == u32::MAX {
                        assert(g.meta[(y as int, x as int)].stationary_frames == u32::MAX);
                        return false;
                    }
                }
                x = x + 1;
            }
            y = y + 1;
        }
        true
    }

    /// Whether every grain that stayed where it was last seen can have its
    /// stationary counter raised.
    fn counters_have_room(&self) -> (b: bool)
        requires
            self.wf(),
        ensures
            b == counters_fit(self.board()@),
    {
        let width = self.grid.width();
        let height = self.grid.height();
        let ghost g = self.grid@;
        let mut y: usize = 0;
        while y < height
            invariant
                g == self.grid@,
                g.wf(),
                width == g.width,
                height == g.height,
                y <= height,
                forall|p: (int, int)|
                    #![trigger g.meta[p]]
                    g.meta.dom().contains(p) && p.0 < y && g.cells[p] == Cell::Sand && g.meta[p].last_x == p.1
                        && g.meta[p].last_y == p.0 ==> g.meta[p].stationary_frames < u32::MAX,
            decreases height - y,
        {
            let mut x: usize = 0;
            while x < width
                invariant
                    g == self.grid@,
                    g.wf(),
                    width == g.width,
                    height == g.height,
                    y < height,
                    x <= width,
                    forall|p: (int, int)|
                        #![trigger g.meta[p]]
                        g.meta.dom().contains(p) && (p.0 < y || (p.0 == y && p.1 < x)) && g.cells[p] == Cell::Sand
                            && g.meta[p].last_x == p.1 && g.meta[p].last_y == p.0 ==> g.meta[p].stationary_frames < u32::MAX,
                decreases width - x,
            {
                if self.grid.get(x, y) == Some(Cell::Sand) {
                    proof {
                        assert(g.meta.dom().contains((y as int, x as int)));
                    }
                    let m = self.grid.metadata_of(x, y);
                    if m.last_x == x && m.last_y == y && m.stationary_frames == u32::MAX {
                        assert(g.meta[(y as int, x as int)].stationary_frames == u32::MAX);
                        return false;
                    }
                }
                x = x + 1;
            }
            y = y + 1;
        }
        true
    }

    /// Sweeps the rows above the bottom one, from the lowest up; even rows
    /// left to right, odd rows right to left.
    fn fall_pass(&mut self)
        requires
            old(self).wf(),
            old(self).board()@.height > 0,
        ensures
            final(self).wf(),
            final(self).frame() == old(self).frame(),
            final(self).board()@ == fall(old(self).board()@),
    {
        let width = self.grid.width();
        let height = self.grid.height();
        let ghost g0 = self.grid@;
        let ghost frame0 = self.current_frame;
        let mut n: usize = 0;
        while n < height - 1
            invariant
                g0.wf(),
                width == g0.width,
                height == g0.height,
                height > 0,
                n <= height - 1,
                self.wf(),
                self.current_frame == frame0,
                self.grid@ == sweep_rows(g0, n as nat),
            decreases height - 1 - n,
        {
            let y = height - 2 - n;
            let ghost start = self.grid@;
            proof {
                lemma_sweep_rows_shape(g0, n as nat);
            }
            let mut k: usize = 0;
            while k < width
                invariant
                    g0.wf(),
                    width == g0.width,
                    height == g0.height,
                    n < height - 1,
                    y == height - 2 - n,
                    k <= width,
                    start == sweep_rows(g0, n as nat),
                    start.wf(),
                    start.width == width,
                    start.height == height,
                    self.wf(),
                    self.current_frame == frame0,
                    self.grid@ == sweep_row(start, y as int, k as nat),
                decreases width - k,
            {
                proof {
                    lemma_sweep_row_shape(start, y as int, k as nat);
                }
                let x = if y % 2 == 0 { k } else { width - 1 - k };
                self.update_cell(x, y);
                k = k + 1;
            }
            n = n + 1;
        }
    }

    /// Raises the stationary counter of each grain that stayed where it was
    /// last seen, and resets it, recording the new position, for each grain
    /// that moved.
    fn update_counters(&mut self)
        requires
            old(self).wf(),
            counters_fit(old(self).board()@),
        ensures
            final(self).wf(),
            final(self).frame() == old(self).frame(),
            final(self).board()@ == ticked(old(self).board()@),
    {
        let width = self.grid.width();
        let height = self.grid.height();
        let ghost g0 = self.grid@;
        let ghost frame0 = self.current_frame;
        let mut y: usize = 0;
        while y < height
            invariant
                g0.wf(),
                counters_fit(g0),
                width == g0.width,
                height == g0.height,
                y <= height,
                self.wf(),
                self.current_frame == frame0,
                self.grid@.width == width,
                self.grid@.height == height,
                self.grid@.cells == g0.cells,
                forall|p: (int, int)| #[trigger] self.grid@.meta.dom().contains(p) ==> self.grid@.meta[p] == (
                    if p.0 < y && g0.cells[p] == Cell::Sand { tick(g0.meta[p], p.1, p.0) } else { g0.meta[p] }),
            decreases height - y,
        {
            let mut x: usize = 0;
            while x < width
                invariant
                    g0.wf(),
                    counters_fit(g0),
                    width == g0.width,
                    height == g0.height,
                    y < height,
                    x <= width,
                    self.wf(),
                    self.current_frame == frame0,
                    self.grid@.width == width,
                    self.grid@.height == height,
                    self.grid@.cells == g0.cells,
                    forall|p: (int, int)| #[trigger] self.grid@.meta.dom().contains(p) ==> self.grid@.meta[p] == (
                        if (p.0 < y || (p.0 == y && p.1 < x)) && g0.cells[p] == Cell::Sand {
                            tick(g0.meta[p], p.1, p.0)
                        } else {
                            g0.meta[p]
                        }),
                decreases width - x,
            {
                if self.grid.get(x, y) == Some(Cell::Sand) {
                    proof {
                        assert(g0.meta.dom().contains((y as int, x as int)));
                        assert(self.grid@.meta.dom().contains((y as int, x as int)));
                    }
                    let mut metadata = self.grid.metadata_of(x, y);
                    if metadata.last_x == x && metadata.last_y == y {
                        metadata.stationary_frames = metadata.stationary_frames + 1;
                    } else {
                        metadata.stationary_frames = 0;
                        metadata.last_x = x;
                        metadata.last_y = y;
                    }
                    self.grid.set_metadata(x, y, metadata);
                }
                x = x + 1;
            }
            y = y + 1;
        }
        assert(self.grid@ =~= ticked(g0));
    }

    /// Update a single cell's position based on physics rules. A position
    /// outside the grid, or on its bottom row, is left alone.
    fn update_cell(&mut self, x: usize, y: usize)
        requires
            old(self).wf(),
        ensures
            final(self).wf(),
            final(self).frame() == old(self).frame(),
            final(self).board()@ == update_cell(old(self).board()@, x as int, y as int),
    {
        if self.grid.get(x, y) != Some(Cell::Sand) {
            return;
        }
        let width = self.grid.width();
        let below_y = y + 1;
        if self.grid.get(x, below_y) == Some(Cell::Empty) {
            self.move_particle(x, y, x, below_y);
            return;
        }
        assert(x + y < usize::MAX) by (nonlinear_arith)
            requires
                x < self.grid@.width,
                y < self.grid@.height,
                self.grid@.width * self.grid@.height * 32 <= isize::MAX;
        let try_left_first = (x + y) % 2 == 0;
        if try_left_first {
            if x > 0 && self.grid.get(x - 1, below_y) == Some(Cell::Empty) {
                self.move_particle(x, y, x - 1, below_y);
                return;
            }
            if x < width - 1 && self.grid.get(x + 1, below_y) == Some(Cell::Empty) {
                self.move_particle(x, y, x + 1, below_y);
                return;
            }
        } else {
            if x < width - 1 && self.grid.get(x + 1, below_y) == Some(Cell::Empty) {
                self.move_particle(x, y, x + 1, below_y);
                return;
            }
            if x > 0 && self.grid.get(x - 1, below_y) == Some(Cell::Empty) {
                self.move_particle(x, y, x - 1, below_y);
                return;
            }
        }
    }

    /// Moves the grain at `(x, y)` to `(nx, ny)` with its metadata.
    fn move_particle(&mut self, x: usize, y: usize, nx: usize, ny: usize)
        requires
            old(self).wf(),
            old(self).board()@.contains(x as int, y as int),
            old(self).board()@.contains(nx as int, ny as int),
        ensures
            final(self).wf(),
            final(self).frame() == old(self).frame(),
            final(self).board()@ == moved(old(self).board()@, x as int, y as int, nx as int, ny as int),
    {
        self.grid.set(x, y, Cell::Empty);
        self.grid.set(nx, ny, Cell::Sand);
        let m = self.grid.metadata_of(x, y);
        self.grid.set_metadata(nx, ny, m);
    }
}

} // verus!
