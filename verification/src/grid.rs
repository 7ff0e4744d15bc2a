//! The grid of cells that the sand falls through, with a parallel grid of
//! per-particle metadata used for colouring.
//!
//! Positions are `(x, y)` with `x` the column and `y` the row, row 0 at the
//! top. The arrays behind the grid are indexed `[row, column]`, so the entry
//! of `(x, y)` sits at key `(y, x)` of their maps.

use vstd::prelude::*;
use crate::arrays::{CellArray, MetadataArray, cell_entries, metadata_entries, index_rect};
use crate::colors::ParticleMetadata;

verus! {


/// Represents different cell types in the simulation.
#[derive(Clone, Copy, PartialEq, Eq, Debug, Structural)]
pub enum Cell {
    Empty,
    Sand,
}

/// The abstract state of a grid: its shape and what each position holds.
#[verifier::ext_equal]
pub struct GridView {
    pub width: usize,
    pub height: usize,
    /// Cell of each position, keyed `(y, x)`.
    pub cells: Map<(int, int), Cell>,
    /// Metadata of each position, keyed `(y, x)`.
    pub meta: Map<(int, int), ParticleMetadata>,
}

impl GridView {
    /// Both maps cover exactly the positions of the grid, whose size stays
    /// within what the arrays could be allocated for.
    pub open spec fn wf(self) -> bool {
        &&& self.width <= isize::MAX
        &&& self.height <= isize::MAX
        &&& self.width * self.height * 32 <= isize::MAX
        &&& self.cells.dom() == index_rect(self.height as int, self.width as int)
        &&& self.meta.dom() == index_rect(self.height as int, self.width as int)
    }

    /// `(x, y)` is a position of the grid.
    pub open spec fn contains(self, x: int, y: int) -> bool {
        0 <= x < self.width && 0 <= y < self.height
    }

    /// The cell at `(x, y)`.
    pub open spec fn cell(self, x: int, y: int) -> Cell {
        self.cells[(y, x)]
    }

    /// The metadata at `(x, y)`.
    pub open spec fn metadata(self, x: int, y: int) -> ParticleMetadata {
        self.meta[(y, x)]
    }

    /// What `Grid::in_bounds` answers: `(x, y)` lies in `0 .. width` by
    /// `0 .. height`, with both extents converted to `i32` as the code does.
    pub open spec fn in_bounds(self, x: int, y: int) -> bool {
        0 <= x && x < (self.width as i32) && 0 <= y && y < (self.height as i32)
    }

    /// `(x, y)` lies in the disk of radius `radius` around `(cx, cy)`.
    pub open spec fn in_disk(cx: int, cy: int, radius: int, x: int, y: int) -> bool {
        radius >= 0 && (x - cx) * (x - cx) + (y - cy) * (y - cy) <= radius * radius
    }

    /// The brush of radius `radius` at `(cx, cy)` reaches position `(x, y)`.
    pub open spec fn brush_covers(self, cx: int, cy: int, radius: int, x: int, y: int) -> bool {
        Self::in_disk(cx, cy, radius, x, y) && self.in_bounds(x, y)
    }

    /// The grid after a brush stroke of radius `radius` at `(cx, cy)` that
    /// writes `c` into every position it reaches. Where it turns an empty cell
    /// into sand, the new particle gets fresh metadata stamped with `frame`;
    /// all other metadata stays.
    pub open spec fn brushed(self, cx: int, cy: int, radius: int, c: Cell, frame: u64) -> GridView {
        GridView {
            cells: Map::new(
                |p: (int, int)| self.cells.dom().contains(p),
                |p: (int, int)| if self.brush_covers(cx, cy, radius, p.1, p.0) { c } else { self.cells[p] },
            ),
            meta: Map::new(
                |p: (int, int)| self.meta.dom().contains(p),
                |p: (int, int)|
                    if c == Cell::Sand && self.brush_covers(cx, cy, radius, p.1, p.0) && self.cells[p] == Cell::Empty {
                        ParticleMetadata::created(frame, p.1 as usize, p.0 as usize)
                    } else {
                        self.meta[p]
                    },
            ),
            ..self
        }
    }

    /// The number of sand cells in the grid.
    pub open spec fn sand_count(self) -> nat {
        count_rows(self.cells, self.width as nat, self.height as nat)
    }

    /// The same grid with the cell at `(x, y)` replaced.
    pub open spec fn with_cell(self, x: int, y: int, c: Cell) -> GridView {
        GridView { cells: self.cells.insert((y, x), c), ..self }
    }

    /// The same grid with the metadata at `(x, y)` replaced.
    pub open spec fn with_metadata(self, x: int, y: int, m: ParticleMetadata) -> GridView {
        GridView { meta: self.meta.insert((y, x), m), ..self }
    }
}

/// 1 for sand, 0 for an empty cell.
pub open spec fn sand_unit(c: Cell) -> nat {
    if c == Cell::Sand { 1 } else { 0 }
}

/// The number of sand cells among the first `n` cells of row `y`.
pub open spec fn count_row(cells: Map<(int, int), Cell>, y: int, n: nat) -> nat
    decreases n,
{
    if n == 0 {
        0
    } else {
        count_row(cells, y, (n - 1) as nat) + sand_unit(cells[(y, n - 1)])
    }
}

/// The number of sand cells in the first `n` rows, each `width` cells wide.
pub open spec fn count_rows(cells: Map<(int, int), Cell>, width: nat, n: nat) -> nat
    decreases n,
{
    if n == 0 {
        0
    } else {
        count_rows(cells, width, (n - 1) as nat) + count_row(cells, n - 1, width)
    }
}

/// Replacing one cell of a row changes the row's count by the difference of
/// the two cells; replacing a cell elsewhere does not change it.
pub proof fn lemma_count_row_insert(cells: Map<(int, int), Cell>, y: int, n: nat, key: (int, int), c: Cell)
    ensures
        key.0 == y && 0 <= key.1 < n ==> count_row(cells.insert(key, c), y, n) + sand_unit(cells[key])
            == count_row(cells, y, n) + sand_unit(c),
        !(key.0 == y && 0 <= key.1 < n) ==> count_row(cells.insert(key, c), y, n) == count_row(cells, y, n),
    decreases n,
{
    if n > 0 {
        lemma_count_row_insert(cells, y, (n - 1) as nat, key, c);
    }
}

/// Replacing one cell of the first `n` rows changes their count by the
/// difference of the two cells; replacing a cell elsewhere does not change it.
pub proof fn lemma_count_rows_insert(cells: Map<(int, int), Cell>, width: nat, n: nat, key: (int, int), c: Cell)
    ensures
        0 <= key.0 < n && 0 <= key.1 < width ==> count_rows(cells.insert(key, c), width, n) + sand_unit(cells[key])
            == count_rows(cells, width, n) + sand_unit(c),
        !(0 <= key.0 < n && 0 <= key.1 < width) ==> count_rows(cells.insert(key, c), width, n) == count_rows(cells, width, n),
    decreases n,
{
    if n > 0 {
        lemma_count_rows_insert(cells, width, (n - 1) as nat, key, c);
        lemma_count_row_insert(cells, n - 1, width, key, c);
    }
}

/// A row's count is zero exactly when its counted cells are all empty.
proof fn lemma_count_row_zero(cells: Map<(int, int), Cell>, y: int, n: nat)
    ensures
        count_row(cells, y, n) == 0 <==> forall|x: int| 0 <= x < n ==> #[trigger] cells[(y, x)] == Cell::Empty,
    decreases n,
{
    if n > 0 {
        lemma_count_row_zero(cells, y, (n - 1) as nat);
        if count_row(cells, y, n) == 0 {
            assert forall|x: int| 0 <= x < n implies #[trigger] cells[(y, x)] == Cell::Empty by {
                if x < n - 1 {
                } else {
                    assert(sand_unit(cells[(y, n - 1)]) == 0);
                }
            }
        }
    }
}

/// The count of rows is zero exactly when their cells are all empty.
proof fn lemma_count_rows_zero(cells: Map<(int, int), Cell>, width: nat, n: nat)
    ensures
        count_rows(cells, width, n) == 0 <==> forall|x: int, y: int| 0 <= x < width && 0 <= y < n ==> #[trigger] cells[(y, x)] == Cell::Empty,
    decreases n,
{
    if n > 0 {
        lemma_count_rows_zero(cells, width, (n - 1) as nat);
        lemma_count_row_zero(cells, n - 1, width);
        if count_rows(cells, width, n) == 0 {
            assert forall|x: int, y: int| 0 <= x < width && 0 <= y < n implies #[trigger] cells[(y, x)] == Cell::Empty by {
                if y < n - 1 {
                } else {
                    assert(cells[(n - 1, x)] == Cell::Empty);
                }
            }
        } else {
            if forall|x: int, y: int| 0 <= x < width && 0 <= y < n ==> #[trigger] cells[(y, x)] == Cell::Empty {
                assert forall|x: int| 0 <= x < width implies #[trigger] cells[(n - 1, x)] == Cell::Empty by {
                    assert(cells[(n - 1, x)] == Cell::Empty);
                }
            }
        }
    }
}

/// A grid holds no sand exactly when each of its cells is empty.
pub proof fn lemma_no_sand_count(g: GridView)
    ensures
        g.sand_count() == 0 <==> forall|x: int, y: int| g.contains(x, y) ==> #[trigger] g.cell(x, y) == Cell::Empty,
{
    lemma_count_rows_zero(g.cells, g.width as nat, g.height as nat);
    if forall|x: int, y: int| g.contains(x, y) ==> #[trigger] g.cell(x, y) == Cell::Empty {
        assert forall|x: int, y: int| 0 <= x < g.width && 0 <= y < g.height implies #[trigger] g.cells[(y, x)] == Cell::Empty by {
            assert(g.cell(x, y) == Cell::Empty);
        }
    }
    if g.sand_count() == 0 {
        assert forall|x: int, y: int| g.contains(x, y) implies #[trigger] g.cell(x, y) == Cell::Empty by {
            assert(g.cells[(y, x)] == Cell::Empty);
        }
    }
}

/// If every grain of `a` is a grain of `b`, then `b` counts at least as
/// many grains in its first `n` cells of row `y`.
proof fn lemma_count_row_mono(a: Map<(int, int), Cell>, b: Map<(int, int), Cell>, y: int, n: nat)
    requires
        forall|x: int| 0 <= x < n && #[trigger] a[(y, x)] == Cell::Sand ==> b[(y, x)] == Cell::Sand,
    ensures
        count_row(a, y, n) <= count_row(b, y, n),
    decreases n,
{
    if n > 0 {
        lemma_count_row_mono(a, b, y, (n - 1) as nat);
        if a[(y, n - 1)] == Cell::Sand {
            assert(b[(y, n - 1)] == Cell::Sand);
        }
    }
}

/// If every grain of `a` is a grain of `b`, then `b` counts at least as
/// many grains in its first `n` rows.
proof fn lemma_count_rows_mono(a: Map<(int, int), Cell>, b: Map<(int, int), Cell>, width: nat, n: nat)
    requires
        forall|x: int, y: int| 0 <= x < width && 0 <= y < n && #[trigger] a[(y, x)] == Cell::Sand ==> b[(y, x)] == Cell::Sand,
    ensures
        count_rows(a, width, n) <= count_rows(b, width, n),
    decreases n,
{
    if n > 0 {
        lemma_count_rows_mono(a, b, width, (n - 1) as nat);
        assert forall|x: int| 0 <= x < width && #[trigger] a[(n - 1, x)] == Cell::Sand implies b[(n - 1, x)] == Cell::Sand by {
            assert(a[(n - 1, x)] == Cell::Sand);
        }
        lemma_count_row_mono(a, b, n - 1, width);
    }
}

/// Writing a cell into a position of the grid: reading that position gives
/// the cell back, every other position reads as before, and the metadata
/// and shape stay.
pub proof fn cell_write_then_read(g: GridView, x: int, y: int, c: Cell, x2: int, y2: int)
    requires
        g.wf(),
        g.contains(x, y),
    ensures
        g.with_cell(x, y, c).wf(),
        g.with_cell(x, y, c).cell(x, y) == c,
        (x2, y2) != (x, y) ==> g.with_cell(x, y, c).cell(x2, y2) == g.cell(x2, y2),
        g.with_cell(x, y, c).meta == g.meta,
{
    assert(g.with_cell(x, y, c).cells.dom() =~= g.cells.dom());
}

/// `in_bounds` agrees with the grid's positions whenever both extents fit in
/// an `i32`.
pub proof fn in_bounds_matches_positions(g: GridView, x: i32, y: i32)
    requires
        g.width <= i32::MAX,
        g.height <= i32::MAX,
    ensures
        g.in_bounds(x as int, y as int) <==> g.contains(x as int, y as int),
{
}

/// Every position the brush reaches is a position of the grid.
pub proof fn brush_stays_in_grid(g: GridView, cx: int, cy: int, radius: int, x: int, y: int)
    requires
        g.brush_covers(cx, cy, radius, x, y),
    ensures
        g.contains(x, y),
{
}

/// Painting sand never removes a grain, so the grid holds at least as many
/// grains after it; erasing never adds one, so it holds at most as many.
pub proof fn brush_count_bounds(g: GridView, cx: int, cy: int, radius: int, frame: u64)
    requires
        g.wf(),
    ensures
        g.brushed(cx, cy, radius, Cell::Sand, frame).sand_count() >= g.sand_count(),
        g.brushed(cx, cy, radius, Cell::Empty, frame).sand_count() <= g.sand_count(),
{
    let a = g.brushed(cx, cy, radius, Cell::Sand, frame);
    let e = g.brushed(cx, cy, radius, Cell::Empty, frame);
    assert forall|x: int, y: int| 0 <= x < g.width && 0 <= y < g.height && #[trigger] g.cells[(y, x)] == Cell::Sand
        implies a.cells[(y, x)] == Cell::Sand by {
        assert(g.cells.dom().contains((y, x)));
    }
    lemma_count_rows_mono(g.cells, a.cells, g.width as nat, g.height as nat);
    assert forall|x: int, y: int| 0 <= x < g.width && 0 <= y < g.height && #[trigger] e.cells[(y, x)] == Cell::Sand
        implies g.cells[(y, x)] == Cell::Sand by {
        assert(g.cells.dom().contains((y, x)));
    }
    lemma_count_rows_mono(e.cells, g.cells, g.width as nat, g.height as nat);
}

/// Painting sand twice over the same disk is painting it once: the second
/// stroke finds no empty cell to fill, so every particle keeps the metadata
/// of its creation.
pub proof fn sand_brush_idempotent(g: GridView, cx: int, cy: int, radius: int, f1: u64, f2: u64)
    requires
        g.wf(),
    ensures
        g.brushed(cx, cy, radius, Cell::Sand, f1).brushed(cx, cy, radius, Cell::Sand, f2)
            == g.brushed(cx, cy, radius, Cell::Sand, f1),
{
    let a = g.brushed(cx, cy, radius, Cell::Sand, f1);
    let b = a.brushed(cx, cy, radius, Cell::Sand, f2);
    assert(b.cells =~= a.cells);
    assert(b.meta =~= a.meta);
    assert(b =~= a);
}

/// Erasing a disk after painting it leaves the cells as erasing alone would:
/// everything the brush reaches is empty and everything else is as before.
pub proof fn erase_after_paint(g: GridView, cx: int, cy: int, radius: int, frame: u64)
    requires
        g.wf(),
    ensures
        g.brushed(cx, cy, radius, Cell::Sand, frame).brushed(cx, cy, radius, Cell::Empty, 0).cells
            == g.brushed(cx, cy, radius, Cell::Empty, 0).cells,
{
    let a = g.brushed(cx, cy, radius, Cell::Sand, frame).brushed(cx, cy, radius, Cell::Empty, 0);
    let b = g.brushed(cx, cy, radius, Cell::Empty, 0);
    assert(a.cells =~= b.cells);
}

/// The brush reaches exactly as far as its radius: with a radius of zero or
/// more, the centre and the four positions at distance `radius` along the
/// axes get `c` wherever they lie in bounds, while every position farther
/// than `radius` from the centre keeps its cell and its metadata. A negative
/// radius changes nothing.
pub proof fn brush_reaches_its_radius(g: GridView, cx: int, cy: int, radius: int, c: Cell, frame: u64, x: int, y: int)
    requires
        g.wf(),
        g.contains(x, y),
    ensures
        radius >= 0 && g.in_bounds(x, y) && ((x == cx && (y == cy - radius || y == cy + radius || y == cy))
            || (y == cy && (x == cx - radius || x == cx + radius))) ==> g.brushed(cx, cy, radius, c, frame).cell(x, y) == c,
        (x - cx) * (x - cx) + (y - cy) * (y - cy) > radius * radius || radius < 0 ==> {
            &&& g.brushed(cx, cy, radius, c, frame).cell(x, y) == g.cell(x, y)
            &&& g.brushed(cx, cy, radius, c, frame).metadata(x, y) == g.metadata(x, y)
        },
        !g.in_bounds(x, y) ==> g.brushed(cx, cy, radius, c, frame).cell(x, y) == g.cell(x, y),
{
    assert(g.cells.dom().contains((y, x)));
    assert(g.meta.dom().contains((y, x)));
    let a = x - cx;
    let b = y - cy;
    if radius >= 0 && ((a == 0 && (b == -radius || b == radius || b == 0)) || (b == 0 && (a == -radius || a == radius))) {
        assert(a * a + b * b <= radius * radius) by (nonlinear_arith)
            requires
                radius >= 0,
                (a == 0 && (b == -radius || b == radius || b == 0)) || (b == 0 && (a == -radius || a == radius));
        assert(GridView::in_disk(cx, cy, radius, x, y));
    }
}

/// A position in a disk lies within `radius` of the centre on each axis.
proof fn lemma_disk_extent()
    ensures
        forall|cx: int, cy: int, radius: int, x: int, y: int| #[trigger] GridView::in_disk(cx, cy, radius, x, y) ==> {
            &&& -radius <= x - cx <= radius
            &&& -radius <= y - cy <= radius
        },
{
    assert forall|cx: int, cy: int, radius: int, x: int, y: int| #[trigger] GridView::in_disk(cx, cy, radius, x, y)
        implies -radius <= x - cx <= radius && -radius <= y - cy <= radius by {
        let a = x - cx;
        let b = y - cy;
        assert(-radius <= a <= radius && -radius <= b <= radius) by (nonlinear_arith)
            requires a * a + b * b <= radius * radius, radius >= 0;
    }
}

/// The brush radius and centre keep every computation of a brush stroke
/// within `i32`.
pub open spec fn brush_fits(cx: i32, cy: i32, radius: i32) -> bool {
    &&& radius * radius <= i32::MAX
    &&& radius >= 0 ==> {
        &&& radius * radius + radius * radius <= i32::MAX
        &&& i32::MIN <= cx - radius && cx + radius <= i32::MAX
        &&& i32::MIN <= cy - radius && cy + radius <= i32::MAX
    }
}

/// The simulation grid that holds the sand particles.
pub struct Grid {
    /// Cells, shape (height, width), indexed `[y, x]`.
    cells: CellArray,
    /// Per-position particle metadata, same shape as `cells`.
    metadata: MetadataArray,
    pub width: usize,
    pub height: usize,
}

impl View for Grid {
    type V = GridView;

    closed spec fn view(&self) -> GridView {
        GridView {
            width: self.width,
            height: self.height,
            cells: cell_entries(self.cells),
            meta: metadata_entries(self.metadata),
        }
    }
}

impl Clone for Grid {
    /// A grid with the same shape and contents.
    fn clone(&self) -> (g: Self)
        ensures
            g@ == self@,
    {
        Grid {
            cells: self.cells.duplicate(),
            metadata: self.metadata.duplicate(),
            width: self.width,
            height: self.height,
        }
    }
}

impl Grid {
    /// The arrays have the grid's shape.
    pub open spec fn wf(&self) -> bool {
        self@.wf()
    }

    /// Creates a new empty grid with the specified dimensions.
    pub fn new(width: usize, height: usize) -> (g: Self)
        requires
            width <= isize::MAX,
            height <= isize::MAX,
            width * height * 32 <= isize::MAX,
        ensures
            g.wf(),
            g@.width == width,
            g@.height == height,
            forall|x: int, y: int| g@.contains(x, y) ==> #[trigger] g@.cell(x, y) == Cell::Empty,
            forall|x: int, y: int| g@.contains(x, y) ==> #[trigger] g@.metadata(x, y) == ParticleMetadata::zeroed(),
            g@.sand_count() == 0,
    {
        assert(height * width * 32 == width * height * 32) by (nonlinear_arith);
        assert(height * width <= height * width * 32) by (nonlinear_arith);
        let d = ParticleMetadata::default();
        let g = Grid {
            cells: CellArray::from_elem(height, width, Cell::Empty),
            metadata: MetadataArray::from_elem(height, width, d),
            width,
            height,
        };
        assert forall|x: int, y: int| g@.contains(x, y) implies g@.cell(x, y) == Cell::Empty
            && g@.metadata(x, y) == ParticleMetadata::zeroed() by {
            assert(g@.cells.dom().contains((y, x)));
            assert(g@.meta.dom().contains((y, x)));
        }
        proof { lemma_no_sand_count(g@); }
        g
    }

    /// The number of columns.
    pub fn width(&self) -> (w: usize)
        ensures
            w == self@.width,
    {
        self.width
    }

    /// The number of rows.
    pub fn height(&self) -> (h: usize)
        ensures
            h == self@.height,
    {
        self.height
    }

    /// Gets the cell at the specified position.
    pub fn get(&self, x: usize, y: usize) -> (r: Option<Cell>)
        requires
            self.wf(),
        ensures
            r == (if self@.contains(x as int, y as int) { Some(self@.cell(x as int, y as int)) } else { None::<Cell> }),
    {
        if x < self.width && y < self.height {
            Some(self.cells.at(y, x))
        } else {
            None
        }
    }

    /// Sets the cell at the specified position; a position outside the grid
    /// changes nothing.
    pub fn set(&mut self, x: usize, y: usize, cell: Cell)
        requires
            old(self).wf(),
        ensures
            final(self).wf(),
            final(self)@ == (if old(self)@.contains(x as int, y as int) {
                old(self)@.with_cell(x as int, y as int, cell)
            } else {
                old(self)@
            }),
    {
        if x < self.width && y < self.height {
            self.cells.put(y, x, cell);
            assert(self@.cells.dom() =~= old(self)@.cells.dom());
        }
    }

    /// Gets the particle metadata at the specified position.
    pub fn metadata_at(&self, x: usize, y: usize) -> (r: Option<ParticleMetadata>)
        requires
            self.wf(),
        ensures
            r == (if self@.contains(x as int, y as int) {
                Some(self@.metadata(x as int, y as int))
            } else {
                None::<ParticleMetadata>
            }),
    {
        if x < self.width && y < self.height {
            Some(self.metadata.at(y, x))
        } else {
            None
        }
    }

    /// The metadata at a position of the grid.
    pub(crate) fn metadata_of(&self, x: usize, y: usize) -> (m: ParticleMetadata)
        requires
            self.wf(),
            self@.contains(x as int, y as int),
        ensures
            m == self@.metadata(x as int, y as int),
    {
        self.metadata.at(y, x)
    }

    /// Replaces the metadata at a position of the grid.
    pub(crate) fn set_metadata(&mut self, x: usize, y: usize, m: ParticleMetadata)
        requires
            old(self).wf(),
            old(self)@.contains(x as int, y as int),
        ensures
            final(self).wf(),
            final(self)@ == old(self)@.with_metadata(x as int, y as int, m),
    {
        self.metadata.put(y, x, m);
        assert(self@.meta.dom() =~= old(self)@.meta.dom());
    }

    /// Checks if a position is within bounds.
    pub fn in_bounds(&self, x: i32, y: i32) -> (b: bool)
        ensures
            b == self@.in_bounds(x as int, y as int),
    {
        x >= 0 && x < self.width as i32 && y >= 0 && y < self.height as i32
    }

    /// Whether a brush stroke of radius `radius` at `(cx, cy)` keeps its
    /// arithmetic within `i32`, as `add_sand_circle` and `remove_sand_circle`
    /// require.
    pub fn brush_within_limits(cx: i32, cy: i32, radius: i32) -> (b: bool)
        ensures
            b == brush_fits(cx, cy, radius),
    {
        let r = radius as i64;
        assert(0 <= r * r <= 0x4000_0000_0000_0000) by (nonlinear_arith)
            requires i32::MIN <= r <= i32::MAX;
        let sq = r * r;
        if sq > i32::MAX as i64 {
            return false;
        }
        if radius < 0 {
            return true;
        }
        sq + sq <= i32::MAX as i64
            && cx as i64 - r >= i32::MIN as i64 && cx as i64 + r <= i32::MAX as i64
            && cy as i64 - r >= i32::MIN as i64 && cy as i64 + r <= i32::MAX as i64
    }

    /// Adds sand in a circular area centered at `(cx, cy)`: every position of
    /// the grid within distance `radius` becomes sand, and each that was empty
    /// gets fresh metadata stamped with `frame`.
    pub fn add_sand_circle(&mut self, cx: i32, cy: i32, radius: i32, frame: u64)
        requires
            old(self).wf(),
            brush_fits(cx, cy, radius),
        ensures
            final(self).wf(),
            final(self)@ == old(self)@.brushed(cx as int, cy as int, radius as int, Cell::Sand, frame),
    {
        self.stroke(cx, cy, radius, Cell::Sand, frame);
    }

    /// Removes sand in a circular area centered at `(cx, cy)`: every position
    /// of the grid within distance `radius` becomes empty; metadata stays.
    pub fn remove_sand_circle(&mut self, cx: i32, cy: i32, radius: i32)
        requires
            old(self).wf(),
            brush_fits(cx, cy, radius),
        ensures
            final(self).wf(),
            final(self)@ == old(self)@.brushed(cx as int, cy as int, radius as int, Cell::Empty, 0),
    {
        self.stroke(cx, cy, radius, Cell::Empty, 0);
    }

    /// Writes `c` into every in-bounds position of the disk of radius `radius`
    /// around `(cx, cy)`, row by row from the top, each row from the left.
    fn stroke(&mut self, cx: i32, cy: i32, radius: i32, c: Cell, frame: u64)
        requires
            old(self).wf(),
            brush_fits(cx, cy, radius),
        ensures
            final(self).wf(),
            final(self)@ == old(self)@.brushed(cx as int, cy as int, radius as int, c, frame),
    {
        let ghost g0 = self@;
        assert(0 <= radius * radius) by (nonlinear_arith);
        assert(radius < 46341) by (nonlinear_arith)
            requires radius * radius <= i32::MAX;
        let r_squared = radius * radius;
        if radius < 0 {
            assert(self@ =~= g0.brushed(cx as int, cy as int, radius as int, c, frame));
            return;
        }
        let mut dy: i32 = -radius;
        proof { lemma_disk_extent(); }
        while dy <= radius
            invariant
                0 <= radius < 46341,
                brush_fits(cx, cy, radius),
                r_squared == radius * radius,
                -radius <= dy <= radius + 1,
                self.wf(),
                self.width == g0.width,
                self.height == g0.height,
                g0.wf(),
                forall|p: (int, int)| #[trigger] self@.cells.dom().contains(p) ==> self@.cells[p] == (
                    if g0.brush_covers(cx as int, cy as int, radius as int, p.1, p.0) && p.0 - cy < dy { c } else { g0.cells[p] }),
                forall|p: (int, int)| #[trigger] self@.meta.dom().contains(p) ==> self@.meta[p] == (
                    if c == Cell::Sand && g0.brush_covers(cx as int, cy as int, radius as int, p.1, p.0) && p.0 - cy < dy
                        && g0.cells[p] == Cell::Empty {
                        ParticleMetadata::created(frame, p.1 as usize, p.0 as usize)
                    } else {
                        g0.meta[p]
                    }),
            decreases radius + 1 - dy,
        {
            let mut dx: i32 = -radius;
            proof { lemma_disk_extent(); }
            while dx <= radius
                invariant
                    0 <= radius < 46341,
                    brush_fits(cx, cy, radius),
                    r_squared == radius * radius,
                    -radius <= dy <= radius,
                    -radius <= dx <= radius + 1,
                    self.wf(),
                    self.width == g0.width,
                    self.height == g0.height,
                    g0.wf(),
                    forall|p: (int, int)| #[trigger] self@.cells.dom().contains(p) ==> self@.cells[p] == (
                        if g0.brush_covers(cx as int, cy as int, radius as int, p.1, p.0)
                            && (p.0 - cy < dy || (p.0 - cy == dy && p.1 - cx < dx)) { c } else { g0.cells[p] }),
                    forall|p: (int, int)| #[trigger] self@.meta.dom().contains(p) ==> self@.meta[p] == (
                        if c == Cell::Sand && g0.brush_covers(cx as int, cy as int, radius as int, p.1, p.0)
                            && (p.0 - cy < dy || (p.0 - cy == dy && p.1 - cx < dx)) && g0.cells[p] == Cell::Empty {
                            ParticleMetadata::created(frame, p.1 as usize, p.0 as usize)
                        } else {
                            g0.meta[p]
                        }),
                decreases radius + 1 - dx,
            {
                assert(0 <= dx * dx <= radius * radius) by (nonlinear_arith)
                    requires -radius <= dx <= radius;
                assert(0 <= dy * dy <= radius * radius) by (nonlinear_arith)
                    requires -radius <= dy <= radius;
                proof { lemma_disk_extent(); }
                if dx * dx + dy * dy <= r_squared {
                    let x = cx + dx;
                    let y = cy + dy;
                    if self.in_bounds(x, y) {
                        let ghost before = self@;
                        proof {
                            assert(x < self.width);
                            assert(y < self.height);
                            assert(before.cells.dom().contains((y as int, x as int)));
                        }
                        if c == Cell::Sand && self.cells.at(y as usize, x as usize) == Cell::Empty {
                            self.set_metadata(x as usize, y as usize, ParticleMetadata::new(frame, x as usize, y as usize));
                        }
                        self.set(x as usize, y as usize, c);
                    }
                }
                dx = dx + 1;
            }
            proof { lemma_disk_extent(); }
            dy = dy + 1;
        }
        proof { lemma_disk_extent(); }
        assert(self@ =~= g0.brushed(cx as int, cy as int, radius as int, c, frame));
    }

    /// Gets a reference to the cell array, for rendering.
    pub fn cells(&self) -> (a: &CellArray)
        ensures
            cell_entries(*a) == self@.cells,
    {
        &self.cells
    }

    /// Clears the entire grid: every cell becomes empty; metadata stays.
    pub fn clear(&mut self)
        requires
            old(self).wf(),
        ensures
            final(self).wf(),
            final(self)@.width == old(self)@.width,
            final(self)@.height == old(self)@.height,
            final(self)@.meta == old(self)@.meta,
            forall|x: int, y: int| final(self)@.contains(x, y) ==> #[trigger] final(self)@.cell(x, y) == Cell::Empty,
            final(self)@.sand_count() == 0,
    {
        self.cells.fill(Cell::Empty);
        assert forall|x: int, y: int| self@.contains(x, y) implies #[trigger] self@.cell(x, y) == Cell::Empty by {
            assert(self@.cells.dom().contains((y, x)));
        }
        proof { lemma_no_sand_count(self@); }
    }
}

} // verus!
