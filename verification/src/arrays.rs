//! The two-dimensional arrays of `ndarray` that hold the grid's state.
//!
//! An `ndarray::Array2` is opaque to the verifier, so each array the grid uses
//! lives in a private field of a small struct of this module. What such an
//! array holds is named as a map from `(row, column)` to element, and every
//! `ndarray` operation that the grid performs has a wrapper here that states
//! its effect on that map.

use vstd::prelude::*;
use crate::colors::ParticleMetadata;
use crate::grid::Cell;

verus! {

/// The set of index pairs `(row, column)` of an array with `rows` rows and
/// `cols` columns.
pub open spec fn index_rect(rows: int, cols: int) -> Set<(int, int)> {
    Set::new(|p: (int, int)| 0 <= p.0 < rows && 0 <= p.1 < cols)
}

/// An `ndarray::Array2<Cell>`.
#[verifier::external_body]
pub struct CellArray {
    inner: ndarray::Array2<Cell>,
}

/// An `ndarray::Array2<ParticleMetadata>`.
#[verifier::external_body]
pub struct MetadataArray {
    inner: ndarray::Array2<ParticleMetadata>,
}

/// The cells that an array of cells holds, keyed by `(row, column)`.
pub uninterp spec fn cell_entries(a: CellArray) -> Map<(int, int), Cell>;

/// The metadata that an array of metadata holds, keyed by `(row, column)`.
pub uninterp spec fn metadata_entries(a: MetadataArray) -> Map<(int, int), ParticleMetadata>;

impl CellArray {
    /// `ndarray::Array2::from_elem((rows, cols), elem)`: every index pair of the
    /// shape holds `elem`. It panics only when the product of the non-zero
    /// axis lengths exceeds `isize::MAX`; the bounds required here rule that
    /// out.
    #[verifier::external_body]
    pub(crate) fn from_elem(rows: usize, cols: usize, elem: Cell) -> (a: CellArray)
        requires
            rows <= isize::MAX,
            cols <= isize::MAX,
            rows * cols <= isize::MAX,
        ensures
            cell_entries(a).dom() == index_rect(rows as int, cols as int),
            forall|p: (int, int)| #[trigger] cell_entries(a).dom().contains(p) ==> cell_entries(a)[p] == elem,
    {
        CellArray { inner: ndarray::Array2::from_elem((rows, cols), elem) }
    }

    /// `a.dim()`: the shape `(rows, cols)`, whose index pairs are exactly
    /// those the array holds an element at.
    #[verifier::external_body]
    pub(crate) fn shape(&self) -> (d: (usize, usize))
        ensures
            cell_entries(*self).dom() == index_rect(d.0 as int, d.1 as int),
    {
        self.inner.dim()
    }

    /// The cell at `(row, col)`, or `None` outside the array's shape.
    pub fn get(&self, row: usize, col: usize) -> (r: Option<Cell>)
        ensures
            r == (if cell_entries(*self).dom().contains((row as int, col as int)) {
                Some(cell_entries(*self)[(row as int, col as int)])
            } else {
                None::<Cell>
            }),
    {
        let (rows, cols) = self.shape();
        if row < rows && col < cols {
            Some(self.at(row, col))
        } else {
            None
        }
    }

    /// `a[[row, col]]` for an index pair of the array: the element held there.
    #[verifier::external_body]
    pub(crate) fn at(&self, row: usize, col: usize) -> (c: Cell)
        requires
            cell_entries(*self).dom().contains((row as int, col as int)),
        ensures
            c == cell_entries(*self)[(row as int, col as int)],
    {
        self.inner[[row, col]]
    }

    /// `a[[row, col]] = c` for an index pair of the array: that entry becomes
    /// `c`, every other stays.
    #[verifier::external_body]
    pub(crate) fn put(&mut self, row: usize, col: usize, c: Cell)
        requires
            cell_entries(*old(self)).dom().contains((row as int, col as int)),
        ensures
            cell_entries(*final(self)) == cell_entries(*old(self)).insert((row as int, col as int), c),
    {
        self.inner[[row, col]] = c;
    }

    /// `a.fill(c)`: every entry becomes `c`, the shape stays.
    #[verifier::external_body]
    pub(crate) fn fill(&mut self, c: Cell)
        ensures
            cell_entries(*final(self)).dom() == cell_entries(*old(self)).dom(),
            forall|p: (int, int)| #[trigger] cell_entries(*final(self)).dom().contains(p) ==> cell_entries(*final(self))[p] == c,
    {
        self.inner.fill(c);
    }

    /// `a.clone()`: an array with the same entries.
    #[verifier::external_body]
    pub(crate) fn duplicate(&self) -> (a: CellArray)
        ensures
            cell_entries(a) == cell_entries(*self),
    {
        CellArray { inner: self.inner.clone() }
    }
}

impl MetadataArray {
    /// `ndarray::Array2::from_elem((rows, cols), elem)`: every index pair of the
    /// shape holds `elem`. It panics only when the product of the non-zero
    /// axis lengths exceeds `isize::MAX` or the buffer's byte size does; one
    /// element takes at most 32 bytes. The bounds required here rule both out.
    #[verifier::external_body]
    pub(crate) fn from_elem(rows: usize, cols: usize, elem: ParticleMetadata) -> (a: MetadataArray)
        requires
            rows <= isize::MAX,
            cols <= isize::MAX,
            rows * cols * 32 <= isize::MAX,
        ensures
            metadata_entries(a).dom() == index_rect(rows as int, cols as int),
            forall|p: (int, int)| #[trigger] metadata_entries(a).dom().contains(p) ==> metadata_entries(a)[p] == elem,
    {
        MetadataArray { inner: ndarray::Array2::from_elem((rows, cols), elem) }
    }

    /// `a[[row, col]]` for an index pair of the array: the element held there.
    #[verifier::external_body]
    pub(crate) fn at(&self, row: usize, col: usize) -> (m: ParticleMetadata)
        requires
            metadata_entries(*self).dom().contains((row as int, col as int)),
        ensures
            m == metadata_entries(*self)[(row as int, col as int)],
    {
        self.inner[[row, col]]
    }

    /// `a[[row, col]] = m` for an index pair of the array: that entry becomes
    /// `m`, every other stays.
    #[verifier::external_body]
    pub(crate) fn put(&mut self, row: usize, col: usize, m: ParticleMetadata)
        requires
            metadata_entries(*old(self)).dom().contains((row as int, col as int)),
        ensures
            metadata_entries(*final(self)) == metadata_entries(*old(self)).insert((row as int, col as int), m),
    {
        self.inner[[row, col]] = m;
    }

    /// `a.clone()`: an array with the same entries.
    #[verifier::external_body]
    pub(crate) fn duplicate(&self) -> (a: MetadataArray)
        ensures
            metadata_entries(a) == metadata_entries(*self),
    {
        MetadataArray { inner: self.inner.clone() }
    }
}

} // verus!
