//! The 2D cell store: each cell holds at most one entity, and vacancy search
//! scans from a starting point with the exact bias the spawning rules rely
//! on.

use vstd::prelude::*;

use crate::entity::{Entity, Kind, Tag};
use crate::util::Index2D;

verus! {

/// The grid of cells, row-major: `grid[i][j]` is the cell in row `i`,
/// column `j`.
pub struct Grid {
    pub grid: Vec<Vec<Option<Entity>>>,
}

/// A snapshot projection of the grid for consumers: one tag per cell.
#[derive(Debug, Clone)]
pub struct GridData {
    pub rows: u32,
    pub cols: u32,
    pub tags: Vec<Vec<Tag>>,
}

/// The tag shown for a cell's occupant; a vacant cell shows an empty tag.
pub open spec fn spec_tag_cell(c: Option<Entity>) -> Tag {
    match c {
        Some(e) => e.spec_tag(),
        None => Tag { kind: Kind::Empty, id: 0 },
    }
}

impl Grid {
    pub open spec fn spec_rows(self) -> int {
        self.grid@.len() as int
    }

    pub open spec fn spec_cols(self) -> int {
        self.grid@[0]@.len() as int
    }

    /// A well-formed grid is non-empty, fits in signed 32-bit indices, and
    /// is rectangular.
    pub open spec fn wf(self) -> bool {
        &&& 1 <= self.spec_rows() <= i32::MAX
        &&& 1 <= self.spec_cols() <= i32::MAX
        &&& forall|i: int|
            0 <= i < self.spec_rows() ==> (#[trigger] self.grid@[i])@.len() == self.spec_cols()
    }

    pub open spec fn cell(self, i: int, j: int) -> Option<Entity> {
        self.grid@[i]@[j]
    }

    pub open spec fn occ(self, i: int, j: int) -> bool {
        self.cell(i, j) is Some
    }

    /// Every cell of the rectangle `[si, rows) x [sj, cols)` that comes
    /// before `(i, j)` in row-major order is occupied.
    pub open spec fn rect_occ_upto(self, si: int, sj: int, i: int, j: int) -> bool {
        forall|a: int, b: int|
            si <= a < self.spec_rows() && sj <= b < self.spec_cols() && (a < i || (a == i && b < j))
                ==> #[trigger] self.occ(a, b)
    }

    /// No cell anywhere is vacant.
    pub open spec fn spec_full(self) -> bool {
        forall|a: int, b: int|
            0 <= a < self.spec_rows() && 0 <= b < self.spec_cols() ==> #[trigger] self.occ(a, b)
    }

    pub fn new(rows: usize, cols: usize) -> (g: Grid)
        requires
            1 <= rows <= i32::MAX,
            1 <= cols <= i32::MAX,
        ensures
            g.wf(),
            g.spec_rows() == rows,
            g.spec_cols() == cols,
            forall|a: int, b: int| 0 <= a < rows && 0 <= b < cols ==> g.cell(a, b) is None,
    {
        let mut grid: Vec<Vec<Option<Entity>>> = Vec::new();
        for i in 0..rows
            invariant
                grid@.len() == i,
                forall|a: int|
                    0 <= a < i ==> (#[trigger] grid@[a])@ =~= Seq::new(
                        cols as nat,
                        |b: int| Option::<Entity>::None,
                    ),
        {
            let mut row: Vec<Option<Entity>> = Vec::new();
            for j in 0..cols
                invariant
                    row@ =~= Seq::new(j as nat, |b: int| Option::<Entity>::None),
            {
                row.push(None);
            }
            grid.push(row);
        }
        Grid { grid }
    }

    pub fn rows(&self) -> (r: usize)
        ensures
            r == self.spec_rows(),
    {
        self.grid.len()
    }

    pub fn cols(&self) -> (r: usize)
        requires
            self.wf(),
        ensures
            r == self.spec_cols(),
    {
        self.grid[0].len()
    }

    /// Put `e` in the cell at `idx`, overwriting whatever was there; the
    /// caller decides whether overwriting is intended.
    pub fn add(&mut self, idx: Index2D, e: Entity)
        requires
            old(self).wf(),
            idx.spec_in_bounds(old(self).spec_rows(), old(self).spec_cols()),
        ensures
            final(self).wf(),
            final(self).spec_rows() == old(self).spec_rows(),
            final(self).spec_cols() == old(self).spec_cols(),
            final(self).cell(idx.0 as int, idx.1 as int) == Some(e),
            forall|a: int, b: int|
                0 <= a < old(self).spec_rows() && 0 <= b < old(self).spec_cols() && !(a == idx.0
                    && b == idx.1) ==> final(self).cell(a, b) == old(self).cell(a, b),
    {
        let (i, j) = idx.get();
        self.grid[i][j] = Some(e);
    }

    /// Vacate the cell at `idx`.
    pub fn remove(&mut self, idx: Index2D)
        requires
            old(self).wf(),
            idx.spec_in_bounds(old(self).spec_rows(), old(self).spec_cols()),
        ensures
            final(self).wf(),
            final(self).spec_rows() == old(self).spec_rows(),
            final(self).spec_cols() == old(self).spec_cols(),
            final(self).cell(idx.0 as int, idx.1 as int) is None,
            forall|a: int, b: int|
                0 <= a < old(self).spec_rows() && 0 <= b < old(self).spec_cols() && !(a == idx.0
                    && b == idx.1) ==> final(self).cell(a, b) == old(self).cell(a, b),
    {
        let (i, j) = idx.get();
        self.grid[i][j] = None;
    }

    pub fn get(&self, idx: Index2D) -> (c: Option<Entity>)
        requires
            self.wf(),
            idx.spec_in_bounds(self.spec_rows(), self.spec_cols()),
        ensures
            c == self.cell(idx.0 as int, idx.1 as int),
    {
        let (i, j) = idx.get();
        self.grid[i][j]
    }

    /// Scan for a vacant cell, first over the rectangle whose top-left
    /// corner is `idx`, row-major, then from the grid's origin over the
    /// whole grid.  The rectangle pass is the deliberate spawn bias: lower
    /// row and column indices from the starting point win ties.
    pub fn index_of_next_vacant(&self, idx: Index2D) -> (r: Option<Index2D>)
        requires
            self.wf(),
            idx.spec_in_bounds(self.spec_rows(), self.spec_cols()),
        ensures
            r is None ==> self.spec_full(),
            r matches Some(v) ==> {
                &&& v.spec_in_bounds(self.spec_rows(), self.spec_cols())
                &&& !self.occ(v.0 as int, v.1 as int)
                &&& {
                    ||| {
                        &&& idx.0 <= v.0
                        &&& idx.1 <= v.1
                        &&& self.rect_occ_upto(idx.0 as int, idx.1 as int, v.0 as int, v.1 as int)
                    }
                    ||| {
                        &&& self.rect_occ_upto(
                            idx.0 as int,
                            idx.1 as int,
                            self.spec_rows(),
                            idx.1 as int,
                        )
                        &&& self.rect_occ_upto(0, 0, v.0 as int, v.1 as int)
                    }
                }
            },
    {
        let rows = self.rows();
        let cols = self.cols();
        let (start, end) = idx.get();

        let mut i = start;
        while i < rows
            invariant
                self.wf(),
                rows == self.spec_rows(),
                cols == self.spec_cols(),
                start == idx.0,
                end == idx.1,
                start <= i <= rows,
                end < cols,
                self.rect_occ_upto(start as int, end as int, i as int, end as int),
            decreases rows - i,
        {
            let mut j = end;
            while j < cols
                invariant
                    self.wf(),
                    rows == self.spec_rows(),
                    cols == self.spec_cols(),
                    start == idx.0,
                    end == idx.1,
                    start <= i < rows,
                    end <= j <= cols,
                    self.rect_occ_upto(start as int, end as int, i as int, j as int),
                decreases cols - j,
            {
                if self.grid[i][j].is_none() {
                    return Some(Index2D::new(i, j));
                }
                j = j + 1;
            }
            i = i + 1;
        }

        let mut i: usize = 0;
        while i < rows
            invariant
                self.wf(),
                rows == self.spec_rows(),
                cols == self.spec_cols(),
                start == idx.0,
                end == idx.1,
                i <= rows,
                self.rect_occ_upto(start as int, end as int, rows as int, end as int),
                self.rect_occ_upto(0, 0, i as int, 0),
            decreases rows - i,
        {
            let mut j: usize = 0;
            while j < cols
                invariant
                    self.wf(),
                    rows == self.spec_rows(),
                    cols == self.spec_cols(),
                    start == idx.0,
                    end == idx.1,
                    i < rows,
                    j <= cols,
                    self.rect_occ_upto(start as int, end as int, rows as int, end as int),
                    self.rect_occ_upto(0, 0, i as int, j as int),
                decreases cols - j,
            {
                if self.grid[i][j].is_none() {
                    return Some(Index2D::new(i, j));
                }
                j = j + 1;
            }
            i = i + 1;
        }

        None
    }

    /// Scan for a vacant cell from a random starting point.  Which vacant
    /// cell comes back depends on the draw, but one comes back exactly when
    /// the grid has one.
    pub fn index_of_rand_vacant(&self) -> (r: Option<Index2D>)
        requires
            self.wf(),
        ensures
            r is None <==> self.spec_full(),
            r matches Some(v) ==> v.spec_in_bounds(self.spec_rows(), self.spec_cols()) && !self.occ(
                v.0 as int,
                v.1 as int,
            ),
    {
        let pos = Index2D::rand_in_range((0, self.rows()), (0, self.cols()));
        self.index_of_next_vacant(pos)
    }

    /// The snapshot handed to consumers: the same dimensions, one tag per
    /// cell.
    pub fn data(&self) -> (d: GridData)
        requires
            self.wf(),
        ensures
            d.rows == self.spec_rows(),
            d.cols == self.spec_cols(),
            d.tags@.len() == self.spec_rows(),
            forall|a: int|
                0 <= a < self.spec_rows() ==> (#[trigger] d.tags@[a])@.len() == self.spec_cols(),
            forall|a: int, b: int|
                0 <= a < self.spec_rows() && 0 <= b < self.spec_cols() ==> d.tags@[a]@[b]
                    == spec_tag_cell(#[trigger] self.cell(a, b)),
    {
        let rows = self.rows();
        let cols = self.cols();
        let mut tags: Vec<Vec<Tag>> = Vec::new();
        for i in 0..rows
            invariant
                self.wf(),
                rows == self.spec_rows(),
                cols == self.spec_cols(),
                tags@.len() == i,
                forall|a: int| 0 <= a < i ==> (#[trigger] tags@[a])@.len() == cols,
                forall|a: int, b: int|
                    0 <= a < i && 0 <= b < cols ==> tags@[a]@[b] == spec_tag_cell(
                        #[trigger] self.cell(a, b),
                    ),
        {
            let mut row: Vec<Tag> = Vec::new();
            for j in 0..cols
                invariant
                    self.wf(),
                    rows == self.spec_rows(),
                    cols == self.spec_cols(),
                    i < rows,
                    row@.len() == j,
                    forall|b: int|
                        0 <= b < j ==> row@[b] == spec_tag_cell(self.cell(i as int, b)),
            {
                let c = self.grid[i][j];
                let t = match c {
                    Some(e) => e.tag(),
                    None => Tag { kind: Kind::Empty, id: 0 },
                };
                row.push(t);
            }
            tags.push(row);
        }

        GridData { rows: rows as u32, cols: cols as u32, tags }
    }
}

} // verus!
