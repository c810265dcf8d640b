use vstd::prelude::*;
use vstd::std_specs::convert::IntoSpec;
use crate::error::DasGridError;
use crate::model::GridModel;
use crate::params::{CellSizeParams, FrameSizeParams};

verus! {

/// A dense rectangle of cells of one copyable type, kept in one flat
/// vector. Its dimensions are fixed when it is made.
///
/// The cell `(x, y)`, in row `x` and column `y`, with `0 <= x < rows` and
/// `0 <= y < cols`, is the element `x * cols + y` of the vector.
pub struct Grid<T: Copy> {
    pub(crate) frame_size: (i32, i32),
    pub(crate) cell_size: (u32, u32),
    pub(crate) default_value: T,
    pub(crate) cells: Vec<T>,
}

impl<T: Copy> View for Grid<T> {
    type V = GridModel<T>;

    closed spec fn view(&self) -> GridModel<T> {
        GridModel {
            rows: self.frame_size.0 as int,
            cols: self.frame_size.1 as int,
            cell_size: self.cell_size,
            default_value: self.default_value,
            cells: self.cells@,
        }
    }
}

/// A vector of `n` copies of `value`.
fn repeated<T: Copy>(value: T, n: usize) -> (cells: Vec<T>)
    ensures
        cells@ == Seq::new(n as nat, |i: int| value),
{
    let mut cells: Vec<T> = Vec::new();
    let mut i: usize = 0;
    while i < n
        invariant
            i <= n,
            cells@.len() == i,
            forall|j: int| 0 <= j < i ==> cells@[j] == value,
        decreases n - i,
    {
        cells.push(value);
        i += 1;
    }
    assert(cells@ =~= Seq::new(n as nat, |i: int| value));
    cells
}

impl<T: Copy> Grid<T> {
    /// The invariant of a grid: positive dimensions, and one cell for each
    /// coordinate, in a storage that a machine can hold.
    pub open spec fn wf(&self) -> bool {
        self@.wf() && self@.cells.len() <= usize::MAX
    }

    /// Makes a grid of `rows` by `cols` cells that all hold
    /// `default_value`.
    pub fn new<F, C>(frame_size: F, cell_size: C, default_value: T) -> (grid: Self) where
        F: Into<FrameSizeParams>,
        C: Into<CellSizeParams>,

        requires
            F::obeys_into_spec(),
            C::obeys_into_spec(),
            frame_size.into_spec().rows > 0,
            frame_size.into_spec().cols > 0,
            frame_size.into_spec().rows * frame_size.into_spec().cols <= usize::MAX,
        ensures
            grid.wf(),
            grid@ == GridModel::filled(
                frame_size.into_spec().rows as int,
                frame_size.into_spec().cols as int,
                (cell_size.into_spec().width, cell_size.into_spec().height),
                default_value,
            ),
    {
        let frame_size: FrameSizeParams = frame_size.into();
        let cell_size: CellSizeParams = cell_size.into();
        let rows: usize = frame_size.rows as usize;
        let cols: usize = frame_size.cols as usize;
        let cells = repeated(default_value, rows * cols);
        Self {
            frame_size: (frame_size.rows, frame_size.cols),
            cell_size: (cell_size.width, cell_size.height),
            default_value,
            cells,
        }
    }

    /// Makes a grid of `rows` by `cols` cells out of a vector of that many
    /// values, in storage order. The first value becomes the default
    /// value of the grid.
    pub fn new_from_vector<F, C>(frame_size: F, cell_size: C, vec: Vec<T>) -> (grid: Self) where
        F: Into<FrameSizeParams>,
        C: Into<CellSizeParams>,

        requires
            F::obeys_into_spec(),
            C::obeys_into_spec(),
            frame_size.into_spec().rows > 0,
            frame_size.into_spec().cols > 0,
            frame_size.into_spec().rows * frame_size.into_spec().cols == vec@.len(),
        ensures
            grid.wf(),
            grid@ == (GridModel {
                rows: frame_size.into_spec().rows as int,
                cols: frame_size.into_spec().cols as int,
                cell_size: (cell_size.into_spec().width, cell_size.into_spec().height),
                default_value: vec@[0],
                cells: vec@,
            }),
    {
        let frame_size: FrameSizeParams = frame_size.into();
        let cell_size: CellSizeParams = cell_size.into();
        assert(vec@.len() > 0) by (nonlinear_arith)
            requires
                frame_size.rows > 0,
                frame_size.cols > 0,
                frame_size.rows * frame_size.cols == vec@.len(),
        ;
        assert(vec@.len() == vec.len());
        let default_value = vec[0];
        Self {
            frame_size: (frame_size.rows, frame_size.cols),
            cell_size: (cell_size.width, cell_size.height),
            default_value,
            cells: vec,
        }
    }

    /// Tells whether `sub_grid` is no larger than this grid in either
    /// dimension.
    pub fn check_grid_overflow(&self, sub_grid: &Grid<T>) -> (res: Result<(), DasGridError>)
        ensures
            self@.fits(sub_grid@.rows, sub_grid@.cols) ==> res is Ok,
            !self@.fits(sub_grid@.rows, sub_grid@.cols) ==> res == Err::<(), DasGridError>(
                DasGridError::SubgridOverflow,
            ),
    {
        let (sg_rows, sg_cols) = sub_grid.frame_size;
        self.check_frame_overflow(sg_rows, sg_cols)
    }

    /// Tells whether a region of `sg_rows` by `sg_cols` cells is no larger
    /// than this grid in either dimension.
    pub fn check_frame_overflow(&self, sg_rows: i32, sg_cols: i32) -> (res: Result<
        (),
        DasGridError,
    >)
        ensures
            self@.fits(sg_rows as int, sg_cols as int) ==> res is Ok,
            !self@.fits(sg_rows as int, sg_cols as int) ==> res == Err::<(), DasGridError>(
                DasGridError::SubgridOverflow,
            ),
    {
        let (rows, cols) = self.frame_size;
        if sg_cols > cols {
            return Err(DasGridError::SubgridOverflow);
        }
        if sg_rows > rows {
            return Err(DasGridError::SubgridOverflow);
        }
        Ok(())
    }

    /// Tells whether `dst` addresses a cell of the grid.
    pub fn check_grid_bounds(&self, dst: (i32, i32)) -> (res: Result<(), DasGridError>)
        ensures
            self@.in_bounds(dst) ==> res is Ok,
            !self@.in_bounds(dst) ==> res == Err::<(), DasGridError>(DasGridError::OutOfGrid),
    {
        let (rows, cols) = self.frame_size;
        let (x, y) = dst;
        if x < 0 || x >= rows {
            return Err(DasGridError::OutOfGrid);
        }
        if y < 0 || y >= cols {
            return Err(DasGridError::OutOfGrid);
        }
        Ok(())
    }

    /// The offset in the flat storage of the cell that `p` addresses.
    pub fn to_index(&self, p: (i32, i32)) -> (i: usize)
        requires
            self.wf(),
            self@.in_bounds(p),
        ensures
            i == self@.index(p),
            i < self@.cells.len(),
    {
        proof {
            self@.lemma_index_in_range(p);
            assert(p.0 * self@.cols >= 0) by (nonlinear_arith)
                requires
                    p.0 >= 0,
                    self@.cols > 0,
            ;
        }
        let (_, cols) = self.frame_size;
        let (x, y) = p;
        assert((x as usize) * (cols as usize) == p.0 * self@.cols) by (nonlinear_arith)
            requires
                x == p.0,
                cols == self@.cols,
                0 <= p.0 * self@.cols <= usize::MAX,
                x >= 0,
                cols > 0,
        ;
        (x as usize) * (cols as usize) + (y as usize)
    }

    /// The value of the cell at `src`.
    pub fn get(&self, src: (i32, i32)) -> (res: Result<&T, DasGridError>)
        requires
            self.wf(),
        ensures
            match res {
                Ok(value) => self@.get(src) == Ok::<T, DasGridError>(*value),
                Err(e) => self@.get(src) == Err::<T, DasGridError>(e),
            },
    {
        self.check_grid_bounds(src)?;
        let i = self.to_index(src);
        Ok(&self.cells[i])
    }

    /// Exclusive access to the cell at `src`, to change it in place. What
    /// is written through the reference is what the cell holds afterwards;
    /// nothing else changes.
    pub fn get_mut(&mut self, src: (i32, i32)) -> (res: Result<&mut T, DasGridError>)
        requires
            old(self).wf(),
        ensures
            final(self).wf(),
            match res {
                Ok(cell) => {
                    &&& old(self)@.in_bounds(src)
                    &&& *cell == old(self)@.cell(src)
                    &&& final(self)@ == old(self)@.set(src, *final(cell))
                },
                Err(e) => {
                    &&& !old(self)@.in_bounds(src)
                    &&& e == DasGridError::OutOfGrid
                    &&& final(self)@ == old(self)@
                },
            },
    {
        self.check_grid_bounds(src)?;
        let i = self.to_index(src);
        Ok(&mut self.cells[i])
    }

    /// Overwrites the cell at `dst` with `value`.
    pub fn set(&mut self, dst: (i32, i32), value: &T) -> (res: Result<(), DasGridError>)
        requires
            old(self).wf(),
        ensures
            final(self).wf(),
            final(self)@ == old(self)@.set(dst, *value),
            old(self)@.in_bounds(dst) ==> res is Ok,
            !old(self)@.in_bounds(dst) ==> res == Err::<(), DasGridError>(DasGridError::OutOfGrid),
    {
        self.check_grid_bounds(dst)?;
        let i = self.to_index(dst);
        self.cells[i] = *value;
        Ok(())
    }

    /// Overwrites every cell with `value`.
    pub fn fill(&mut self, value: &T)
        requires
            old(self).wf(),
        ensures
            final(self).wf(),
            final(self)@ == old(self)@.fill(*value),
    {
        let n = self.cells.len();
        let mut i: usize = 0;
        while i < n
            invariant
                i <= n,
                n == self.cells@.len(),
                self@.rows == old(self)@.rows,
                self@.cols == old(self)@.cols,
                self@.cell_size == old(self)@.cell_size,
                self@.default_value == old(self)@.default_value,
                self@.cells.len() == old(self)@.cells.len(),
                forall|j: int| 0 <= j < i ==> self@.cells[j] == *value,
            decreases n - i,
        {
            self.cells[i] = *value;
            i += 1;
        }
        assert(self@.cells =~= old(self)@.fill(*value).cells);
    }

    /// A copy of the cells, in storage order.
    pub fn get_flatten_grid(&self) -> (cells: Vec<T>)
        ensures
            cells@ == self@.cells,
    {
        let n = self.cells.len();
        let mut cells: Vec<T> = Vec::new();
        let mut i: usize = 0;
        while i < n
            invariant
                i <= n,
                n == self.cells@.len(),
                cells@.len() == i,
                forall|j: int| 0 <= j < i ==> cells@[j] == self.cells@[j],
            decreases n - i,
        {
            cells.push(self.cells[i]);
            i += 1;
        }
        assert(cells@ =~= self.cells@);
        cells
    }

    /// The number of cells.
    pub fn size(&self) -> (n: usize)
        ensures
            n == self@.cells.len(),
            self.wf() ==> n == self@.rows * self@.cols,
    {
        self.cells.len()
    }

    /// The number of rows: the bound of the first coordinate.
    pub fn rows(&self) -> (rows: i32)
        ensures
            rows == self@.rows,
    {
        self.frame_size.0
    }

    /// The number of columns: the bound of the second coordinate.
    pub fn cols(&self) -> (cols: i32)
        ensures
            cols == self@.cols,
    {
        self.frame_size.1
    }

    /// The cell size that the grid was made with, as it was given.
    pub fn get_cell_size(&self) -> (cell_size: (u32, u32))
        ensures
            cell_size == self@.cell_size,
    {
        self.cell_size
    }

    /// The value that fills a new grid and the cell that a value was moved
    /// from.
    pub fn default_value(&self) -> (value: T)
        ensures
            value == self@.default_value,
    {
        self.default_value
    }
}

/// A grid is walked cell by cell, in storage order.
impl<'a, T: Copy> IntoIterator for &'a Grid<T> {
    type Item = &'a T;

    type IntoIter = core::slice::Iter<'a, T>;

    fn into_iter(self) -> (iter: Self::IntoIter)
        ensures
            vstd::std_specs::slice::into_iter_elts(iter) == self@.cells,
    {
        self.cells.iter()
    }
}

} // verus!
