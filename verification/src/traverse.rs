use vstd::prelude::*;
use crate::error::DasGridError;
use crate::grid::Grid;

verus! {

impl<T: Copy> Grid<T> {
    /// The cells of the row `row_idx`, from the first column to the last.
    pub fn get_row(&self, row_idx: i32) -> (res: Result<Vec<T>, DasGridError>)
        requires
            self.wf(),
        ensures
            0 <= row_idx < self@.rows ==> res is Ok && res->Ok_0@ == self@.row(row_idx as int),
            !(0 <= row_idx < self@.rows) ==> res is Err && res->Err_0 == DasGridError::OutOfGrid,
    {
        let cols = self.cols();
        let mut vec_result: Vec<T> = Vec::new();
        let mut idx: i32 = 0;
        while idx < cols
            invariant
                self.wf(),
                cols == self@.cols,
                0 <= idx <= cols,
                idx > 0 ==> 0 <= row_idx < self@.rows,
                vec_result@.len() == idx,
                forall|y: int| 0 <= y < idx ==> vec_result@[y] == self@.at(row_idx as int, y),
            decreases cols - idx,
        {
            let v = self.get((row_idx, idx))?;
            vec_result.push(*v);
            idx += 1;
        }
        assert(vec_result@ =~= self@.row(row_idx as int));
        Ok(vec_result)
    }

    /// The cells of the column `col_idx`, from the first row to the last.
    pub fn get_col(&self, col_idx: i32) -> (res: Result<Vec<T>, DasGridError>)
        requires
            self.wf(),
        ensures
            0 <= col_idx < self@.cols ==> res is Ok && res->Ok_0@ == self@.col(col_idx as int),
            !(0 <= col_idx < self@.cols) ==> res is Err && res->Err_0 == DasGridError::OutOfGrid,
    {
        let rows = self.rows();
        let mut vec_result: Vec<T> = Vec::new();
        let mut idx: i32 = 0;
        while idx < rows
            invariant
                self.wf(),
                rows == self@.rows,
                0 <= idx <= rows,
                idx > 0 ==> 0 <= col_idx < self@.cols,
                vec_result@.len() == idx,
                forall|x: int| 0 <= x < idx ==> vec_result@[x] == self@.at(x, col_idx as int),
            decreases rows - idx,
        {
            let v = self.get((idx, col_idx))?;
            vec_result.push(*v);
            idx += 1;
        }
        assert(vec_result@ =~= self@.col(col_idx as int));
        Ok(vec_result)
    }

    /// Every coordinate of the grid, in storage order: the element `i` is
    /// the coordinate of the cell at offset `i`.
    pub fn enumerate(&self) -> (coords: Vec<(i32, i32)>)
        requires
            self.wf(),
        ensures
            coords@ == self@.enumerate(),
    {
        let cols = self.cols();
        let n = self.size();
        let mut coords: Vec<(i32, i32)> = Vec::new();
        let mut x: i32 = 0;
        let mut y: i32 = 0;
        let mut idx: usize = 0;
        while idx < n
            invariant
                self.wf(),
                cols == self@.cols,
                n == self@.cells.len(),
                idx <= n,
                idx == x * cols + y,
                0 <= x,
                0 <= y < cols,
                coords@.len() == idx,
                forall|i: int| 0 <= i < idx ==> coords@[i] == self@.coord(i),
            decreases n - idx,
        {
            proof {
                self@.lemma_index_of_coord(idx as int);
                vstd::arithmetic::div_mod::lemma_fundamental_div_mod_converse(
                    idx as int,
                    cols as int,
                    x as int,
                    y as int,
                );
                assert((x + 1) * cols == x * cols + cols) by (nonlinear_arith);
            }
            coords.push((x, y));
            y += 1;
            if y == cols {
                y = 0;
                x += 1;
            }
            idx += 1;
        }
        assert(coords@ =~= self@.enumerate());
        coords
    }

    /// Every coordinate of the grid with a reference to the value of its
    /// cell, in storage order.
    pub fn enumerate_with_value(&self) -> (cells: Vec<(i32, i32, &T)>)
        requires
            self.wf(),
        ensures
            cells@.len() == self@.cells.len(),
            forall|i: int|
                0 <= i < cells@.len() ==> {
                    &&& (#[trigger] cells@[i]).0 == self@.coord(i).0
                    &&& cells@[i].1 == self@.coord(i).1
                    &&& *cells@[i].2 == self@.cells[i]
                },
    {
        let coords = self.enumerate();
        let mut cells: Vec<(i32, i32, &T)> = Vec::new();
        let mut idx: usize = 0;
        while idx < coords.len()
            invariant
                self.wf(),
                coords@ == self@.enumerate(),
                idx <= coords@.len(),
                cells@.len() == idx,
                forall|i: int|
                    0 <= i < idx ==> {
                        &&& (#[trigger] cells@[i]).0 == self@.coord(i).0
                        &&& cells@[i].1 == self@.coord(i).1
                        &&& *cells@[i].2 == self@.cells[i]
                    },
            decreases coords@.len() - idx,
        {
            let (x, y) = coords[idx];
            proof {
                self@.lemma_index_of_coord(idx as int);
            }
            match self.get((x, y)) {
                Ok(v) => {
                    cells.push((x, y, v));
                },
                Err(_) => {},
            }
            idx += 1;
        }
        cells
    }
}

} // verus!
