use vstd::prelude::*;
use vstd::arithmetic::div_mod::{lemma_fundamental_div_mod, lemma_fundamental_div_mod_converse};
use crate::direction::MoveDirection;
use crate::error::DasGridError;

verus! {

/// The mathematical content of a grid: its dimensions, its metadata and
/// the flat sequence of its cells.
///
/// The cell `(x, y)`, in row `x` and column `y`, is the element
/// `x * cols + y` of `cells`: the rows follow one another.
pub struct GridModel<T> {
    pub rows: int,
    pub cols: int,
    pub cell_size: (u32, u32),
    pub default_value: T,
    pub cells: Seq<T>,
}

impl<T> GridModel<T> {
    /// Both dimensions are positive, every cell has a coordinate of machine
    /// integers, and there is one cell per coordinate.
    pub open spec fn wf(self) -> bool {
        &&& 0 < self.rows <= i32::MAX
        &&& 0 < self.cols <= i32::MAX
        &&& self.cells.len() == self.rows * self.cols
    }

    /// A grid of the given shape whose cells all hold `default_value`.
    pub open spec fn filled(rows: int, cols: int, cell_size: (u32, u32), default_value: T) -> Self {
        GridModel {
            rows,
            cols,
            cell_size,
            default_value,
            cells: Seq::new((rows * cols) as nat, |i: int| default_value),
        }
    }

    /// Whether the grid has a cell in row `x` and column `y`.
    pub open spec fn has(self, x: int, y: int) -> bool {
        0 <= x < self.rows && 0 <= y < self.cols
    }

    /// The value of the cell in row `x` and column `y`.
    pub open spec fn at(self, x: int, y: int) -> T
        recommends
            self.has(x, y),
    {
        self.cells[x * self.cols + y]
    }

    /// Whether `p` addresses a cell of the grid.
    pub open spec fn in_bounds(self, p: (i32, i32)) -> bool {
        self.has(p.0 as int, p.1 as int)
    }

    /// The offset in `cells` of the cell that `p` addresses.
    pub open spec fn index(self, p: (i32, i32)) -> int {
        p.0 * self.cols + p.1
    }

    /// The coordinate of the cell at offset `i` of `cells`.
    pub open spec fn coord(self, i: int) -> (i32, i32) {
        ((i / self.cols) as i32, (i % self.cols) as i32)
    }

    /// The value of the cell that `p` addresses.
    pub open spec fn cell(self, p: (i32, i32)) -> T
        recommends
            self.in_bounds(p),
    {
        self.cells[self.index(p)]
    }

    /// Reading a cell: its value, or `OutOfGrid` outside the grid.
    pub open spec fn get(self, p: (i32, i32)) -> Result<T, DasGridError> {
        if self.in_bounds(p) {
            Ok(self.cell(p))
        } else {
            Err(DasGridError::OutOfGrid)
        }
    }

    /// The grid with the cell at `p` replaced by `value`; the grid itself
    /// where `p` lies outside it.
    pub open spec fn set(self, p: (i32, i32), value: T) -> Self {
        if self.in_bounds(p) {
            GridModel { cells: self.cells.update(self.index(p), value), ..self }
        } else {
            self
        }
    }

    /// The grid with every cell replaced by `value`.
    pub open spec fn fill(self, value: T) -> Self {
        GridModel { cells: Seq::new(self.cells.len(), |i: int| value), ..self }
    }

    /// The grid after the value at `src` has been moved to `dst`: `src`
    /// is reset to the default value first, then `dst` receives the value.
    pub open spec fn mov(self, src: (i32, i32), dst: (i32, i32)) -> Self {
        if self.in_bounds(src) && self.in_bounds(dst) {
            self.set(src, self.default_value).set(dst, self.cell(src))
        } else {
            self
        }
    }

    /// The coordinate one cell away from `src` in `direction`.
    pub open spec fn step(src: (i32, i32), direction: MoveDirection) -> (i32, i32) {
        (
            (src.0 + direction.spec_offset().0) as i32,
            (src.1 + direction.spec_offset().1) as i32,
        )
    }

    /// Whether a region of `rows` by `cols` cells is no larger than the
    /// grid in either dimension.
    pub open spec fn fits(self, rows: int, cols: int) -> bool {
        rows <= self.rows && cols <= self.cols
    }

    /// The grid after the first `n` cells of `sub`, in storage order, have
    /// been copied into it, the cell `(x, y)` of `sub` onto the cell
    /// `(dst.0 + x, dst.1 + y)`. A cell of `sub` that would land outside
    /// the grid is dropped.
    pub open spec fn stamp_first(self, dst: (i32, i32), sub: GridModel<T>, n: int) -> Self {
        GridModel {
            cells: Seq::new(
                self.cells.len(),
                |i: int|
                    {
                        let x = i / self.cols - dst.0;
                        let y = i % self.cols - dst.1;
                        if sub.has(x, y) && x * sub.cols + y < n {
                            sub.at(x, y)
                        } else {
                            self.cells[i]
                        }
                    },
            ),
            ..self
        }
    }

    /// The grid after every cell of `sub` has been copied into it, the
    /// cell `(x, y)` of `sub` onto the cell `(dst.0 + x, dst.1 + y)`. A
    /// cell of `sub` that would land outside the grid is dropped.
    pub open spec fn stamp(self, dst: (i32, i32), sub: GridModel<T>) -> Self {
        self.stamp_first(dst, sub, sub.cells.len() as int)
    }

    /// The grid after `value` has been written to each of its cells that
    /// lies in the rectangle of `rows` by `cols` cells anchored at `dst`.
    pub open spec fn fill_region(self, dst: (i32, i32), rows: int, cols: int, value: T) -> Self {
        self.stamp(dst, GridModel::filled(rows, cols, self.cell_size, value))
    }

    /// A grid of `rows` by `cols` cells that copies the rectangle of this
    /// grid anchored at `src`: its cell `(x, y)` is the cell
    /// `(src.0 + x, src.1 + y)` of this grid, or the default value where
    /// this grid has no such cell.
    pub open spec fn subgrid(self, src: (i32, i32), rows: int, cols: int) -> Self {
        GridModel {
            rows,
            cols,
            cell_size: self.cell_size,
            default_value: self.default_value,
            cells: Seq::new(
                (rows * cols) as nat,
                |k: int|
                    {
                        let x = src.0 + k / cols;
                        let y = src.1 + k % cols;
                        if self.has(x, y) {
                            self.at(x, y)
                        } else {
                            self.default_value
                        }
                    },
            ),
        }
    }

    /// Every coordinate of the grid, in storage order.
    pub open spec fn enumerate(self) -> Seq<(i32, i32)> {
        Seq::new(self.cells.len(), |i: int| self.coord(i))
    }

    /// The cells of row `x`, from the first column to the last.
    pub open spec fn row(self, x: int) -> Seq<T> {
        Seq::new(self.cols as nat, |y: int| self.at(x, y))
    }

    /// The cells of column `y`, from the first row to the last.
    pub open spec fn col(self, y: int) -> Seq<T> {
        Seq::new(self.rows as nat, |x: int| self.at(x, y))
    }

    /// An in-bounds coordinate has an offset inside the storage.
    pub proof fn lemma_index_in_range(self, p: (i32, i32))
        requires
            self.wf(),
            self.in_bounds(p),
        ensures
            0 <= self.index(p) < self.cells.len(),
    {
        let x = p.0 as int;
        assert(x * self.cols >= 0) by (nonlinear_arith)
            requires
                x >= 0,
                self.cols > 0,
        ;
        assert((x + 1) * self.cols <= self.rows * self.cols) by (nonlinear_arith)
            requires
                x + 1 <= self.rows,
                self.cols > 0,
        ;
        assert((x + 1) * self.cols == x * self.cols + self.cols) by (nonlinear_arith);
    }

    /// The offset `x * cols + y` of a cell lies inside the storage, and
    /// its coordinate is `(x, y)`.
    pub proof fn lemma_offset(self, x: int, y: int)
        requires
            self.wf(),
            self.has(x, y),
        ensures
            0 <= x * self.cols + y < self.cells.len(),
            (x * self.cols + y) / self.cols == x,
            (x * self.cols + y) % self.cols == y,
            self.coord(x * self.cols + y) == (x as i32, y as i32),
    {
        self.lemma_index_in_range((x as i32, y as i32));
        lemma_fundamental_div_mod_converse(x * self.cols + y, self.cols, x, y);
    }

    /// The coordinate of the offset of `p` is `p`.
    pub proof fn lemma_coord_of_index(self, p: (i32, i32))
        requires
            self.wf(),
            self.in_bounds(p),
        ensures
            self.coord(self.index(p)) == p,
    {
        lemma_fundamental_div_mod_converse(self.index(p), self.cols, p.0 as int, p.1 as int);
    }

    /// An offset inside the storage has an in-bounds coordinate, whose
    /// offset it is.
    pub proof fn lemma_index_of_coord(self, i: int)
        requires
            self.wf(),
            0 <= i < self.cells.len(),
        ensures
            self.in_bounds(self.coord(i)),
            self.index(self.coord(i)) == i,
            self.coord(i).0 == i / self.cols,
            self.coord(i).1 == i % self.cols,
    {
        let q = i / self.cols;
        let r = i % self.cols;
        lemma_fundamental_div_mod(i, self.cols);
        assert(0 <= r < self.cols);
        assert(i == self.cols * q + r);
        assert(q >= 0) by (nonlinear_arith)
            requires
                i == self.cols * q + r,
                0 <= r < self.cols,
                i >= 0,
                self.cols > 0,
        ;
        assert(q < self.rows) by (nonlinear_arith)
            requires
                i == self.cols * q + r,
                0 <= r < self.cols,
                i < self.rows * self.cols,
                self.cols > 0,
        ;
        assert(self.cols * q == q * self.cols) by (nonlinear_arith);
    }

    /// Copying no cell changes nothing.
    pub proof fn lemma_stamp_first_none(self, dst: (i32, i32), sub: GridModel<T>)
        requires
            self.wf(),
            sub.wf(),
        ensures
            self.stamp_first(dst, sub, 0) == self,
    {
        assert forall|i: int| 0 <= i < self.cells.len() implies self.stamp_first(
            dst,
            sub,
            0,
        ).cells[i] == self.cells[i] by {
            let x = i / self.cols - dst.0;
            let y = i % self.cols - dst.1;
            if sub.has(x, y) {
                sub.lemma_offset(x, y);
            }
        }
        assert(self.stamp_first(dst, sub, 0).cells =~= self.cells);
    }

    /// Copying one more cell of `sub` is a `set` of the cell that it lands
    /// on, and changes nothing where it lands outside the grid.
    pub proof fn lemma_stamp_first_next(self, dst: (i32, i32), sub: GridModel<T>, n: int)
        requires
            self.wf(),
            sub.wf(),
            self.in_bounds(dst),
            0 <= n < sub.cells.len(),
        ensures
            ({
                let x = dst.0 + sub.coord(n).0;
                let y = dst.1 + sub.coord(n).1;
                if self.has(x, y) {
                    &&& self.stamp_first(dst, sub, n).at(x, y) == self.at(x, y)
                    &&& self.stamp_first(dst, sub, n + 1) == self.stamp_first(dst, sub, n).set(
                        (x as i32, y as i32),
                        sub.cells[n],
                    )
                } else {
                    self.stamp_first(dst, sub, n + 1) == self.stamp_first(dst, sub, n)
                }
            }),
    {
        sub.lemma_index_of_coord(n);
        let cx = sub.coord(n).0 as int;
        let cy = sub.coord(n).1 as int;
        let x = dst.0 + cx;
        let y = dst.1 + cy;
        let before = self.stamp_first(dst, sub, n);
        let after = self.stamp_first(dst, sub, n + 1);
        if self.has(x, y) {
            self.lemma_offset(x, y);
            let target = x * self.cols + y;
            let written = before.set((x as i32, y as i32), sub.cells[n]);
            assert forall|i: int| 0 <= i < self.cells.len() implies after.cells[i]
                == written.cells[i] by {
                let sx = i / self.cols - dst.0;
                let sy = i % self.cols - dst.1;
                lemma_fundamental_div_mod(i, self.cols);
                if sub.has(sx, sy) {
                    sub.lemma_offset(sx, sy);
                }
                if sub.has(sx, sy) && sx * sub.cols + sy == n {
                    assert(sx == cx && sy == cy);
                    assert(self.cols * x == x * self.cols) by (nonlinear_arith);
                    assert(i == target);
                }
            }
            assert(after.cells =~= written.cells);
        } else {
            assert forall|i: int| 0 <= i < self.cells.len() implies after.cells[i]
                == before.cells[i] by {
                let sx = i / self.cols - dst.0;
                let sy = i % self.cols - dst.1;
                self.lemma_index_of_coord(i);
                if sub.has(sx, sy) {
                    sub.lemma_offset(sx, sy);
                }
            }
            assert(after.cells =~= before.cells);
        }
    }
}

} // verus!
