use vstd::prelude::*;
use crate::error::DasGridError;
use crate::grid::Grid;
use crate::model::GridModel;
use crate::rules::{check_rules, rules_may_be_asked, rules_may_return};

verus! {

/// Where the cell at offset `k` of `sub` lands when `sub` is stamped at
/// `dst`: the two coordinates, which may lie outside every grid.
pub open spec fn landing<T>(dst: (i32, i32), sub: GridModel<T>, k: int) -> (int, int) {
    (dst.0 + sub.coord(k).0, dst.1 + sub.coord(k).1)
}

/// Whether `rules` may be asked about the cell of `before` on which the
/// cell at offset `k` of `sub` lands, if it lands on one.
pub open spec fn landing_may_be_asked<T, R: Fn((i32, i32), &T) -> Result<(), DasGridError>>(
    before: GridModel<T>,
    dst: (i32, i32),
    sub: GridModel<T>,
    rules: Seq<R>,
    k: int,
) -> bool {
    let (x, y) = landing(dst, sub, k);
    before.has(x, y) ==> rules_may_be_asked(rules, (x as i32, y as i32), before.at(x, y))
}

/// Whether `rules` may answer `verdict` about the cell of `before` on
/// which the cell at offset `k` of `sub` lands. Where it lands on none,
/// no rule is asked, and only `Ok` counts as an answer.
pub open spec fn landing_may_return<T, R: Fn((i32, i32), &T) -> Result<(), DasGridError>>(
    before: GridModel<T>,
    dst: (i32, i32),
    sub: GridModel<T>,
    rules: Seq<R>,
    k: int,
    verdict: Result<(), DasGridError>,
) -> bool {
    let (x, y) = landing(dst, sub, k);
    if before.has(x, y) {
        rules_may_return(rules, (x as i32, y as i32), before.at(x, y), verdict)
    } else {
        verdict is Ok
    }
}

/// What stamping `sub` at `dst` under `rules` may do to a grid that was
/// `before`: the answer `res` and the grid `after`.
///
/// On `Ok` every cell of `sub` that lands in the grid was accepted by the
/// rules and copied. On a refusal, the cells of `sub` before the refused
/// one have been copied and stay copied, and no other cell has changed.
pub open spec fn stamp_with_rules_outcome<T, R: Fn((i32, i32), &T) -> Result<(), DasGridError>>(
    before: GridModel<T>,
    dst: (i32, i32),
    sub: GridModel<T>,
    rules: Seq<R>,
    res: Result<(), DasGridError>,
    after: GridModel<T>,
) -> bool {
    if !before.fits(sub.rows, sub.cols) {
        res == Err::<(), DasGridError>(DasGridError::SubgridOverflow) && after == before
    } else if !before.in_bounds(dst) {
        res == Err::<(), DasGridError>(DasGridError::OutOfGrid) && after == before
    } else {
        match res {
            Ok(_) => {
                &&& after == before.stamp(dst, sub)
                &&& forall|k: int|
                    0 <= k < sub.cells.len() ==> #[trigger] landing_may_return(
                        before,
                        dst,
                        sub,
                        rules,
                        k,
                        Ok(()),
                    )
            },
            Err(e) => exists|n: int|
                {
                    &&& 0 <= n < sub.cells.len()
                    &&& after == before.stamp_first(dst, sub, n)
                    &&& #[trigger] landing_may_return(before, dst, sub, rules, n, Err(e))
                    &&& forall|k: int|
                        0 <= k < n ==> #[trigger] landing_may_return(
                            before,
                            dst,
                            sub,
                            rules,
                            k,
                            Ok(()),
                        )
                },
        }
    }
}

impl<T: Copy> Grid<T> {
    /// The cell that lies `offset` away from `origin`, if the grid has it.
    fn shifted(&self, origin: (i32, i32), offset: (i32, i32)) -> (res: Option<(i32, i32)>)
        requires
            self.wf(),
            self@.in_bounds(origin),
            offset.0 >= 0,
            offset.1 >= 0,
        ensures
            match res {
                Some(p) => {
                    &&& p.0 == origin.0 + offset.0
                    &&& p.1 == origin.1 + offset.1
                    &&& self@.in_bounds(p)
                },
                None => !self@.has(origin.0 + offset.0, origin.1 + offset.1),
            },
    {
        if offset.0 < self.rows() - origin.0 && offset.1 < self.cols() - origin.1 {
            Some((origin.0 + offset.0, origin.1 + offset.1))
        } else {
            None
        }
    }

    /// Copies every cell of `sub_grid` into this grid, the cell `(x, y)`
    /// onto the cell `(dst.0 + x, dst.1 + y)`. A cell that would land
    /// outside this grid is dropped without an error.
    pub fn stamp_subgrid(&mut self, dst: (i32, i32), sub_grid: &Grid<T>) -> (res: Result<
        (),
        DasGridError,
    >)
        requires
            old(self).wf(),
            sub_grid.wf(),
        ensures
            final(self).wf(),
            if !old(self)@.fits(sub_grid@.rows, sub_grid@.cols) {
                res == Err::<(), DasGridError>(DasGridError::SubgridOverflow) && final(self)@
                    == old(self)@
            } else if !old(self)@.in_bounds(dst) {
                res == Err::<(), DasGridError>(DasGridError::OutOfGrid) && final(self)@ == old(
                    self,
                )@
            } else {
                res is Ok && final(self)@ == old(self)@.stamp(dst, sub_grid@)
            },
    {
        self.check_grid_overflow(sub_grid)?;
        self.check_grid_bounds(dst)?;
        let ghost before = self@;
        let coords = sub_grid.enumerate();
        let mut k: usize = 0;
        proof {
            before.lemma_stamp_first_none(dst, sub_grid@);
        }
        while k < coords.len()
            invariant
                self.wf(),
                sub_grid.wf(),
                before.wf(),
                before.in_bounds(dst),
                coords@ == sub_grid@.enumerate(),
                k <= coords@.len(),
                self@ == before.stamp_first(dst, sub_grid@, k as int),
            decreases coords@.len() - k,
        {
            let (x, y) = coords[k];
            proof {
                sub_grid@.lemma_index_of_coord(k as int);
                before.lemma_stamp_first_next(dst, sub_grid@, k as int);
            }
            if let Ok(subv) = sub_grid.get((x, y)) {
                if let Some(dest) = self.shifted(dst, (x, y)) {
                    let _ = self.set(dest, subv);
                }
            }
            k += 1;
        }
        Ok(())
    }

    /// Copies the cells of `sub_grid` into this grid in storage order, the
    /// cell `(x, y)` onto the cell `(dst.0 + x, dst.1 + y)`, asking the
    /// rules about the value that each destination holds before it is
    /// overwritten. A cell that would land outside this grid is dropped.
    ///
    /// The first refusal ends the stamp and is returned. The cells copied
    /// before it stay copied.
    pub fn stamp_subgrid_with_rules<R>(
        &mut self,
        dst: (i32, i32),
        sub_grid: Grid<T>,
        rules: Vec<R>,
    ) -> (res: Result<(), DasGridError>) where R: Fn((i32, i32), &T) -> Result<(), DasGridError>
        requires
            old(self).wf(),
            sub_grid.wf(),
            old(self)@.fits(sub_grid@.rows, sub_grid@.cols) && old(self)@.in_bounds(dst)
                ==> forall|k: int|
                0 <= k < sub_grid@.cells.len() ==> #[trigger] landing_may_be_asked(
                    old(self)@,
                    dst,
                    sub_grid@,
                    rules@,
                    k,
                ),
        ensures
            final(self).wf(),
            stamp_with_rules_outcome(old(self)@, dst, sub_grid@, rules@, res, final(self)@),
    {
        self.check_grid_overflow(&sub_grid)?;
        self.check_grid_bounds(dst)?;
        let ghost before = self@;
        let coords = sub_grid.enumerate();
        let mut k: usize = 0;
        proof {
            before.lemma_stamp_first_none(dst, sub_grid@);
        }
        while k < coords.len()
            invariant
                self.wf(),
                sub_grid.wf(),
                before.wf(),
                before.in_bounds(dst),
                before.fits(sub_grid@.rows, sub_grid@.cols),
                before == old(self)@,
                coords@ == sub_grid@.enumerate(),
                k <= coords@.len(),
                self@ == before.stamp_first(dst, sub_grid@, k as int),
                forall|j: int|
                    0 <= j < sub_grid@.cells.len() ==> #[trigger] landing_may_be_asked(
                        before,
                        dst,
                        sub_grid@,
                        rules@,
                        j,
                    ),
                forall|j: int|
                    0 <= j < k ==> #[trigger] landing_may_return(
                        before,
                        dst,
                        sub_grid@,
                        rules@,
                        j,
                        Ok(()),
                    ),
            decreases coords@.len() - k,
        {
            let (x, y) = coords[k];
            proof {
                sub_grid@.lemma_index_of_coord(k as int);
                before.lemma_stamp_first_next(dst, sub_grid@, k as int);
                assert(landing_may_be_asked(before, dst, sub_grid@, rules@, k as int));
            }
            if let Ok(subv) = sub_grid.get((x, y)) {
                if let Some(dest) = self.shifted(dst, (x, y)) {
                    let destv = *self.get(dest)?;
                    match check_rules(&rules, dest, &destv) {
                        Ok(_) => {},
                        Err(e) => {
                            assert(landing_may_return(
                                before,
                                dst,
                                sub_grid@,
                                rules@,
                                k as int,
                                Err(e),
                            ));
                            return Err(e);
                        },
                    }
                    let _ = self.set(dest, subv);
                }
            }
            assert(landing_may_return(before, dst, sub_grid@, rules@, k as int, Ok(())));
            k += 1;
        }
        Ok(())
    }

    /// Writes `value` to every cell of the rectangle of `frame_size.0` by
    /// `frame_size.1` cells anchored at `dst`, dropping what lies outside
    /// the grid, and returns a fresh grid of that shape, filled with the
    /// default value.
    pub fn fill_subgrid(&mut self, dst: (i32, i32), frame_size: (i32, i32), value: &T) -> (res:
        Result<Grid<T>, DasGridError>)
        requires
            old(self).wf(),
            frame_size.0 > 0,
            frame_size.1 > 0,
        ensures
            final(self).wf(),
            if !old(self)@.in_bounds(dst) {
                res is Err && res->Err_0 == DasGridError::OutOfGrid && final(self)@ == old(self)@
            } else if !old(self)@.fits(frame_size.0 as int, frame_size.1 as int) {
                res is Err && res->Err_0 == DasGridError::SubgridOverflow && final(self)@ == old(
                    self,
                )@
            } else {
                &&& res is Ok
                &&& res->Ok_0.wf()
                &&& res->Ok_0@ == GridModel::filled(
                    frame_size.0 as int,
                    frame_size.1 as int,
                    old(self)@.cell_size,
                    old(self)@.default_value,
                )
                &&& final(self)@ == old(self)@.fill_region(
                    dst,
                    frame_size.0 as int,
                    frame_size.1 as int,
                    *value,
                )
            },
    {
        self.check_grid_bounds(dst)?;
        self.check_frame_overflow(frame_size.0, frame_size.1)?;
        proof {
            lemma_region_size(self@, frame_size.0 as int, frame_size.1 as int);
        }
        let sub_grid = Grid::new(frame_size, self.get_cell_size(), self.default_value());
        let ghost before = self@;
        let ghost ink = GridModel::filled(
            frame_size.0 as int,
            frame_size.1 as int,
            before.cell_size,
            *value,
        );
        let coords = sub_grid.enumerate();
        let mut k: usize = 0;
        proof {
            before.lemma_stamp_first_none(dst, ink);
        }
        while k < coords.len()
            invariant
                self.wf(),
                ink.wf(),
                before.wf(),
                before.in_bounds(dst),
                ink == GridModel::filled(
                    frame_size.0 as int,
                    frame_size.1 as int,
                    before.cell_size,
                    *value,
                ),
                coords@ == ink.enumerate(),
                k <= coords@.len(),
                self@ == before.stamp_first(dst, ink, k as int),
            decreases coords@.len() - k,
        {
            let sub_index = coords[k];
            proof {
                ink.lemma_index_of_coord(k as int);
                before.lemma_stamp_first_next(dst, ink, k as int);
            }
            if let Some(dest) = self.shifted(dst, sub_index) {
                let _ = self.set(dest, value);
            }
            k += 1;
        }
        Ok(sub_grid)
    }

    /// A fresh grid of `rows` by `cols` cells that copies the rectangle of
    /// this grid anchored at `src`. A cell of the new grid that lies over
    /// no cell of this grid holds the default value.
    pub fn get_subgrid(&self, src: (i32, i32), rows: i32, cols: i32) -> (res: Result<
        Grid<T>,
        DasGridError,
    >)
        requires
            self.wf(),
            rows > 0,
            cols > 0,
        ensures
            if !self@.in_bounds(src) {
                res is Err && res->Err_0 == DasGridError::OutOfGrid
            } else if !self@.fits(rows as int, cols as int) {
                res is Err && res->Err_0 == DasGridError::SubgridOverflow
            } else {
                &&& res is Ok
                &&& res->Ok_0.wf()
                &&& res->Ok_0@ == self@.subgrid(src, rows as int, cols as int)
            },
    {
        self.check_grid_bounds(src)?;
        self.check_frame_overflow(rows, cols)?;
        proof {
            lemma_region_size(self@, rows as int, cols as int);
        }
        let mut sub_grid = Grid::new((rows, cols), self.get_cell_size(), self.default_value());
        let ghost wanted = self@.subgrid(src, rows as int, cols as int);
        let coords = sub_grid.enumerate();
        let mut k: usize = 0;
        while k < coords.len()
            invariant
                self.wf(),
                self@.in_bounds(src),
                sub_grid.wf(),
                wanted == self@.subgrid(src, rows as int, cols as int),
                sub_grid@.rows == rows,
                sub_grid@.cols == cols,
                sub_grid@.cell_size == self@.cell_size,
                sub_grid@.default_value == self@.default_value,
                sub_grid@.cells.len() == wanted.cells.len(),
                coords@ == sub_grid@.enumerate(),
                k <= coords@.len(),
                forall|j: int| 0 <= j < k ==> sub_grid@.cells[j] == wanted.cells[j],
                forall|j: int|
                    k <= j < sub_grid@.cells.len() ==> sub_grid@.cells[j] == self@.default_value,
            decreases coords@.len() - k,
        {
            let (x, y) = coords[k];
            proof {
                sub_grid@.lemma_index_of_coord(k as int);
            }
            if let Some(dest) = self.shifted(src, (x, y)) {
                if let Ok(subv) = self.get(dest) {
                    let _ = sub_grid.set((x, y), subv);
                }
            }
            k += 1;
        }
        assert(sub_grid@.cells =~= wanted.cells);
        Ok(sub_grid)
    }
}

/// A region that fits in a grid has no more cells than the grid.
proof fn lemma_region_size<T>(grid: GridModel<T>, rows: int, cols: int)
    requires
        grid.wf(),
        rows > 0,
        cols > 0,
        grid.fits(rows, cols),
    ensures
        0 < rows * cols <= grid.cells.len(),
{
    assert(0 < rows * cols <= grid.rows * grid.cols) by (nonlinear_arith)
        requires
            0 < rows <= grid.rows,
            0 < cols <= grid.cols,
    ;
}

} // verus!
