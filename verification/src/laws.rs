use vstd::prelude::*;
use crate::direction::MoveDirection;
use crate::error::DasGridError;
use crate::model::GridModel;

verus! {

/// A cell that was written reads back as the value written, and every
/// other cell reads as before.
pub proof fn lemma_get_after_set<T>(grid: GridModel<T>, p: (i32, i32), value: T, q: (i32, i32))
    requires
        grid.wf(),
        grid.in_bounds(p),
    ensures
        grid.set(p, value).wf(),
        grid.set(p, value).get(p) == Ok::<T, DasGridError>(value),
        q != p ==> grid.set(p, value).get(q) == grid.get(q),
{
    grid.lemma_index_in_range(p);
    if q != p && grid.in_bounds(q) {
        grid.lemma_index_in_range(q);
        grid.lemma_coord_of_index(p);
        grid.lemma_coord_of_index(q);
    }
}

/// Outside the grid a read is refused with `OutOfGrid` and a write
/// changes nothing.
pub proof fn lemma_outside_is_refused<T>(grid: GridModel<T>, p: (i32, i32), value: T)
    requires
        grid.wf(),
        !grid.in_bounds(p),
    ensures
        grid.get(p) == Err::<T, DasGridError>(DasGridError::OutOfGrid),
        grid.set(p, value) == grid,
{
}

/// A filled grid has `rows * cols` cells, and each of them holds the
/// default value.
pub proof fn lemma_filled<T>(
    rows: int,
    cols: int,
    cell_size: (u32, u32),
    default_value: T,
    p: (i32, i32),
)
    requires
        0 < rows <= i32::MAX,
        0 < cols <= i32::MAX,
    ensures
        GridModel::filled(rows, cols, cell_size, default_value).wf(),
        GridModel::filled(rows, cols, cell_size, default_value).cells.len() == rows * cols,
        GridModel::filled(rows, cols, cell_size, default_value).in_bounds(p) ==> GridModel::filled(
            rows,
            cols,
            cell_size,
            default_value,
        ).get(p) == Ok::<T, DasGridError>(default_value),
{
    let grid = GridModel::filled(rows, cols, cell_size, default_value);
    assert(rows * cols > 0) by (nonlinear_arith)
        requires
            rows > 0,
            cols > 0,
    ;
    if grid.in_bounds(p) {
        grid.lemma_index_in_range(p);
    }
}

/// After a move the destination holds what the source held, the source
/// holds the default value unless it is the destination, and every other
/// cell is as before. A move of a cell onto itself changes nothing.
pub proof fn lemma_mov<T>(grid: GridModel<T>, src: (i32, i32), dst: (i32, i32), q: (i32, i32))
    requires
        grid.wf(),
        grid.in_bounds(src),
        grid.in_bounds(dst),
    ensures
        grid.mov(src, dst).wf(),
        grid.mov(src, dst).get(dst) == grid.get(src),
        src != dst ==> grid.mov(src, dst).get(src) == Ok::<T, DasGridError>(grid.default_value),
        src == dst ==> grid.mov(src, dst) == grid,
        q != src && q != dst ==> grid.mov(src, dst).get(q) == grid.get(q),
{
    let cleared = grid.set(src, grid.default_value);
    lemma_get_after_set(grid, src, grid.default_value, q);
    lemma_get_after_set(grid, src, grid.default_value, dst);
    lemma_get_after_set(cleared, dst, grid.cell(src), q);
    lemma_get_after_set(cleared, dst, grid.cell(src), src);
    if src == dst {
        grid.lemma_index_in_range(src);
        assert(grid.mov(src, dst).cells =~= grid.cells);
    }
}

/// Whether two grids have the same dimensions, cell size, default value
/// and number of cells.
pub open spec fn same_shape<T>(a: GridModel<T>, b: GridModel<T>) -> bool {
    &&& a.rows == b.rows
    &&& a.cols == b.cols
    &&& a.cell_size == b.cell_size
    &&& a.default_value == b.default_value
    &&& a.cells.len() == b.cells.len()
}

/// No operation on the cells changes the dimensions, the cell size or the
/// default value of a grid, nor the number of its cells.
pub proof fn lemma_shape_is_kept<T>(
    grid: GridModel<T>,
    p: (i32, i32),
    q: (i32, i32),
    value: T,
    sub: GridModel<T>,
    n: int,
)
    requires
        grid.wf(),
    ensures
        same_shape(grid, grid.set(p, value)),
        same_shape(grid, grid.fill(value)),
        same_shape(grid, grid.mov(p, q)),
        same_shape(grid, grid.stamp_first(p, sub, n)),
        same_shape(grid, grid.stamp(p, sub)),
        same_shape(grid, grid.fill_region(p, sub.rows, sub.cols, value)),
{
    if grid.in_bounds(p) {
        grid.lemma_index_in_range(p);
        if grid.in_bounds(q) {
            grid.set(p, grid.default_value).lemma_index_in_range(q);
        }
    }
}

/// A step off an edge of the grid leaves the grid.
pub proof fn lemma_step_off_edge<T>(grid: GridModel<T>, src: (i32, i32), direction: MoveDirection)
    requires
        grid.wf(),
        grid.in_bounds(src),
        match direction {
            MoveDirection::Right => src.1 == grid.cols - 1,
            MoveDirection::Left => src.1 == 0,
            MoveDirection::Up => src.0 == 0,
            MoveDirection::Down => src.0 == grid.rows - 1,
        },
    ensures
        !grid.in_bounds(GridModel::<T>::step(src, direction)),
{
}

/// A step away from an edge stays in the grid and changes one coordinate
/// by one.
pub proof fn lemma_step_inside<T>(grid: GridModel<T>, src: (i32, i32), direction: MoveDirection)
    requires
        grid.wf(),
        grid.in_bounds(src),
        match direction {
            MoveDirection::Right => src.1 < grid.cols - 1,
            MoveDirection::Left => src.1 > 0,
            MoveDirection::Up => src.0 > 0,
            MoveDirection::Down => src.0 < grid.rows - 1,
        },
    ensures
        grid.in_bounds(GridModel::<T>::step(src, direction)),
        GridModel::<T>::step(src, direction).0 == src.0 + direction.spec_offset().0,
        GridModel::<T>::step(src, direction).1 == src.1 + direction.spec_offset().1,
{
}

/// The enumeration lists each coordinate of the grid once: it has
/// `rows * cols` elements, the element `i` is in the grid and addresses
/// the cell at offset `i`, and two elements at different places differ.
pub proof fn lemma_enumerate_is_exact<T>(grid: GridModel<T>, i: int, j: int)
    requires
        grid.wf(),
        0 <= i < grid.rows * grid.cols,
        0 <= j < grid.rows * grid.cols,
    ensures
        grid.enumerate().len() == grid.rows * grid.cols,
        grid.in_bounds(grid.enumerate()[i]),
        grid.index(grid.enumerate()[i]) == i,
        i != j ==> grid.enumerate()[i] != grid.enumerate()[j],
{
    grid.lemma_index_of_coord(i);
    grid.lemma_index_of_coord(j);
}

/// The enumeration holds every coordinate of the grid, at the offset of
/// its cell.
pub proof fn lemma_enumerate_covers<T>(grid: GridModel<T>, p: (i32, i32))
    requires
        grid.wf(),
        grid.in_bounds(p),
    ensures
        0 <= grid.index(p) < grid.enumerate().len(),
        grid.enumerate()[grid.index(p)] == p,
{
    grid.lemma_index_in_range(p);
    grid.lemma_coord_of_index(p);
}

/// A cell of a stamped grid holds the cell of the stamp that landed on
/// it, and what it held before where none did. The cells of the stamp
/// that land outside the grid change nothing.
pub proof fn lemma_stamp_cell<T>(
    grid: GridModel<T>,
    dst: (i32, i32),
    sub: GridModel<T>,
    p: (i32, i32),
)
    requires
        grid.wf(),
        sub.wf(),
        grid.in_bounds(p),
    ensures
        grid.stamp(dst, sub).wf(),
        grid.stamp(dst, sub).get(p) == if sub.has(p.0 - dst.0, p.1 - dst.1) {
            Ok::<T, DasGridError>(sub.at(p.0 - dst.0, p.1 - dst.1))
        } else {
            grid.get(p)
        },
{
    lemma_stamp_first_cell(grid, dst, sub, sub.cells.len() as int, p);
    let x = p.0 - dst.0;
    let y = p.1 - dst.1;
    if sub.has(x, y) {
        sub.lemma_offset(x, y);
    }
}

/// A cell of a grid that was stamped in part holds the cell of the stamp
/// that landed on it if that is one of the first `n` in storage order,
/// and what it held before if not.
pub proof fn lemma_stamp_first_cell<T>(
    grid: GridModel<T>,
    dst: (i32, i32),
    sub: GridModel<T>,
    n: int,
    p: (i32, i32),
)
    requires
        grid.wf(),
        sub.wf(),
        grid.in_bounds(p),
    ensures
        grid.stamp_first(dst, sub, n).wf(),
        grid.stamp_first(dst, sub, n).get(p) == if sub.has(p.0 - dst.0, p.1 - dst.1) && (p.0
            - dst.0) * sub.cols + (p.1 - dst.1) < n {
            Ok::<T, DasGridError>(sub.at(p.0 - dst.0, p.1 - dst.1))
        } else {
            grid.get(p)
        },
{
    grid.lemma_offset(p.0 as int, p.1 as int);
}

/// Rows and columns cross where they should: the element `y` of the row
/// `x` is the element `x` of the column `y`, and both are the cell
/// `(x, y)`. A row has one element per column, a column one per row.
pub proof fn lemma_row_col_agree<T>(grid: GridModel<T>, p: (i32, i32))
    requires
        grid.wf(),
        grid.in_bounds(p),
    ensures
        grid.row(p.0 as int).len() == grid.cols,
        grid.col(p.1 as int).len() == grid.rows,
        grid.row(p.0 as int)[p.1 as int] == grid.cell(p),
        grid.col(p.1 as int)[p.0 as int] == grid.cell(p),
{
}

/// A cell of a grid in which a region was filled holds the new value if
/// it lies in the region, and what it held before if not.
pub proof fn lemma_fill_region_cell<T>(
    grid: GridModel<T>,
    dst: (i32, i32),
    rows: int,
    cols: int,
    value: T,
    p: (i32, i32),
)
    requires
        grid.wf(),
        0 < rows <= i32::MAX,
        0 < cols <= i32::MAX,
        grid.in_bounds(p),
    ensures
        grid.fill_region(dst, rows, cols, value).get(p) == if 0 <= p.0 - dst.0 < rows && 0 <= p.1
            - dst.1 < cols {
            Ok::<T, DasGridError>(value)
        } else {
            grid.get(p)
        },
{
    let ink = GridModel::filled(rows, cols, grid.cell_size, value);
    lemma_filled(rows, cols, grid.cell_size, value, p);
    lemma_stamp_cell(grid, dst, ink, p);
    let x = p.0 - dst.0;
    let y = p.1 - dst.1;
    if ink.has(x, y) {
        ink.lemma_offset(x, y);
    }
}

/// The cell `(x, y)` of a subgrid is the cell `(src.0 + x, src.1 + y)` of
/// the grid it was taken from, or the default value where that grid has
/// no such cell.
pub proof fn lemma_subgrid_cell<T>(
    grid: GridModel<T>,
    src: (i32, i32),
    rows: int,
    cols: int,
    x: int,
    y: int,
)
    requires
        grid.wf(),
        0 < rows <= i32::MAX,
        0 < cols <= i32::MAX,
        0 <= x < rows,
        0 <= y < cols,
    ensures
        grid.subgrid(src, rows, cols).wf(),
        grid.subgrid(src, rows, cols).has(x, y),
        grid.subgrid(src, rows, cols).at(x, y) == if grid.has(src.0 + x, src.1 + y) {
            grid.at(src.0 + x, src.1 + y)
        } else {
            grid.default_value
        },
{
    let sub = grid.subgrid(src, rows, cols);
    assert(rows * cols > 0) by (nonlinear_arith)
        requires
            rows > 0,
            cols > 0,
    ;
    sub.lemma_offset(x, y);
}

/// Taking a region out of one grid and stamping it at the same place onto
/// a grid of the same shape gives that grid the region's cells of the
/// first, and leaves its other cells as they were.
pub proof fn lemma_subgrid_then_stamp<T>(
    source: GridModel<T>,
    target: GridModel<T>,
    origin: (i32, i32),
    rows: int,
    cols: int,
    p: (i32, i32),
)
    requires
        source.wf(),
        target.wf(),
        target.rows == source.rows,
        target.cols == source.cols,
        source.in_bounds(origin),
        0 < rows,
        0 < cols,
        source.fits(rows, cols),
        target.in_bounds(p),
    ensures
        target.stamp(origin, source.subgrid(origin, rows, cols)).get(p) == if 0 <= p.0 - origin.0
            < rows && 0 <= p.1 - origin.1 < cols {
            source.get(p)
        } else {
            target.get(p)
        },
{
    let sub = source.subgrid(origin, rows, cols);
    let x = p.0 - origin.0;
    let y = p.1 - origin.1;
    if 0 <= x < rows && 0 <= y < cols {
        lemma_subgrid_cell(source, origin, rows, cols, x, y);
    } else {
        lemma_subgrid_cell(source, origin, rows, cols, 0, 0);
    }
    lemma_stamp_cell(target, origin, sub, p);
}

/// Stamping a region of a grid back onto the grid, at the place it was
/// taken from, restores the grid.
pub proof fn lemma_subgrid_round_trip<T>(
    grid: GridModel<T>,
    origin: (i32, i32),
    rows: int,
    cols: int,
)
    requires
        grid.wf(),
        grid.in_bounds(origin),
        0 < rows,
        0 < cols,
        grid.fits(rows, cols),
    ensures
        grid.stamp(origin, grid.subgrid(origin, rows, cols)) == grid,
{
    let sub = grid.subgrid(origin, rows, cols);
    let stamped = grid.stamp(origin, sub);
    assert forall|i: int| 0 <= i < grid.cells.len() implies stamped.cells[i] == grid.cells[i] by {
        grid.lemma_index_of_coord(i);
        let p = grid.coord(i);
        lemma_subgrid_then_stamp(grid, grid, origin, rows, cols, p);
        assert(stamped.get(p) == grid.get(p));
        assert(stamped.in_bounds(p));
        assert(stamped.cell(p) == grid.cell(p));
    }
    assert(stamped.cells =~= grid.cells);
}

} // verus!
