use vstd::prelude::*;
use vstd::std_specs::convert::FromSpecImpl;

verus! {

/// The dimensions of a grid. A pair `(rows, cols)` converts into it.
pub struct FrameSizeParams {
    pub rows: i32,
    pub cols: i32,
}

impl From<(i32, i32)> for FrameSizeParams {
    fn from(frame_size: (i32, i32)) -> (params: Self) {
        let (rows, cols) = frame_size;
        Self { rows, cols }
    }
}

impl FromSpecImpl<(i32, i32)> for FrameSizeParams {
    open spec fn obeys_from_spec() -> bool {
        true
    }

    open spec fn from_spec(frame_size: (i32, i32)) -> Self {
        FrameSizeParams { rows: frame_size.0, cols: frame_size.1 }
    }
}

/// The visual size of one cell, in units that the caller chooses.
///
/// The grid never computes with it: it stores the two numbers and hands
/// them back. Each is kept as the bit pattern of a single-precision
/// number, so that the pair survives unchanged. A pair `(width, height)`
/// of bit patterns converts into it.
pub struct CellSizeParams {
    pub width: u32,
    pub height: u32,
}

impl From<(u32, u32)> for CellSizeParams {
    fn from(cell_size: (u32, u32)) -> (params: Self) {
        let (width, height) = cell_size;
        Self { width, height }
    }
}

impl FromSpecImpl<(u32, u32)> for CellSizeParams {
    open spec fn obeys_from_spec() -> bool {
        true
    }

    open spec fn from_spec(cell_size: (u32, u32)) -> Self {
        CellSizeParams { width: cell_size.0, height: cell_size.1 }
    }
}

} // verus!
