//! A fixed-size two-dimensional grid of copyable cells, with verified
//! bounds-checked access, moves, region stamping and rule-checked updates.
//!
//! A cell is addressed by a pair `(x, y)`: `x` is its row, with
//! `0 <= x < rows`, and `y` its column, with `0 <= y < cols`. It lives at
//! offset `x * cols + y` of the flat storage, so the rows follow one
//! another. Every operation of the library uses this one convention.

pub mod direction;
pub mod error;
pub mod grid;
pub mod laws;
pub mod model;
pub mod moves;
pub mod params;
pub mod region;
pub mod rules;
pub mod traverse;

pub use direction::{MoveDirection, MOVE_DOWN, MOVE_LEFT, MOVE_RIGHT, MOVE_UP};
pub use error::DasGridError;
pub use grid::Grid;
pub use model::GridModel;
pub use params::{CellSizeParams, FrameSizeParams};
pub use rules::check_rules;
