use vstd::prelude::*;

verus! {

/// The four directions in which a value can be moved by one cell.
#[derive(Debug, Clone, Copy, PartialEq, Eq, Structural)]
pub enum MoveDirection {
    /// One column further: `(0, 1)`.
    Right,
    /// One column back: `(0, -1)`.
    Left,
    /// One row back: `(-1, 0)`.
    Up,
    /// One row further: `(1, 0)`.
    Down,
}

/// The offset of a move to the right.
pub const MOVE_RIGHT: (i32, i32) = (0, 1);

/// The offset of a move to the left.
pub const MOVE_LEFT: (i32, i32) = (0, -1);

/// The offset of a move upwards.
pub const MOVE_UP: (i32, i32) = (-1, 0);

/// The offset of a move downwards.
pub const MOVE_DOWN: (i32, i32) = (1, 0);

impl MoveDirection {
    /// The unit offset that the direction stands for.
    pub open spec fn spec_offset(self) -> (int, int) {
        match self {
            MoveDirection::Right => (0, 1),
            MoveDirection::Left => (0, -1),
            MoveDirection::Up => (-1, 0),
            MoveDirection::Down => (1, 0),
        }
    }

    /// The unit offset that the direction stands for.
    pub fn offset(&self) -> (delta: (i32, i32))
        ensures
            delta.0 == self.spec_offset().0,
            delta.1 == self.spec_offset().1,
    {
        match self {
            MoveDirection::Up => MOVE_UP,
            MoveDirection::Down => MOVE_DOWN,
            MoveDirection::Left => MOVE_LEFT,
            MoveDirection::Right => MOVE_RIGHT,
        }
    }
}

} // verus!
