use vstd::prelude::*;

verus! {

/// The ways in which a grid operation can be refused.
#[derive(Debug, Clone, Copy, PartialEq, Eq, Structural)]
pub enum DasGridError {
    /// A coordinate lies outside the grid.
    OutOfGrid,
    /// A caller-supplied rule rejected the update.
    RuleFailed,
    /// A region is larger than the grid it is applied to.
    SubgridOverflow,
    /// No value was found at a position that passed the bounds check.
    ValueNotFound,
}

} // verus!
