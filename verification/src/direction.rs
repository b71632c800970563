//! Head movement directions.

use vstd::prelude::*;

verus! {

/// The direction the head moves after an instruction fires.
/// There is no "stay" movement: every step moves exactly one cell.
#[derive(Debug, PartialEq, Eq, Clone, Copy, Structural)]
pub enum Direction {
    Left,
    Right,
}

} // verus!
