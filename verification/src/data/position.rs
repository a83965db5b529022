use crate::fixed::Fixed;
use vstd::prelude::*;

verus! {

/// A place, in metres, and a pointing direction, in degrees.
#[derive(Clone, Copy, Debug, PartialEq, Eq, Structural)]
pub struct Position {
    pub x: Fixed,
    pub y: Fixed,
    pub z: Fixed,
    pub direction: Fixed,
}

impl View for Position {
    type V = Position;

    open spec fn view(&self) -> Position {
        *self
    }
}

} // verus!
