use crate::fixed::Fixed;
use vstd::prelude::*;

verus! {

/// A velocity, in metres per tick.
#[derive(Clone, Copy, Debug, PartialEq, Eq, Structural)]
pub struct Velocity {
    pub x: Fixed,
    pub y: Fixed,
    pub z: Fixed,
}

impl View for Velocity {
    type V = Velocity;

    open spec fn view(&self) -> Velocity {
        *self
    }
}

} // verus!
