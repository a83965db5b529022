use crate::data::{Position, Velocity};
use vstd::prelude::*;

verus! {

/// A position one tick later at a velocity: each coordinate moved by the
/// velocity along it, the direction kept.
pub open spec fn moved(pos: Position, vel: Velocity) -> Position {
    Position {
        x: pos.x.spec_add(vel.x),
        y: pos.y.spec_add(vel.y),
        z: pos.z.spec_add(vel.z),
        direction: pos.direction,
    }
}

/// Moves a position by one tick at a velocity.
pub fn move_entity(pos: &mut Position, vel: &Velocity)
    ensures
        *final(pos) == moved(*old(pos), *vel),
{
    pos.x = pos.x.add(vel.x);
    pos.y = pos.y.add(vel.y);
    pos.z = pos.z.add(vel.z);
}

} // verus!
