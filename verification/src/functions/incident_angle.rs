use crate::data::Position;
use crate::fixed::Fixed;
use crate::functions::units::{FULL_TURN_RAW, HALF_TURN_RAW};
use vstd::prelude::*;

verus! {

/// The line of sight from an emitter to a target: how far the target lies
/// along y and along x.  The arctangent of `dy` over `dx` is the bearing of
/// the target.
#[derive(Clone, Copy, Debug, PartialEq, Eq, Structural)]
pub struct Sightline {
    pub dy: Fixed,
    pub dx: Fixed,
}

/// The line of sight between two positions.
pub open spec fn sightline_between(emitter: Position, target: Position) -> Sightline {
    Sightline { dy: target.y.spec_sub(emitter.y), dx: target.x.spec_sub(emitter.x) }
}

/// The angle of an arctangent: the arctangent itself, moved up by a full
/// turn where it is negative.
pub open spec fn bearing_of(arctangent: Fixed) -> Fixed {
    if arctangent.spec_lt(Fixed { raw: 0 }) {
        (Fixed { raw: FULL_TURN_RAW }).spec_add(arctangent)
    } else {
        arctangent
    }
}

/// The line of sight from `emitter` to `target`.
pub fn sightline(emitter: &Position, target: &Position) -> (line: Sightline)
    ensures
        line == sightline_between(*emitter, *target),
{
    Sightline { dy: target.y.sub(emitter.y), dx: target.x.sub(emitter.x) }
}

/// The angle, in degrees, under which an emitter sees a target, from the
/// arctangent of their line of sight, in degrees.  For an arctangent
/// between -180 and 180 degrees the angle lies in `[0, 360)`.
pub fn incident_angle(arctangent: Fixed) -> (angle: Fixed)
    ensures
        angle == bearing_of(arctangent),
        -HALF_TURN_RAW <= arctangent.raw <= HALF_TURN_RAW ==> 0 <= angle.raw < FULL_TURN_RAW,
{
    if arctangent.lt(Fixed::from_raw(0)) {
        Fixed::from_raw(FULL_TURN_RAW).add(arctangent)
    } else {
        arctangent
    }
}

} // verus!
