use crate::data::{Antenna, Position};
use crate::fixed::Fixed;
use crate::functions::units::FULL_TURN_RAW;
use vstd::prelude::*;

verus! {

/// A position one tick later under a scanning antenna: the direction
/// advanced by half the azimuth beam width, modulo a full turn.
pub open spec fn rotated(pos: Position, sen: Antenna) -> Position {
    Position {
        direction: pos.direction.spec_add(sen.azimuth_beam_width.spec_half()).spec_rem(
            Fixed { raw: FULL_TURN_RAW },
        ),
        ..pos
    }
}

/// Turns a position by one tick of the antenna's scan.  A finite direction
/// comes out in `[0, 360)`.
pub fn rotate_entity(pos: &mut Position, sen: &Antenna)
    ensures
        *final(pos) == rotated(*old(pos), *sen),
        final(pos).direction.finite() ==> 0 <= final(pos).direction.raw < FULL_TURN_RAW,
{
    let ghost turned: int = match pos.direction.spec_add(sen.azimuth_beam_width.spec_half())@ {
        Some(v) => v,
        None => 0,
    };
    assert(0 <= turned % (FULL_TURN_RAW as int) < FULL_TURN_RAW);
    pos.direction = pos.direction.add(sen.azimuth_beam_width.halve()).rem(
        Fixed::from_raw(FULL_TURN_RAW),
    );
}

} // verus!
