use crate::data::{Illumination, Velocity};
use crate::fixed::Fixed;
use crate::functions::units::{LIGHT_SPEED_RAW, ONE_RAW, TWO_RAW};
use vstd::prelude::*;

verus! {

/// Speed of a velocity: `sqrt(x² + y² + z²)`.
pub open spec fn speed_of(vel: Velocity) -> Fixed {
    vel.x.spec_mul(vel.x).spec_add(vel.y.spec_mul(vel.y)).spec_add(
        vel.z.spec_mul(vel.z),
    ).spec_sqrt()
}

/// A frequency as a target moving at `vel` returns it, by the closing-range
/// rule `(1 + 2·|v| / c) · f`.
pub open spec fn shifted_frequency(vel: Velocity, frequency: Fixed) -> Fixed {
    (Fixed { raw: ONE_RAW }).spec_add(
        (Fixed { raw: TWO_RAW }).spec_mul(speed_of(vel).spec_div(Fixed { raw: LIGHT_SPEED_RAW })),
    ).spec_mul(frequency)
}

/// The frequency, in hertz, at which a target moving at `vel` returns the
/// hit `illum`.
pub fn doppler_shift(vel: &Velocity, illum: &Illumination) -> (frequency: Fixed)
    ensures
        frequency == shifted_frequency(*vel, illum.frequency),
{
    let tot_vel: Fixed = vel.x.mul(vel.x).add(vel.y.mul(vel.y)).add(vel.z.mul(vel.z)).sqrt();
    let ratio: Fixed = tot_vel.div(Fixed::from_raw(LIGHT_SPEED_RAW));
    Fixed::from_raw(ONE_RAW).add(Fixed::from_raw(TWO_RAW).mul(ratio)).mul(illum.frequency)
}

} // verus!
