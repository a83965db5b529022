use crate::fixed::Fixed;
use crate::functions::units::FOUR_PI_RAW;
use vstd::prelude::*;

verus! {

/// Power per area of a transmission at a range, spread over a sphere:
/// `power / (4π · range²)`.  At range zero it is not finite.
pub open spec fn density_at(power: Fixed, range: Fixed) -> Fixed {
    power.spec_div((Fixed { raw: FOUR_PI_RAW }).spec_mul(range.spec_mul(range)))
}

/// The power density, in watts per square metre, of `power` watts at
/// `range` metres.
pub fn power_density(power: Fixed, range: Fixed) -> (density: Fixed)
    ensures
        density == density_at(power, range),
{
    let sphere: Fixed = Fixed::from_raw(FOUR_PI_RAW).mul(range.mul(range));
    power.div(sphere)
}

} // verus!
