//! The constants of the simulation, in raw units of a [`Fixed`].

use vstd::prelude::*;

verus! {

/// A full turn, 360 degrees.
pub const FULL_TURN_RAW: i128 = 360_000_000_000_000;

/// Four times pi.
pub const FOUR_PI_RAW: i128 = 12_566_370_614_359;

/// The speed of light, 299 792 458 metres per second.
pub const LIGHT_SPEED_RAW: i128 = 299_792_458_000_000_000_000;

/// Width of a reflected beam, in azimuth and in elevation: 20 degrees.
pub const REFLECTED_WIDTH_RAW: i128 = 20_000_000_000_000;

/// One whole unit.
pub const ONE_RAW: i128 = 1_000_000_000_000;

/// Two whole units.
pub const TWO_RAW: i128 = 2_000_000_000_000;

/// Half a turn, 180 degrees.
pub const HALF_TURN_RAW: i128 = 180_000_000_000_000;

} // verus!
