use crate::fixed::Fixed;
use vstd::prelude::*;

verus! {

/// An emission in flight.  It lives on the entity whose position is its
/// origin and pointing direction, for one tick at most.
#[derive(Clone, Copy, Debug, PartialEq, Eq, Structural)]
pub struct EMWave {
    /// Power, in watts.
    pub power: Fixed,
    /// Wavelength, in metres.
    pub wavelength: Fixed,
    /// Frequency, in hertz.
    pub frequency: Fixed,
    /// Width of the beam in azimuth, in degrees.
    pub azimuth_width: Fixed,
    /// Width of the beam in elevation, in degrees.
    pub elevation_width: Fixed,
}

impl View for EMWave {
    type V = EMWave;

    open spec fn view(&self) -> EMWave {
        *self
    }
}

} // verus!
