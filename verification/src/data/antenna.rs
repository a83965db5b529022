use crate::fixed::Fixed;
use vstd::prelude::*;

verus! {

/// A transmitter and receiver, fixed for the length of a scenario.
#[derive(Clone, Copy, Debug, PartialEq, Eq, Structural)]
pub struct Antenna {
    /// Carrier frequency, in hertz.
    pub frequency: Fixed,
    /// Gain, as a ratio of powers.
    pub gain: Fixed,
    /// Transmitted power, in watts.
    pub power: Fixed,
    /// Carrier wavelength, in metres.
    pub wavelength: Fixed,
    /// Width of the beam in elevation, in degrees.
    pub elevation_beam_width: Fixed,
    /// Width of the beam in azimuth, in degrees.
    pub azimuth_beam_width: Fixed,
}

impl View for Antenna {
    type V = Antenna;

    open spec fn view(&self) -> Antenna {
        *self
    }
}

} // verus!
