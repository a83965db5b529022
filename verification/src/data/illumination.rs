use crate::fixed::Fixed;
use vstd::prelude::*;

verus! {

/// One hit of a wave on a target, waiting to be reflected.
#[derive(Clone, Copy, Debug, PartialEq, Eq, Structural)]
pub struct Illumination {
    /// Power density at the target, in watts per square metre.
    pub power: Fixed,
    /// Wavelength of the wave, in metres.
    pub lambda: Fixed,
    /// Frequency of the wave, in hertz.
    pub frequency: Fixed,
    /// Direction back towards the emitter as seen from the target, in degrees.
    pub angle: Fixed,
    /// Reflectivity of the target at that angle, in square metres.
    pub rcs: Fixed,
}

} // verus!
