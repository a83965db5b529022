//! The data that an entity can carry.

pub mod antenna;
pub mod em_wave;
pub mod illumination;
pub mod position;
pub mod rcs;
pub mod target_illumination;
pub mod velocity;

pub use antenna::Antenna;
pub use em_wave::EMWave;
pub use illumination::Illumination;
pub use position::Position;
pub use rcs::{ProfileError, RcsModel, RCS};
pub use target_illumination::TargetIllumination;
pub use velocity::Velocity;
