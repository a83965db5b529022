//! The stages of a tick.

pub mod antenna_receiver;
pub mod doppler_shift;
pub mod encounter;
pub mod interaction_detection;
pub mod jamming;
pub mod movement;
pub mod rcs;
pub mod reflection;
pub mod transmit_signal;

pub use antenna_receiver::{AntennaReceiverSystem, Detection};
pub use doppler_shift::DopplerShiftSystem;
pub use encounter::Encounter;
pub use interaction_detection::InteractionDetection;
pub use jamming::JammingSystem;
pub use movement::Movement;
pub use rcs::RCSSystem;
pub use reflection::ReflectionSystem;
pub use transmit_signal::TransmitSignal;
