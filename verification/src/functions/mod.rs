//! Geometry and physics of a single emission.

pub mod calculate_range;
pub mod calculate_rcs;
pub mod check_illumination;
pub mod doppler_shift;
pub mod incident_angle;
pub mod move_entity;
pub mod power_density;
pub mod rotate_entity;
pub mod units;

pub use calculate_range::calculate_range;
pub use calculate_rcs::calculate_rcs;
pub use check_illumination::check_illumination;
pub use doppler_shift::doppler_shift;
pub use incident_angle::{incident_angle, sightline, Sightline};
pub use move_entity::move_entity;
pub use power_density::power_density;
pub use rotate_entity::rotate_entity;
