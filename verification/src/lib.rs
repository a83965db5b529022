//! A radar engagement, simulated tick by tick.
//!
//! Antennas send out waves, targets reflect them by their radar cross
//! section, and antennas receive what comes back.  A wave is an entity of
//! its own that lives for one tick at most.
//!
//! * [`fixed`] holds the quantities of the simulation: decimal fixed-point
//!   numbers of twelve places, whose arithmetic neither wraps nor panics.
//! * [`data`] holds what an entity can carry: a position, a velocity, an
//!   antenna, a wave, a cross-section profile, a list of hits.
//! * [`functions`] holds the geometry and physics of a single wave.
//! * [`ecs`] holds the entity store, the tables, the stages and the tick.
//!
//! The crate holds no floating point.  The one thing a stage needs that
//! only floating point gives, the arctangent of a line of sight, is handed
//! in by the caller: [`ecs::advance_tick`] takes a function for it, and the
//! two stages that need it take its answers as a list.

pub mod data;
pub mod ecs;
pub mod fixed;
pub mod functions;
