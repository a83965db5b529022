//! The entity store, the tables of what entities carry, and the stages that
//! run over them.

pub mod census;
pub mod entity;
pub mod lifetime;
pub mod systems;
pub mod table;
pub mod tick;
pub mod world;

pub use entity::{EntityId, EntityStore, Slot};
pub use systems::{
    AntennaReceiverSystem, Detection, DopplerShiftSystem, Encounter, InteractionDetection, JammingSystem, Movement, RCSSystem,
    ReflectionSystem, TransmitSignal,
};
pub use table::Table;
pub use tick::{
    advance_tick, begin_tick, conclude_tick, gather_hits, illuminate, resolve, Illuminated, Strike,
    TickReport,
};
pub use world::{Command, Commit, Snapshot, World};
