//! An indexed record store for events: a primary store keyed by a
//! caller-chosen id, an ordered roster of live ids, an index from creator to
//! the ids they created, and a fixed set of administrators.
pub mod keyed;
pub mod laws;
pub mod manager;
pub mod record;

pub use manager::EventManager;
pub use record::{Event, EventUpdate, EventUpdateResult, ManagerError};
