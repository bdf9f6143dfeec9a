//! Core logic of a wind-alert monitor: a compass-sector membership test, a
//! debounced hysteresis state machine over wind observations, and an
//! incremental window that turns overlapping snapshot polls into a single
//! chronologically ordered, at-most-once observation stream.

pub mod parser;
pub mod sector;
pub mod tracker;
pub mod window;

pub use sector::Sector;
pub use tracker::WindState;
pub use tracker::WindTracker;
