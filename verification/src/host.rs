//! The host helper: which eye to fire on which display boundary.

pub mod config;
pub mod eye_queue;
pub mod grid;
pub mod inversion;
pub mod queue_laws;
pub mod queue_slot_laws;
pub mod session;
pub mod session_laws;
pub mod stats;
pub mod target;
