//! The engine: which devices there are, and what is being done with them.

pub mod id_map;
pub mod laws;
pub mod registry;
