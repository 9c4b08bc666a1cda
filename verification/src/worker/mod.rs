//! Ephemeral worker jobs: their specification, configuration and an
//! in-memory spawner that simulates them.

pub mod memory;
pub mod spec;
pub mod job;
