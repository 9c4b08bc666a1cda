//! Planning: goal decomposition into dependent tasks, scheduling, failure
//! propagation and recovery.

pub mod plan;
pub mod scheduler;
pub mod self_healing;
pub mod progress;
pub mod node;
