//! Tool execution policy for autonomous agents.

pub mod policy;
pub mod sandbox;
