//! Human-in-the-loop controls: approval checkpoints, operator decisions,
//! explanations for operators and an append-only approval audit log.

pub mod policy;
pub mod types;
pub mod explain;
pub mod node;
pub mod intervention;
pub mod timeline;
