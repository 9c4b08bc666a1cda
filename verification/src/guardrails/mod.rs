//! Code quality guardrails for autonomous agent workflows.

pub mod findings;
pub mod risk;
pub mod gate;
