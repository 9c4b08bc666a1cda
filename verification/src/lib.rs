//! Graph-based agent orchestration: role-scoped governance, routing,
//! tool policy, quality gates, human-in-the-loop approval, memory and
//! planning, with their decision logic verified.

pub mod text;
pub mod governance;
pub mod tools;
pub mod graph;
pub mod kv;
pub mod clock;
pub mod guardrails;
pub mod ranking;
pub mod memory;
pub mod hitl;
pub mod planning;
pub mod nodes;
pub mod runner;
pub mod runtime;
pub mod worker;
pub mod orchestration;
pub mod message;
pub mod state;
pub mod node;
