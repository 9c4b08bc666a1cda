//! Built-in nodes: echo, delay, fixed transitions, context routing, quality
//! and risk gates, tool results.

pub mod basic;
pub mod quality;
pub mod tool;
pub mod llm;
pub mod conditional;
