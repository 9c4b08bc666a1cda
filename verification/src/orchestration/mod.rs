//! Multi-graph orchestration: the bookkeeping of spawned subgraphs and how
//! parallel subgraphs are joined.

pub mod parallel;
pub mod spawner;
pub mod merge;
