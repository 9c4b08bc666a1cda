//! Governance: role-scoped guidance parsed from an `AGENTS.md`-style
//! master manifest, role routing, and per-role tool restrictions.

pub mod roles;
pub mod parser;
pub mod config;
pub mod guidance;
pub mod node;
pub mod routing;
pub mod symlinks;
pub mod validator;
pub mod discovery;
