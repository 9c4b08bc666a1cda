//! Agent memory: repository retrieval, episodic and decision memory, and
//! budgeted context packing.

pub mod terms;
pub mod document;
pub mod index;
pub mod store;
pub mod pack;
pub mod decision;
pub mod surreal;
