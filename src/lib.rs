//! Identity-graph crawling core: the domain model, an upserting graph store,
//! the per-source processing of upstream replies and the traversal engine.

pub mod config;
pub mod model;
pub mod util;
pub mod graph;
pub mod upstream;
pub mod engine;
