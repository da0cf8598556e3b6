//! A read-only query and lineage engine over a typed metadata store.
//!
//! The store records artifacts, executions, contexts and events; this
//! library counts and retrieves those entities under filter predicates,
//! reconstructs provenance as bounded, deduplicated graphs, and renders
//! the graphs in the DOT language.
#![verifier::loop_isolation(false)]

pub mod dot;
pub mod entity;
pub mod filter;
pub mod graph;
pub mod iograph;
pub mod lineage;
pub mod order;
pub mod query;
pub mod store;
