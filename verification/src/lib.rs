//! Mutation and query engine for a multi-tenant property graph store.
//!
//! The engine accepts idempotent graph mutations (node creation, property
//! upserts, edge creation) and answers existential pattern-matching queries
//! against the stored graph. Conflict resolution for concurrent writers is
//! lock-free: monotone property kinds encode their value into the write's
//! logical timestamp, so that the store's last-write-wins rule computes the
//! running maximum or minimum. A bounded write-redundancy cache elides writes
//! that provably cannot change stored state, and every forward edge is
//! materialized together with its schema-defined reverse edge.

pub mod allocator;
pub mod bootstrap;
pub mod config;
pub mod laws;
pub mod merger;
pub mod mutation;
pub mod nomad;
pub mod query;
pub mod registry;
pub mod resolver;
pub mod store;
pub mod types;
pub mod work_queue;
pub mod write_dropper;
