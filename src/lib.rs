//! Replicated slot engine of a small, leaderless object store: slot placement,
//! per-slot head bookkeeping, part addressing and the decisions of the read,
//! repair and bootstrap paths.

pub mod error;
pub mod digest;
pub mod meta;
pub mod range;
pub mod heads;
pub mod path;
pub mod text;
pub mod registry;
pub mod basic_registry;
pub mod config;
pub mod init_cluster;
pub mod bootstrap;
pub mod read_blob;
pub mod chunk_store;
pub mod write;
pub mod twopc;
pub mod internal_part;
