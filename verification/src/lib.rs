//! Core of a file-change notification service: a hybrid content hasher, a hash
//! cache with a parent-directory index, an event filter with debouncing, an
//! enricher, a batching pipeline and a fixed-record single-producer /
//! single-consumer ring with a bit-exact byte layout.
//!
//! Paths are byte strings (`Vec<u8>`) with `/` as the separator. Every
//! operation that depends on the clock has a twin that takes the reading as an
//! argument; the twin carries the exact contract.

pub mod bucket;
pub mod cache;
pub mod clock;
pub mod config;
pub mod consumer;
pub mod daemon;
pub mod entropy;
pub mod event;
pub mod filter;
pub mod glob;
pub mod hash;
pub mod header;
pub mod incremental;
pub mod lru;
pub mod maps;
pub mod metrics;
pub mod path;
pub mod patterns;
pub mod pipeline;
pub mod record;
pub mod ring;
pub mod watcher;
pub mod wire;
