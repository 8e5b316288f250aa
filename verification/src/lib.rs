//! Eviction/expiration bookkeeping core of a bounded in-process cache.
//!
//! The crate provides the multi-queue structure that tracks every cache
//! entry's recency and write time across three policy regions (admission
//! window, probation, protected) plus a write-ordered queue, together with
//! the per-entry back-references that let any entry be relocated or removed
//! from these queues in constant time, and the builder that validates the
//! cache configuration (capacity, segmentation, expirations).

pub mod builder;
pub mod cache;
pub mod deque;
pub mod deques;
pub mod duration;
pub mod entry;
pub mod region;
