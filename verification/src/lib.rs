//! Allocation substrate of a block-structured, garbage-collected heap.
//!
//! The heap hands out object memory in fixed-size blocks carved from larger
//! regions, prefixes every object with a compact metadata header, classifies
//! requests by size into distinct placement strategies, and exposes a shared
//! liveness mark the collector uses to recognise objects already stamped for
//! the collection epoch in progress.
//!
//! Memory is modelled explicitly: addresses are plain `usize` values handed
//! out by the block store, and header memory is a table from header address
//! to header record.  All address and layout arithmetic — alignment, header
//! padding, size classification, bump placement, block accounting — is the
//! verified logic of this crate.

pub mod alignment;
pub mod allocator;
pub mod alloc_head;
pub mod arena;
pub mod block;
pub mod constants;
pub mod error;
pub mod header;
pub mod layout;
pub mod region;
pub mod size_class;
