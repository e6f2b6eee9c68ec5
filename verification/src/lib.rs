//! A content-addressable index for a local media library.
//!
//! The library computes a stable 128-bit content identifier for each file
//! (a two-level chunked digest), caches entities fetched from a remote
//! catalog under their remote-assigned keys, and keeps a path index that
//! recognizes moved files without rehashing and prunes entries whose
//! backing file has disappeared.

pub mod entity;
pub mod facade;
pub mod hash;
pub mod path_index;
pub mod reconcile;
pub mod store;
