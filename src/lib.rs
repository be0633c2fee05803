//! Assembly of a repository's storage: a content-addressed blob store with
//! optional cache tiers and a censorship overlay, metadata stores, a lease for
//! deduplicated derivations, and a per-process event log.

pub mod table;
pub mod config;
pub mod pools;
pub mod lease;
pub mod blobstore;
pub mod keys;
pub mod metadata;
pub mod bookmarks;
pub mod repo;
pub mod blackbox;

pub use blackbox::{init, log, sync};
pub use config::Caching;
pub use repo::{new_memblob_empty, open_blobrepo};
