//! Verified core of a podcast feed synchronizer.
//!
//! The library holds the logic that decides what a sync run does: parsing a
//! feed document into episode candidates, reconciling candidates against the
//! persisted episode set, resolving download filenames, the retry/backoff
//! policy for fetches, and the per-episode decisions of the orchestrator.
//! Network, filesystem and database access stay outside the library; callers
//! hand in plain values (documents, stored rows, hashes) and perform the
//! actions the library decides on.

pub mod catalog;
pub mod episode;
pub mod episode_status;
pub mod feed;
pub mod podcast;
pub mod reconcile;
pub mod retry;
pub mod sync;
pub mod identity;
pub mod strutil;
