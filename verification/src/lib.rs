//! Version resolution and synchronization engine for the `cave` version
//! manager.
//!
//! The library validates version requests, resolves floating aliases
//! (`stable`, `testing`) against an upstream tag catalog by content-digest
//! matching, decides whether a version must be fetched, encodes and decodes
//! the persisted resolution record, and reconciles a previously pinned alias
//! against upstream drift. All decision logic is verified; network,
//! filesystem and process work is left to the surrounding application.

pub mod acquire;
pub mod catalog;
pub mod cli;
pub mod config;
pub mod errors;
pub mod listing;
pub mod local;
pub mod reconcile;
pub mod store;
pub mod telemetry;
pub mod text;
pub mod version;
