//! Installed-package discovery and caching for a Scoop-style package manager.
//!
//! The crate scans a model of the installation directory tree (`apps/<name>/...`),
//! extracts one record per installed package, and keeps the last successful scan
//! in a fingerprint-validated cache so that unchanged state is never re-parsed.
//! All decisions are made here over plain values; the surrounding binary performs
//! the filesystem reads and hands their outcomes in.

pub mod buckets;
pub mod cache;
pub mod dirstate;
pub mod fingerprint;
pub mod jsondoc;
pub mod model;
pub mod probe;
pub mod scan;
pub mod text;
pub mod timefmt;

pub use model::MatchSource;
pub use model::ScoopPackage;
