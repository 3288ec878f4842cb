//! Incremental build engine and file-watch coordinator.
//!
//! The crate keeps the module graph of a project (which modules exist, what
//! they depend on, which of them are stale), decides per package whether the
//! artifacts of an earlier build were produced by the same toolchain, and
//! turns batches of filesystem events into a rebuild decision.
//!
//! The functions of the crate carry contracts that Verus proves. What is
//! taken on trust of `ahash`, `regex`, `blake3` and the standard library is
//! kept in small functions that say so. Reading files, watching directories
//! and running the compiler are left to the caller, who hands in what was
//! read and carries out what is decided.

pub mod build;
pub mod cli;
pub mod config;
pub mod escalation;
pub mod filter;
pub mod helpers;
pub mod lock;
pub mod paths;
pub mod project_context;
pub mod sourcedirs;
pub mod text;
pub mod watch_paths;
pub mod watcher;
