//! The module graph and the toolchain fingerprint.

pub mod build_types;
pub mod compiler_info;
pub mod namespaces;
pub mod packages;
pub mod tables;
