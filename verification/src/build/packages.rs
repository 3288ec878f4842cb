//! Packages as the graph sees them.

use crate::config::{Config, PackageSource};
use vstd::prelude::*;

verus! {

/// The namespace that a package's modules live in.
#[derive(Debug, Clone)]
pub enum Namespace {
    Namespace(String),
    NamespaceWithEntry { namespace: String, entry: String },
    NoNamespace,
}

/// A named, path-rooted collection of modules.
#[derive(Debug, Clone)]
pub struct Package {
    pub name: String,
    pub config: Config,
    /// The package root.
    pub path: String,
    pub source_folders: Vec<PackageSource>,
    /// The source files of the package, relative to its root, once they
    /// were looked for.
    pub source_files: Option<Vec<String>>,
    /// The directories that hold source files, relative to the package
    /// root, once they were looked for.
    pub dirs: Option<Vec<String>>,
    /// Whether the package is part of the workspace, as opposed to an
    /// installed dependency.
    pub is_local_dep: bool,
    /// Whether the package is the root of the workspace.
    pub is_root: bool,
}

} // verus!
