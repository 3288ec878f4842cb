//! What the graph needs to know of a package's configuration file.

use vstd::prelude::*;

verus! {

/// How the sub-directories of a source folder are treated.
#[derive(Debug, Clone)]
pub enum Subdirs {
    /// All sub-directories belong to the folder when the flag is set.
    Recurse(bool),
    /// Only the listed sub-directories belong to it.
    Qualified(Vec<String>),
}

/// One declared source folder of a package.
#[derive(Debug, Clone)]
pub struct PackageSource {
    /// The folder, relative to the package root.
    pub dir: String,
    pub subdirs: Option<Subdirs>,
}

impl PackageSource {
    /// A folder is watched recursively only when recursion is switched on
    /// explicitly.
    pub open spec fn is_recursive(&self) -> bool {
        self.subdirs == Some(Subdirs::Recurse(true))
    }

    /// Whether the folder is watched recursively.
    pub fn recursive(&self) -> (r: bool)
        ensures
            r == self.is_recursive(),
    {
        match &self.subdirs {
            Some(Subdirs::Recurse(flag)) => *flag,
            _ => false,
        }
    }
}

/// A package's configuration.
#[derive(Debug, Clone)]
pub struct Config {
    pub name: String,
    /// Where the configuration file lies.
    pub path: String,
    pub dependencies: Option<Vec<String>>,
    pub dev_dependencies: Option<Vec<String>>,
}

} // verus!
