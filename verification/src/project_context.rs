//! The project a build runs in.

use crate::config::Config;
use vstd::prelude::*;

verus! {

/// The workspace that a build runs in.
#[derive(Debug, Clone)]
pub struct ProjectContext {
    /// The configuration of the package at the root of the workspace.
    pub root_config: Config,
}

impl ProjectContext {
    /// The configuration of the package at the root of the workspace.
    pub fn get_root_config(&self) -> (config: &Config)
        ensures
            *config == self.root_config,
    {
        &self.root_config
    }
}

} // verus!
