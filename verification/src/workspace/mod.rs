//! The directory that the workbench is opened on.

use vstd::prelude::*;

use crate::path::FilePath;

pub mod browsing;
pub mod config;
pub mod git;
pub mod loading;
pub mod order;
pub mod rows;
pub mod session;
pub mod sidebar;
pub mod state_dir;
pub mod tree;
pub mod trust;

verus! {

#[derive(Debug, PartialEq, Eq)]
pub struct Workspace {
    pub root: FilePath,
}

impl Workspace {
    /// The workspace at a root whose path is resolved.
    pub fn at(root: FilePath) -> (workspace: Workspace)
        ensures
            workspace.root == root,
    {
        Workspace { root }
    }

    pub fn root(&self) -> (root: &FilePath)
        ensures
            *root == self.root,
    {
        &self.root
    }
}

} // verus!
