//! What a workspace can be told about itself.

use vstd::prelude::*;

verus! {

#[derive(Debug, PartialEq, Eq)]
pub struct WorkspaceConfig {
    pub name: Option<String>,
}

impl Default for WorkspaceConfig {
    fn default() -> (config: WorkspaceConfig)
        ensures
            config.name is None,
    {
        WorkspaceConfig { name: None }
    }
}

} // verus!
