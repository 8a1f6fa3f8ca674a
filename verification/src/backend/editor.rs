//! The editor.

use vstd::prelude::*;

use crate::backend::{build_backend_process_spec, workspace_process, BackendKind, BackendSpec};
use crate::terminal::process::{ProcessSpec, ProcessView};
use crate::workspace::Workspace;

verus! {

#[derive(Debug, Clone, Copy, Default)]
pub struct NvimBackend;

impl BackendSpec for NvimBackend {
    open spec fn spec_kind(&self) -> BackendKind {
        BackendKind::Editor
    }

    open spec fn spec_name(&self) -> Seq<char> {
        "nvim"@
    }

    open spec fn spec_process(&self, root: Seq<u8>) -> ProcessView {
        workspace_process("nvim"@, "nvim"@, root)
    }

    fn kind(&self) -> (kind: BackendKind) {
        BackendKind::Editor
    }

    fn display_name(&self) -> (name: &str) {
        "nvim"
    }

    fn process_spec(&self, workspace: &Workspace) -> (process: ProcessSpec) {
        build_backend_process_spec("nvim", self.display_name(), workspace)
    }
}

} // verus!
