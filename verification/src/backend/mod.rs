//! The programs that run in the panes.

use vstd::prelude::*;
use vstd::utf8::encode_utf8;

use crate::terminal::process::{ProcessSpec, ProcessView};
pub use crate::workbench::pane::BackendKind;
use crate::workspace::Workspace;

pub mod agent;
pub mod editor;
pub mod shell;

verus! {

/// A program for a pane.
pub trait BackendSpec {
    spec fn spec_kind(&self) -> BackendKind;

    spec fn spec_name(&self) -> Seq<char>;

    /// The process in a workspace with the given root.
    spec fn spec_process(&self, root: Seq<u8>) -> ProcessView;

    fn kind(&self) -> (kind: BackendKind)
        ensures
            kind == self.spec_kind(),
    ;

    fn display_name(&self) -> (name: &str)
        ensures
            name@ == self.spec_name(),
    ;

    fn process_spec(&self, workspace: &Workspace) -> (process: ProcessSpec)
        ensures
            process@ == self.spec_process(workspace.root@),
    ;
}

/// A program that runs in the workspace, in a terminal that it knows.
pub open spec fn workspace_process(program: Seq<char>, name: Seq<char>, root: Seq<u8>) -> ProcessView {
    ProcessView {
        program,
        args: Seq::empty(),
        env: Map::<Seq<char>, Seq<char>>::empty().insert("TERM"@, "xterm-256color"@),
        cwd: Some(root),
        display_name: name,
    }
}

pub fn build_backend_process_spec(program: &str, display_name: &str, workspace: &Workspace) -> (
    process: ProcessSpec)
    ensures
        process@ == workspace_process(program@, display_name@, workspace.root@),
{
    ProcessSpec::new(program).display_name(display_name).env("TERM", "xterm-256color").cwd(
        workspace.root().copy(),
    )
}

/// The process of a backend of the kind that the pane is for.
pub fn checked_process_spec<B: BackendSpec>(
    backend: &B,
    expected_kind: BackendKind,
    workspace: &Workspace,
) -> (process: ProcessSpec)
    requires
        backend.spec_kind() == expected_kind,
    ensures
        process@ == backend.spec_process(workspace.root@),
{
    backend.process_spec(workspace)
}

} // verus!
