//! The shell.

use vstd::prelude::*;

use crate::backend::{build_backend_process_spec, workspace_process, BackendKind, BackendSpec};
use crate::terminal::process::{ProcessSpec, ProcessView};
use crate::text::texts;
use crate::workspace::Workspace;

verus! {

pub const SHELL_WRAPPER_SOURCE: &'static str =
    "stty -ixon < /dev/tty 2>/dev/null || true; exec \"$1\"";

pub const SHELL_WRAPPER_ARG0: &'static str = "ami-code-shell-wrapper";

#[derive(Debug)]
pub struct ShellBackend {
    pub program: String,
}

/// The shell of the user, or `sh` where none is known.
pub open spec fn chosen_shell(shell: Option<Seq<char>>) -> Seq<char> {
    match shell {
        Some(program) => program,
        None => "sh"@,
    }
}

impl ShellBackend {
    /// `shell` is what the environment names.
    pub fn system_default(shell: Option<&str>) -> (backend: ShellBackend)
        ensures
            backend.program@ == chosen_shell(
                match shell {
                    Some(program) => Some(program@),
                    None => None,
                },
            ),
    {
        match shell {
            Some(program) => ShellBackend { program: program.to_owned() },
            None => ShellBackend { program: "sh".to_owned() },
        }
    }
}

impl BackendSpec for ShellBackend {
    open spec fn spec_kind(&self) -> BackendKind {
        BackendKind::Shell
    }

    open spec fn spec_name(&self) -> Seq<char> {
        "shell"@
    }

    /// The shell is a positional argument to fixed source and never part of it.
    /// The source turns flow control off on the embedded terminal.
    open spec fn spec_process(&self, root: Seq<u8>) -> ProcessView {
        ProcessView {
            program: "/bin/sh"@,
            args: seq!["-c"@, SHELL_WRAPPER_SOURCE@, SHELL_WRAPPER_ARG0@, self.program@],
            ..workspace_process(self.program@, "shell"@, root)
        }
    }

    fn kind(&self) -> (kind: BackendKind) {
        BackendKind::Shell
    }

    fn display_name(&self) -> (name: &str) {
        "shell"
    }

    fn process_spec(&self, workspace: &Workspace) -> (process: ProcessSpec) {
        let chosen = build_backend_process_spec(
            self.program.as_str(),
            self.display_name(),
            workspace,
        );
        let args: Vec<String> = vec![
            "-c".to_owned(),
            SHELL_WRAPPER_SOURCE.to_owned(),
            SHELL_WRAPPER_ARG0.to_owned(),
            self.program.clone(),
        ];
        assert(texts(args@) =~= seq![
            "-c"@,
            SHELL_WRAPPER_SOURCE@,
            SHELL_WRAPPER_ARG0@,
            self.program@,
        ]);
        ProcessSpec {
            program: "/bin/sh".to_owned(),
            args,
            env: chosen.env,
            cwd: chosen.cwd,
            display_name: chosen.display_name,
        }
    }
}

/// What the shell is called does not change what `/bin/sh` is told to do.
pub proof fn shells_are_never_interpolated(
    first: ShellBackend,
    second: ShellBackend,
    root: Seq<u8>,
)
    ensures
        first.spec_process(root).program == second.spec_process(root).program,
        first.spec_process(root).args.take(3) == second.spec_process(root).args.take(3),
        first.spec_process(root).args.last() == first.program@,
        first.spec_process(root).args.len() == 4,
{
    assert(first.spec_process(root).args.take(3) =~= second.spec_process(root).args.take(3));
}

/// The shell that the environment names runs in the workspace, under one name
/// whatever it is; without one it is `sh`.
pub proof fn shells_run_in_the_workspace(backend: ShellBackend, named: Seq<char>, root: Seq<u8>)
    ensures
        chosen_shell(Some(named)) == named,
        chosen_shell(None) == "sh"@,
        backend.spec_process(root).cwd == Some(root),
        backend.spec_process(root).display_name == "shell"@,
        backend.spec_process(root).args[0] == "-c"@,
        backend.spec_process(root).args[3] == backend.program@,
        backend.spec_process(root).env.dom().contains("TERM"@),
        backend.spec_process(root).env["TERM"@] == "xterm-256color"@,
{
}

} // verus!
