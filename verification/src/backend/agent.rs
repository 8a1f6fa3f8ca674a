//! The agent, and where its sessions are kept.
//!
//! Configuration and credentials belong to the user's environment; only the
//! session directories are the application's.

use vstd::prelude::*;
use vstd::string::*;
use vstd::utf8::{decode_utf8, encode_utf8, valid_utf8};

use crate::backend::{build_backend_process_spec, workspace_process, BackendKind, BackendSpec};
use crate::digest::{digests_have_their_own_directories, sha256_of};
use crate::path::{joined, FilePath};
use crate::terminal::process::{ProcessSpec, ProcessView};
use crate::text::texts;
use crate::workspace::state_dir::{absolute_from, absolute_path, path_view, Environment, StateDirError};
use crate::workspace::trust::{
    generation, generation_key, generations_tell_directories_apart, workspace_generation_key,
    FilesystemIdentity, WorkspaceTrustState,
};
use crate::workspace::Workspace;

verus! {

/// Part of the storage path; sessions of earlier versions are found there.
pub const LEGACY_PROFILE_VERSION: &'static str = "managed-v1";

#[derive(Debug, Clone, Copy, Default)]
pub struct PiBackend;

impl BackendSpec for PiBackend {
    open spec fn spec_kind(&self) -> BackendKind {
        BackendKind::Agent
    }

    open spec fn spec_name(&self) -> Seq<char> {
        "pi"@
    }

    open spec fn spec_process(&self, root: Seq<u8>) -> ProcessView {
        workspace_process("pi"@, "pi"@, root)
    }

    fn kind(&self) -> (kind: BackendKind) {
        BackendKind::Agent
    }

    fn display_name(&self) -> (name: &str) {
        "pi"
    }

    fn process_spec(&self, workspace: &Workspace) -> (process: ProcessSpec) {
        build_backend_process_spec(self.display_name(), self.display_name(), workspace)
    }
}

#[derive(Debug, Clone, Copy, PartialEq, Eq, Structural)]
pub enum ProfileError {
    State(StateDirError),
    /// The path for state is not text.
    StateNotUtf8,
    /// The path for sessions is not text.
    SessionNotUtf8,
}

impl ProfileError {
    pub open spec fn spec_message(self) -> Seq<char> {
        match self {
            ProfileError::State(StateDirError::NoLocation) =>
                "no native Pi session state location: set AMI_CODE_STATE_DIR, XDG_STATE_HOME, or HOME"@,
            ProfileError::State(StateDirError::NoCurrentDir) =>
                "failed to resolve relative native Pi state path"@,
            ProfileError::StateNotUtf8 => "native Pi state path is not valid UTF-8"@,
            ProfileError::SessionNotUtf8 => "native Pi session path is not valid UTF-8"@,
        }
    }

    pub fn message(self) -> (message: &'static str)
        ensures
            message@ == self.spec_message(),
    {
        match self {
            ProfileError::State(StateDirError::NoLocation) =>
                "no native Pi session state location: set AMI_CODE_STATE_DIR, XDG_STATE_HOME, or HOME",
            ProfileError::State(StateDirError::NoCurrentDir) =>
                "failed to resolve relative native Pi state path",
            ProfileError::StateNotUtf8 => "native Pi state path is not valid UTF-8",
            ProfileError::SessionNotUtf8 => "native Pi session path is not valid UTF-8",
        }
    }
}

/// How the agent is launched, and where its sessions for a workspace are kept.
#[derive(Debug)]
pub struct NativePiProfile {
    pub application_state_root: FilePath,
}

/// A state root as the profile takes it: absolute, and text.
pub open spec fn profile_root(path: Seq<u8>, current_dir: Option<Seq<u8>>) -> Result<
    Seq<u8>,
    ProfileError,
> {
    match absolute_from(path, current_dir) {
        Ok(root) => if valid_utf8(root) {
            Ok(root)
        } else {
            Err(ProfileError::StateNotUtf8)
        },
        Err(error) => Err(ProfileError::State(error)),
    }
}

/// `<root>/pi`
pub open spec fn pi_root(root: Seq<u8>) -> Seq<u8> {
    joined(root, encode_utf8("pi"@))
}

/// `<root>/pi/managed-v1`
pub open spec fn legacy_root(root: Seq<u8>) -> Seq<u8> {
    joined(pi_root(root), encode_utf8(LEGACY_PROFILE_VERSION@))
}

/// `<root>/pi/managed-v1/sessions`
pub open spec fn sessions_root(root: Seq<u8>) -> Seq<u8> {
    joined(legacy_root(root), encode_utf8("sessions"@))
}

/// `<state root>/pi/managed-v1/sessions/<key>`, where the key stands for the
/// directory that a workspace is now.
pub open spec fn sessions_of(
    state_root: Seq<u8>,
    root: Seq<u8>,
    filesystem: FilesystemIdentity,
) -> Seq<u8> {
    joined(sessions_root(state_root), encode_utf8(generation_key(root, filesystem)))
}

/// Whether the agent may act on what the workspace says.
pub open spec fn approval(trust: WorkspaceTrustState) -> Seq<char> {
    match trust {
        WorkspaceTrustState::Trusted => "--approve"@,
        WorkspaceTrustState::Untrusted | WorkspaceTrustState::Stale => "--no-approve"@,
    }
}

pub open spec fn agent_process(
    state_root: Seq<u8>,
    root: Seq<u8>,
    filesystem: FilesystemIdentity,
    trust: WorkspaceTrustState,
) -> ProcessView {
    ProcessView {
        args: seq![
            "--session-dir"@,
            decode_utf8(sessions_of(state_root, root, filesystem)),
            approval(trust),
        ],
        ..workspace_process("pi"@, "pi"@, root)
    }
}

impl NativePiProfile {
    pub fn from_environment(environment: &Environment) -> (profile: Result<
        NativePiProfile,
        ProfileError,
    >)
        ensures
            match environment.spec_state_root() {
                Ok(path) => match profile_root(path, path_view(environment.current_dir)) {
                    Ok(root) => profile matches Ok(p) && p.application_state_root@ == root,
                    Err(error) => profile == Err::<NativePiProfile, _>(error),
                },
                Err(error) => profile == Err::<NativePiProfile, _>(ProfileError::State(error)),
            },
    {
        match environment.application_state_root() {
            Ok(root) => NativePiProfile::new(&root, &environment.current_dir),
            Err(error) => Err(ProfileError::State(error)),
        }
    }

    pub fn new(application_state_root: &FilePath, current_dir: &Option<FilePath>) -> (profile: Result<
        NativePiProfile,
        ProfileError,
    >)
        ensures
            match profile_root(application_state_root@, path_view(*current_dir)) {
                Ok(root) => profile matches Ok(p) && p.application_state_root@ == root,
                Err(error) => profile == Err::<NativePiProfile, _>(error),
            },
    {
        let root = match absolute_path(application_state_root.copy(), current_dir) {
            Ok(root) => root,
            Err(error) => return Err(ProfileError::State(error)),
        };
        match root.to_text() {
            Some(_) => Ok(NativePiProfile { application_state_root: root }),
            None => Err(ProfileError::StateNotUtf8),
        }
    }

    pub fn session_root(&self) -> (path: FilePath)
        ensures
            path@ == sessions_root(self.application_state_root@),
    {
        self.application_state_root.join(&FilePath::from_text("pi")).join(
            &FilePath::from_text(LEGACY_PROFILE_VERSION),
        ).join(&FilePath::from_text("sessions"))
    }

    /// The directory for the sessions of a workspace, which is now the given
    /// directory.
    pub fn session_dir(&self, workspace: &Workspace, filesystem: FilesystemIdentity) -> (path:
        FilePath)
        ensures
            path@ == sessions_of(self.application_state_root@, workspace.root@, filesystem),
    {
        let key = workspace_generation_key(workspace.root(), filesystem);
        self.session_root().join(&FilePath::from_text(key.as_str()))
    }

    /// The directories that must be there before the agent is launched, outer
    /// ones first.
    pub fn private_directories(
        &self,
        workspace: &Workspace,
        filesystem: FilesystemIdentity,
    ) -> (paths: Vec<FilePath>)
        ensures
            paths@.len() == 4,
            paths@[0]@ == pi_root(self.application_state_root@),
            paths@[1]@ == legacy_root(self.application_state_root@),
            paths@[2]@ == sessions_root(self.application_state_root@),
            paths@[3]@ == sessions_of(self.application_state_root@, workspace.root@, filesystem),
    {
        let outer = self.application_state_root.join(&FilePath::from_text("pi"));
        let legacy = outer.join(&FilePath::from_text(LEGACY_PROFILE_VERSION));
        vec![outer, legacy, self.session_root(), self.session_dir(workspace, filesystem)]
    }

    pub fn process_spec_with_trust(
        &self,
        workspace: &Workspace,
        filesystem: FilesystemIdentity,
        trust: WorkspaceTrustState,
    ) -> (process: Result<ProcessSpec, ProfileError>)
        ensures
            process is Ok <==> valid_utf8(
                sessions_of(self.application_state_root@, workspace.root@, filesystem),
            ),
            process matches Ok(p) ==> p@ == agent_process(
                self.application_state_root@,
                workspace.root@,
                filesystem,
                trust,
            ),
            process matches Err(error) ==> error == ProfileError::SessionNotUtf8,
    {
        let directory = match self.session_dir(workspace, filesystem).to_text() {
            Some(text) => text,
            None => return Err(ProfileError::SessionNotUtf8),
        };
        let approve = match trust {
            WorkspaceTrustState::Trusted => "--approve".to_owned(),
            WorkspaceTrustState::Untrusted | WorkspaceTrustState::Stale =>
                "--no-approve".to_owned(),
        };
        let mut process = PiBackend.process_spec(workspace);
        let args: Vec<String> = vec!["--session-dir".to_owned(), directory, approve];
        assert(texts(args@) =~= seq![
            "--session-dir"@,
            decode_utf8(
                sessions_of(self.application_state_root@, workspace.root@, filesystem),
            ),
            approval(trust),
        ]);
        process.args = args;
        Ok(process)
    }
}

/// Trust decides the approval and nothing else of how the agent is launched.
pub proof fn trust_only_controls_approval(
    state_root: Seq<u8>,
    root: Seq<u8>,
    filesystem: FilesystemIdentity,
    trust: WorkspaceTrustState,
    other: WorkspaceTrustState,
)
    ensures
        agent_process(state_root, root, filesystem, trust).args.take(2) == agent_process(
            state_root,
            root,
            filesystem,
            other,
        ).args.take(2),
        (ProcessView { args: Seq::empty(), ..agent_process(state_root, root, filesystem, trust) }) == (
        ProcessView { args: Seq::empty(), ..agent_process(state_root, root, filesystem, other) }),
        agent_process(state_root, root, filesystem, trust).args.last() == "--approve"@ <==> trust
            == WorkspaceTrustState::Trusted,
{
    assert(agent_process(state_root, root, filesystem, trust).args.take(2) =~= agent_process(
        state_root,
        root,
        filesystem,
        other,
    ).args.take(2));
    reveal_strlit("--approve");
    reveal_strlit("--no-approve");
    assert("--approve"@.len() != "--no-approve"@.len());
}

/// A profile can always launch the agent: below a root that is text, the path
/// for sessions is text.
pub proof fn session_paths_are_text(
    state_root: Seq<u8>,
    root: Seq<u8>,
    filesystem: FilesystemIdentity,
)
    requires
        valid_utf8(state_root),
    ensures
        valid_utf8(sessions_of(state_root, root, filesystem)),
{
    text_joins(state_root, "pi"@);
    text_joins(pi_root(state_root), LEGACY_PROFILE_VERSION@);
    text_joins(legacy_root(state_root), "sessions"@);
    text_joins(sessions_root(state_root), generation_key(root, filesystem));
}

/// A workspace has one directory for its sessions as long as it is the same
/// directory at the same path. Workspaces at different paths have directories of
/// their own, and so has one that replaced another at its path, unless their
/// digests happen to be the same.
pub proof fn workspaces_have_their_own_sessions(
    state_root: Seq<u8>,
    left: Seq<u8>,
    left_is: FilesystemIdentity,
    right: Seq<u8>,
    right_is: FilesystemIdentity,
)
    requires
        generation(left, left_is) != generation(right, right_is) ==> sha256_of(
            generation(left, left_is),
        ) != sha256_of(generation(right, right_is)),
    ensures
        sessions_of(state_root, left, left_is) == sessions_of(state_root, right, right_is) <==> left
            == right && left_is == right_is,
{
    if left != right || left_is != right_is {
        if generation(left, left_is) == generation(right, right_is) {
            generations_tell_directories_apart(left, left_is, right, right_is);
        }
        digests_have_their_own_directories(
            sessions_root(state_root),
            generation(left, left_is),
            generation(right, right_is),
        );
    }
}

proof fn text_joins(base: Seq<u8>, name: Seq<char>)
    requires
        valid_utf8(base),
    ensures
        valid_utf8(joined(base, encode_utf8(name))),
{
    vstd::utf8::encode_utf8_valid_utf8(name);
    let slash = seq!['/'];
    vstd::utf8::encode_utf8_valid_utf8(slash);
    vstd::utf8::is_ascii_chars_encode_utf8(slash);
    assert(encode_utf8(slash) =~= seq![crate::path::SLASH]);
    vstd::utf8::valid_utf8_concat(base, encode_utf8(slash));
    vstd::utf8::valid_utf8_concat(base + encode_utf8(slash), encode_utf8(name));
    vstd::utf8::valid_utf8_concat(base, encode_utf8(name));
    assert(base.push(crate::path::SLASH) =~= base + encode_utf8(slash));
}

/// The agent runs in its workspace and is told where its sessions are kept.
pub proof fn agents_are_told_their_sessions(
    state_root: Seq<u8>,
    root: Seq<u8>,
    filesystem: FilesystemIdentity,
    trust: WorkspaceTrustState,
)
    requires
        valid_utf8(state_root),
    ensures
        ({
            let process = agent_process(state_root, root, filesystem, trust);
            &&& process.program == "pi"@
            &&& process.cwd == Some(root)
            &&& process.args.len() == 3
            &&& process.args[0] == "--session-dir"@
            &&& encode_utf8(process.args[1]) == sessions_of(state_root, root, filesystem)
            &&& trust != WorkspaceTrustState::Trusted ==> process.args[2] == "--no-approve"@
            &&& process.env.dom().contains("TERM"@) && process.env["TERM"@] == "xterm-256color"@
        }),
{
    session_paths_are_text(state_root, root, filesystem);
    vstd::utf8::decode_utf8_encode_utf8(sessions_of(state_root, root, filesystem));
}

} // verus!
