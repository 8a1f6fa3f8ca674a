use ami_code::backend::agent::{NativePiProfile, PiBackend, ProfileError};
use ami_code::backend::editor::NvimBackend;
use ami_code::backend::shell::{ShellBackend, SHELL_WRAPPER_ARG0, SHELL_WRAPPER_SOURCE};
use ami_code::backend::{BackendKind, BackendSpec};
use ami_code::path::FilePath;
use ami_code::terminal::process::ProcessSpec;
use ami_code::workspace::state_dir::{
    private_directory, private_file, session_directory, DirectoryAction, Environment, PathProbe,
    PrivatePlace, ProbeError, StateDirError,
};
use ami_code::workspace::trust::{FilesystemIdentity, WorkspaceTrustState};
use ami_code::workspace::Workspace;

fn workspace() -> Workspace {
    Workspace::at(FilePath::from_text("/work"))
}

/// The sessions of the workspace while it is the directory 2 on device 1.
const SESSIONS: &str = "/state/pi/managed-v1/sessions/\
    a4012eba3915e36d541d6b73000975ceb1bb17f497bc22bc901290ca9e7f5041";

fn unix(device: u64, inode: u64) -> FilesystemIdentity {
    FilesystemIdentity::Unix { device, inode }
}

#[test]
fn nvim_backend_kind_is_editor() {
    let backend = NvimBackend;
    assert_eq!(backend.kind(), BackendKind::Editor);
    assert_eq!(backend.display_name(), "nvim");
}

#[test]
fn agents_and_editors_run_in_the_workspace() {
    assert_eq!(PiBackend.kind(), BackendKind::Agent);
    let spec = PiBackend.process_spec(&workspace());
    assert_eq!(spec.program, "pi");
    assert_eq!(spec.display_name, "pi");
    assert!(spec.args.is_empty());
    assert_eq!(spec.cwd, Some(FilePath::from_text("/work")));
    assert_eq!(spec.env_value("TERM").as_deref(), Some("xterm-256color"));
    assert_eq!(NvimBackend.process_spec(&workspace()).program, "nvim");
}

#[test]
fn process_spec_uses_workspace_root_and_ixon_wrapper() {
    let backend = ShellBackend::system_default(None);
    assert_eq!(backend.program, "sh");
    let spec = backend.process_spec(&workspace());
    assert_eq!(spec.cwd, Some(FilePath::from_text("/work")));
    assert_eq!(spec.display_name, "shell");
    assert_eq!(spec.env_value("TERM").as_deref(), Some("xterm-256color"));
    assert_eq!(spec.program, "/bin/sh");
    assert_eq!(
        spec.args,
        [
            "-c",
            SHELL_WRAPPER_SOURCE,
            SHELL_WRAPPER_ARG0,
            backend.program.as_str(),
        ]
    );
}

#[test]
fn chosen_shell_is_a_positional_argument_to_fixed_wrapper() {
    let backend = ShellBackend {
        program: "/tmp/a shell; echo unsafe".to_string(),
    };
    let spec = backend.process_spec(&workspace());
    assert_eq!(spec.args[1], SHELL_WRAPPER_SOURCE);
    assert_eq!(
        spec.args.last().map(String::as_str),
        Some(backend.program.as_str())
    );
    assert!(!SHELL_WRAPPER_SOURCE.contains("unsafe"));
}

fn profile() -> NativePiProfile {
    NativePiProfile::new(&FilePath::from_text("/state"), &None).unwrap()
}

#[test]
fn keeps_legacy_session_root_without_materializing_profile_assets() {
    let profile = profile();
    let spec = profile
        .process_spec_with_trust(&workspace(), unix(1, 2), WorkspaceTrustState::Untrusted)
        .unwrap();
    assert_eq!(
        profile.session_root().to_text().unwrap(),
        "/state/pi/managed-v1/sessions"
    );
    let directories: Vec<String> = profile
        .private_directories(&workspace(), unix(1, 2))
        .iter()
        .map(|path| path.to_text().unwrap())
        .collect();
    assert_eq!(
        directories,
        [
            "/state/pi",
            "/state/pi/managed-v1",
            "/state/pi/managed-v1/sessions",
            SESSIONS,
        ]
    );
    assert_eq!(spec.env_value("PI_CODING_AGENT_DIR"), None);
}

#[test]
fn workspace_sessions_are_stable_and_generation_isolated() {
    let profile = profile();
    let one = FilePath::from_text("/temp/one");
    let two = FilePath::from_text("/temp/two");
    let session = |root: &FilePath, identity: FilesystemIdentity| {
        profile
            .session_dir(&Workspace::at(root.copy()), identity)
            .to_text()
            .unwrap()
    };
    assert_eq!(session(&one, unix(1, 10)), session(&one, unix(1, 10)));
    assert_ne!(session(&one, unix(1, 10)), session(&two, unix(1, 11)));
    assert_ne!(session(&one, unix(1, 10)), session(&one, unix(1, 12)));
    assert_ne!(session(&one, unix(1, 10)), session(&one, unix(2, 10)));
    assert_ne!(
        session(&one, unix(1, 10)),
        session(
            &one,
            FilesystemIdentity::Windows {
                volume: 1,
                file_index: 10
            }
        )
    );
}

fn assert_native_resource_discovery(spec: &ProcessSpec) {
    assert!(spec.args.iter().any(|arg| arg == "--session-dir"));
    assert_eq!(spec.env_value("PI_CODING_AGENT_DIR"), None);
    for blocked in [
        "--no-extensions",
        "--no-skills",
        "--no-prompt-templates",
        "--no-themes",
        "--no-context-files",
    ] {
        assert!(!spec.args.iter().any(|arg| arg == blocked));
    }
}

#[test]
fn trust_only_controls_project_approval() {
    let profile = profile();
    let session_dir = profile.session_dir(&workspace(), unix(1, 2)).to_text().unwrap();
    for trust in [WorkspaceTrustState::Untrusted, WorkspaceTrustState::Stale] {
        let spec = profile
            .process_spec_with_trust(&workspace(), unix(1, 2), trust)
            .unwrap();
        assert_eq!(spec.cwd, Some(FilePath::from_text("/work")));
        assert_eq!(
            spec.args,
            vec!["--session-dir", &session_dir, "--no-approve"]
        );
        assert_native_resource_discovery(&spec);
    }

    let trusted = profile
        .process_spec_with_trust(&workspace(), unix(1, 2), WorkspaceTrustState::Trusted)
        .unwrap();
    assert_eq!(
        trusted.args,
        vec!["--session-dir", &session_dir, "--approve"]
    );
    assert_native_resource_discovery(&trusted);
}

#[test]
fn rejects_non_directory_session_target() {
    let path = profile().session_dir(&workspace(), unix(1, 2));
    for probe in [PathProbe::File { mode: 0o100600 }, PathProbe::Other] {
        let error = session_directory(probe).unwrap_err();
        assert_eq!(
            error.message(PrivatePlace::SessionDirectory, &path),
            format!("native Pi session directory has an unsafe file type: {SESSIONS}")
        );
    }
    assert_eq!(
        session_directory(PathProbe::Missing),
        Ok(DirectoryAction::Create)
    );
    assert_eq!(
        session_directory(PathProbe::Directory { mode: 0o40755 }),
        Ok(DirectoryAction::Use)
    );
}

#[test]
fn non_utf8_state_path_is_rejected_without_lossy_rewrite() {
    let state = FilePath::from_bytes(b"/tmp/state-\xff".to_vec());
    let error = NativePiProfile::new(&state, &None).unwrap_err();
    assert_eq!(error, ProfileError::StateNotUtf8);
    assert!(error.message().contains("not valid UTF-8"));
}

fn environment(state: Option<&str>, xdg: Option<&str>, home: Option<&str>) -> Environment {
    Environment {
        state_dir: state.map(FilePath::from_text),
        xdg_state_home: xdg.map(FilePath::from_text),
        home: home.map(FilePath::from_text),
        current_dir: Some(FilePath::from_text("/here")),
        macos: false,
    }
}

#[test]
fn empty_variables_do_not_name_a_place_for_state() {
    let root = |environment: Environment| {
        environment
            .application_state_root()
            .map(|path| path.to_text().unwrap())
    };
    assert_eq!(
        root(environment(Some("/s"), Some("/x"), Some("/h"))),
        Ok("/s".to_string())
    );
    assert_eq!(
        root(environment(Some(""), Some("/x"), Some("/h"))),
        Ok("/x/ami-code".to_string())
    );
    assert_eq!(
        root(environment(None, Some(""), Some("/h"))),
        Ok("/h/.local/state/ami-code".to_string())
    );
    assert_eq!(
        root(environment(Some("s"), None, None)),
        Ok("/here/s".to_string())
    );
    assert_eq!(
        root(environment(None, None, None)),
        Err(StateDirError::NoLocation)
    );
    let mut lost = environment(Some("s"), None, None);
    lost.current_dir = None;
    assert_eq!(root(lost), Err(StateDirError::NoCurrentDir));

    let error = NativePiProfile::from_environment(&environment(None, None, None)).unwrap_err();
    assert_eq!(
        error.message(),
        "no native Pi session state location: set AMI_CODE_STATE_DIR, XDG_STATE_HOME, or HOME"
    );
    assert_eq!(
        NativePiProfile::new(&FilePath::from_text("s"), &None)
            .unwrap_err()
            .message(),
        "failed to resolve relative native Pi state path"
    );
    assert_eq!(
        ProfileError::SessionNotUtf8.message(),
        "native Pi session path is not valid UTF-8"
    );
}

#[test]
fn private_paths_are_refused_to_others() {
    assert_eq!(
        private_directory(PathProbe::Directory { mode: 0o40700 }),
        Ok(DirectoryAction::Use)
    );
    assert_eq!(
        private_directory(PathProbe::Directory { mode: 0o40710 }),
        Err(ProbeError::InsecurePermissions)
    );
    assert_eq!(
        private_directory(PathProbe::Missing),
        Ok(DirectoryAction::Create)
    );
    assert_eq!(
        private_directory(PathProbe::Other),
        Err(ProbeError::UnsafeType)
    );
    assert_eq!(private_file(PathProbe::Missing), Ok(false));
    assert_eq!(private_file(PathProbe::File { mode: 0o100600 }), Ok(true));
    assert_eq!(
        private_file(PathProbe::File { mode: 0o100604 }),
        Err(ProbeError::InsecurePermissions)
    );
    assert_eq!(
        private_file(PathProbe::Directory { mode: 0o40700 }),
        Err(ProbeError::UnsafeType)
    );
    let path = FilePath::from_text("/state/trust");
    assert_eq!(
        ProbeError::UnsafeType.message(PrivatePlace::TrustStore, &path),
        "trust store has an unsafe file type: /state/trust"
    );
    assert_eq!(
        ProbeError::UnsafeType.message(PrivatePlace::TrustRecord, &path),
        "trust record has an unsafe file type: /state/trust"
    );
    assert_eq!(
        ProbeError::InsecurePermissions.message(PrivatePlace::TrustStore, &path),
        "trust path has insecure permissions: /state/trust"
    );
}
