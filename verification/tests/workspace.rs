use ami_code::path::FilePath;
use ami_code::terminal::parser::TerminalParser;
use ami_code::terminal::pty::{PaneSize, PtyBackendSpec};
use ami_code::time::{Duration, Instant};
use ami_code::workspace::config::WorkspaceConfig;
use ami_code::workspace::git::{
    merge_status, parse_git_porcelain_v2, read_answer, GitChange, GitParseError, GitStatus,
};
use ami_code::workspace::loading::{
    check_directory, load_directory, FoundEntry, FoundKind, LinkTarget, LoadError,
};
use ami_code::workspace::rows::SidebarRow;
use ami_code::workspace::session::WorkspaceSession;
use ami_code::workspace::sidebar::{safe_join, Job, Sidebar, SidebarConfig};
use ami_code::workspace::tree::EntryKind;
use ami_code::workspace::trust::{
    root_key, FilesystemIdentity, RootIdentity, StoredDecision, TrustError, TrustRecord,
    WorkspaceTrustState, WorkspaceTrustStore, STORE_VERSION,
};

const NOW: Instant = Instant { nanos: 1_000_000_000 };

fn path(text: &str) -> FilePath {
    FilePath::from_text(text)
}

fn names(parts: &[&str]) -> Vec<Vec<u8>> {
    parts.iter().map(|part| part.as_bytes().to_vec()).collect()
}

fn entry(name: &str, kind: FoundKind) -> FoundEntry {
    FoundEntry {
        name: name.as_bytes().to_vec(),
        kind,
    }
}

fn shown(rows: &[SidebarRow]) -> Vec<String> {
    rows.iter().map(|row| row.display_name()).collect()
}

/// Answers a load with what was found.
fn answer(sidebar: &mut Sidebar, job: Job, canonical: &str, found: Vec<FoundEntry>) -> bool {
    sidebar.job_queued(&job, NOW);
    match job {
        Job::Load {
            id,
            path: at,
            ancestor_targets,
            cap,
        } => {
            let root = path("/root");
            let result = load_directory(&root, &path(canonical), &ancestor_targets, cap, &found)
                .map_err(|error| error.message().to_string());
            sidebar.apply_load(id, &at, result)
        }
        Job::Git { .. } => panic!("expected a load"),
    }
}

fn sidebar() -> Sidebar {
    Sidebar::new(path("/root"), NOW)
}

#[test]
fn root_is_lazy_and_loading_sorts_shows_hidden_excludes_git_and_caps() {
    let config = SidebarConfig {
        entry_cap: 3,
        ..SidebarConfig::default()
    };
    let mut sidebar = Sidebar::with_config(path("/root"), config, NOW).unwrap();
    assert_eq!(sidebar.all_visible_rows().len(), 1);
    let job = sidebar.request_expand(&names(&[])).unwrap();
    assert!(answer(
        &mut sidebar,
        job,
        "/root",
        vec![
            entry("b", FoundKind::File),
            entry(".git", FoundKind::Directory(Some(path("/root/.git")))),
            entry("z-dir", FoundKind::Directory(Some(path("/root/z-dir")))),
            entry(".hidden", FoundKind::File),
            entry("c", FoundKind::File),
        ],
    ));
    let rows = sidebar.all_visible_rows();
    assert_eq!(rows.len(), 4);
    assert_eq!(rows[1].name, b"z-dir");
    assert!(rows.iter().any(|row| row.name == b".hidden"));
    assert!(!rows.iter().any(|row| row.name == b".git"));
    assert!(rows[0].error.as_deref().unwrap().contains("entry cap"));
}

#[test]
fn porcelain_v2_parses_all_relevant_records_and_two_nul_rename() {
    let input = b"1 M. N... 100644 100644 100644 abc abc src/a file\0\
2 R. N... 100644 100644 100644 abc abc R100 new name\0old name\0\
u UU N... 100644 100644 100644 100644 a b c conflict\0\
? untracked\0\
1 .D N... 100644 100644 000000 abc abc deleted\0";
    let parsed = parse_git_porcelain_v2(input).unwrap();
    assert_eq!(parsed.len(), 5);
    assert_eq!(parsed[0].status, GitStatus::Modified);
    assert_eq!(parsed[0].path, path("src/a file"));
    assert_eq!(parsed[1].status, GitStatus::Renamed);
    assert_eq!(parsed[1].path, path("new name"));
    assert_eq!(parsed[1].original_path, Some(path("old name")));
    assert_eq!(parsed[2].status, GitStatus::Conflict);
    assert_eq!(parsed[3].status, GitStatus::Untracked);
    assert_eq!(parsed[4].status, GitStatus::Deleted);
}

#[test]
fn malformed_records_are_refused_by_name() {
    let cases: [(&[u8], GitParseError, &str); 6] = [
        (
            b"1 M. N...\0",
            GitParseError::Malformed,
            "malformed porcelain v2 record",
        ),
        (
            b"1 M N... 100644 100644 100644 abc abc a\0",
            GitParseError::MalformedStatus,
            "malformed porcelain v2 XY status",
        ),
        (
            b"1 .. N... 100644 100644 100644 abc abc a\0",
            GitParseError::NoStatus,
            "porcelain record has no recognized status",
        ),
        (
            b"2 R. N... 100644 100644 100644 abc abc R100 new",
            GitParseError::MissingOriginal,
            "rename record is missing original path",
        ),
        (
            b"?x\0",
            GitParseError::MalformedUntracked,
            "malformed untracked record",
        ),
        (
            b"z\0",
            GitParseError::Unsupported(122),
            "unsupported porcelain v2 record type: 122",
        ),
    ];
    for (input, error, message) in cases {
        assert_eq!(parse_git_porcelain_v2(input).unwrap_err(), error);
        assert_eq!(error.message(), message);
    }
    assert!(parse_git_porcelain_v2(b"").unwrap().is_empty());
}

#[test]
fn stale_load_response_is_rejected_after_collapse() {
    let mut sidebar = sidebar();
    let job = sidebar.request_expand(&names(&[])).unwrap();
    sidebar.job_queued(&job, NOW);
    sidebar.collapse(&names(&[]));
    let (id, at, ancestors, cap) = match job {
        Job::Load {
            id,
            path,
            ancestor_targets,
            cap,
        } => (id, path, ancestor_targets, cap),
        Job::Git { .. } => panic!("expected a load"),
    };
    let found = vec![entry("file", FoundKind::File)];
    let reply = load_directory(&path("/root"), &path("/root"), &ancestors, cap, &found).unwrap();
    assert!(!sidebar.apply_load(id, &at, Ok(reply)));
    assert_eq!(sidebar.all_visible_rows().len(), 1);
    assert!(!sidebar.all_visible_rows()[0].expanded);
}

#[test]
fn symlink_escape_and_ancestor_cycle_are_not_expandable() {
    let mut sidebar = sidebar();
    let job = sidebar.request_expand(&names(&[])).unwrap();
    let link = |target: &str| {
        FoundKind::Symlink(LinkTarget::Resolved {
            target: path(target),
            directory: Ok(true),
        })
    };
    answer(
        &mut sidebar,
        job,
        "/root",
        vec![
            entry("escape", link("/outside")),
            entry("cycle", link("/root")),
            entry(
                "broken",
                FoundKind::Symlink(LinkTarget::Unresolved("no such file".to_string())),
            ),
        ],
    );
    let rows = sidebar.all_visible_rows();
    assert_eq!(rows.len(), 4);
    for row in rows.iter().skip(1) {
        assert_eq!(row.kind, EntryKind::Symlink);
        assert!(row.error.is_some());
        assert!(sidebar.request_expand(&row.path).is_none());
    }
    assert_eq!(
        check_directory(&path("/root"), &path("/outside"), &vec![]),
        Err(LoadError::Escapes)
    );
    assert_eq!(
        check_directory(&path("/root"), &path("/root/a"), &vec![path("/root/a/")]),
        Err(LoadError::Cycle)
    );
    assert_eq!(
        check_directory(&path("/root"), &path("/root/a"), &vec![path("/root/b")]),
        Ok(())
    );
    assert_eq!(
        LoadError::Escapes.message(),
        "symlink target escapes workspace"
    );
    assert_eq!(
        LoadError::Cycle.message(),
        "symlink cycle through an ancestor"
    );
}

#[test]
fn links_inside_the_workspace_open() {
    let mut sidebar = sidebar();
    let job = sidebar.request_expand(&names(&[])).unwrap();
    answer(
        &mut sidebar,
        job,
        "/root",
        vec![entry(
            "link",
            FoundKind::Symlink(LinkTarget::Resolved {
                target: path("/root/deep/dir"),
                directory: Ok(true),
            }),
        )],
    );
    let rows = sidebar.all_visible_rows();
    assert_eq!(rows[1].kind, EntryKind::SymlinkDirectory);
    assert!(sidebar.request_expand(&rows[1].path).is_some());
}

#[test]
fn dirty_ancestors_and_deleted_children_are_materialized() {
    let mut sidebar = sidebar();
    let job = sidebar.request_expand(&names(&[])).unwrap();
    answer(
        &mut sidebar,
        job,
        "/root",
        vec![entry(
            "dir",
            FoundKind::Directory(Some(path("/root/dir"))),
        )],
    );
    let job = sidebar.request_expand(&names(&["dir"])).unwrap();
    answer(&mut sidebar, job, "/root/dir", vec![]);
    sidebar.apply_git(&vec![GitChange {
        path: path("dir/gone"),
        original_path: None,
        status: GitStatus::Deleted,
    }]);
    let rows = sidebar.all_visible_rows();
    assert!(rows[0].git.dirty_descendant);
    assert!(rows.iter().any(|row| row.kind == EntryKind::Deleted));
    assert_eq!(shown(&rows), ["root", "dir", "gone"]);
    sidebar.apply_git(&vec![]);
    let rows = sidebar.all_visible_rows();
    assert!(!rows[0].git.dirty_descendant);
}

#[test]
fn non_git_failure_degrades_to_error() {
    let mut sidebar = sidebar();
    let job = sidebar.request_git_refresh().unwrap();
    sidebar.job_queued(&job, NOW);
    assert!(sidebar.request_git_refresh().is_none());
    let id = match job {
        Job::Git { id } => id,
        Job::Load { .. } => panic!("expected a question to Git"),
    };
    let failed = read_answer(
        false,
        b"",
        b"\n fatal: not a git repository \n",
        "exit status: 128",
    );
    assert!(!sidebar.apply_git_reply(id + 1, Ok(vec![])));
    assert!(sidebar.apply_git_reply(id, failed));
    assert_eq!(sidebar.git_error(), Some("fatal: not a git repository"));
}

#[test]
fn answers_of_git_are_read_by_its_success() {
    assert_eq!(
        read_answer(false, b"", b" \n", "exit status: 1").unwrap_err(),
        "git status exited with exit status: 1"
    );
    assert_eq!(
        read_answer(true, b"? new\0", b"warning", "exit status: 0").unwrap()[0].path,
        path("new")
    );
    assert_eq!(
        read_answer(true, b"z\0", b"", "exit status: 0").unwrap_err(),
        "unsupported porcelain v2 record type: 122"
    );
    assert_eq!(
        read_answer(false, b"", b"\xffbad", "exit status: 1").unwrap_err(),
        "\u{fffd}bad"
    );
}

#[test]
fn initial_requests_ask_for_the_root_and_for_git() {
    let mut sidebar = sidebar();
    let (load, git) = sidebar.request_initial();
    match (load, git) {
        (Some(Job::Load { id, path: at, .. }), Some(Job::Git { id: other })) => {
            assert!(at.is_empty());
            assert_ne!(id, other);
        }
        other => panic!("expected both, got {other:?}"),
    }
    assert_eq!(sidebar.root().to_text().unwrap(), "/root");
}

#[test]
fn git_is_asked_again_after_a_while() {
    let mut sidebar = sidebar();
    assert!(sidebar.tick(NOW.plus(Duration::from_millis(2_999))).is_none());
    assert!(sidebar.tick(NOW.plus(Duration::from_secs(3))).is_some());
}

#[test]
fn rows_are_clicked_selected_and_scrolled() {
    let mut sidebar = sidebar();
    let job = sidebar.request_expand(&names(&[])).unwrap();
    let found = (0..9)
        .map(|i| entry(&format!("f{i}"), FoundKind::File))
        .collect();
    answer(&mut sidebar, job, "/root", found);
    sidebar.scroll(3, 4);
    assert_eq!(sidebar.scroll_offset(), 3);
    assert_eq!(shown(&sidebar.visible_rows(4)), ["f2", "f3", "f4", "f5"]);
    sidebar.scroll(100, 4);
    assert_eq!(sidebar.scroll_offset(), 6);
    sidebar.scroll(-100, 4);
    assert_eq!(sidebar.scroll_offset(), 0);
    let (clicked, job) = sidebar.click_visible_row(2, 4);
    assert_eq!(clicked, Some(names(&["f1"])));
    assert!(job.is_none());
    assert_eq!(sidebar.selected_path(), Some(&names(&["f1"])));
    assert!(sidebar.all_visible_rows()[2].selected);
    // A click on the open root closes it.
    let (clicked, job) = sidebar.click_visible_row(0, 4);
    assert_eq!(clicked, Some(names(&[])));
    assert!(job.is_none());
    assert_eq!(sidebar.all_visible_rows().len(), 1);
}

#[test]
fn reloads_keep_what_was_open() {
    let mut sidebar = sidebar();
    let found = || {
        vec![
            entry("a", FoundKind::Directory(Some(path("/root/a")))),
            entry("b", FoundKind::File),
        ]
    };
    let job = sidebar.request_expand(&names(&[])).unwrap();
    answer(&mut sidebar, job, "/root", found());
    let job = sidebar.request_expand(&names(&["a"])).unwrap();
    answer(
        &mut sidebar,
        job,
        "/root/a",
        vec![entry("inner", FoundKind::File)],
    );
    assert_eq!(
        shown(&sidebar.all_visible_rows()),
        ["root", "a", "inner", "b"]
    );
    let job = sidebar.request_reload(&names(&[])).unwrap();
    answer(&mut sidebar, job, "/root", found());
    assert_eq!(
        shown(&sidebar.all_visible_rows()),
        ["root", "a", "inner", "b"]
    );
    assert!(sidebar.request_reload(&names(&["b"])).is_none());
}

#[test]
fn empty_limits_are_refused() {
    let config = SidebarConfig {
        entry_cap: 0,
        ..SidebarConfig::default()
    };
    assert!(Sidebar::with_config(path("/root"), config, NOW).is_err());
    let config = SidebarConfig {
        channel_capacity: 0,
        ..SidebarConfig::default()
    };
    assert_eq!(
        Sidebar::with_config(path("/root"), config, NOW)
            .unwrap_err()
            .message(),
        "sidebar entry cap and channel capacity must be non-zero"
    );
}

#[test]
fn told_paths_must_stay_inside() {
    assert_eq!(safe_join(&path("a/./b")), Some(names(&["a", "b"])));
    assert_eq!(safe_join(&path("../a")), None);
    assert_eq!(safe_join(&path("/a")), None);
}

#[test]
fn the_stronger_status_wins() {
    for (left, right) in [
        (GitStatus::Modified, GitStatus::Conflict),
        (GitStatus::Untracked, GitStatus::Deleted),
        (GitStatus::Added, GitStatus::Renamed),
    ] {
        assert_eq!(
            merge_status(Some(left), right),
            merge_status(Some(right), left)
        );
    }
    assert_eq!(
        merge_status(Some(GitStatus::Modified), GitStatus::Conflict),
        GitStatus::Conflict
    );
    assert_eq!(
        merge_status(None, GitStatus::Untracked),
        GitStatus::Untracked
    );
}

fn unix(device: u64, inode: u64) -> FilesystemIdentity {
    FilesystemIdentity::Unix { device, inode }
}

fn trust_store(root: &str) -> WorkspaceTrustStore {
    WorkspaceTrustStore::new(path(root), &path("/state")).unwrap()
}

#[test]
fn defaults_untrusted_and_trust_revoke_roundtrip() {
    let store = trust_store("/workspace");
    let current = unix(1, 2);
    assert_eq!(
        store.resolve(None, Some(current)),
        Ok(WorkspaceTrustState::Untrusted)
    );
    let trusted = store.trust(current);
    assert_eq!(
        store.resolve(Some(&trusted), Some(current)),
        Ok(WorkspaceTrustState::Trusted)
    );
    let revoked = store.revoke(current);
    assert_eq!(
        store.resolve(Some(&revoked), Some(current)),
        Ok(WorkspaceTrustState::Untrusted)
    );
}

#[test]
fn roots_are_path_isolated_and_store_is_outside_workspace() {
    let first = trust_store("/workspace");
    let second = trust_store("/workspace-two");
    assert_ne!(first.record_path, second.record_path);
    assert!(!first.record_path.starts_with(&path("/workspace")));
    assert_eq!(first.root().to_text().unwrap(), "/workspace");
    let inside = WorkspaceTrustStore::new(path("/workspace"), &path("/workspace/.state"));
    assert_eq!(inside.unwrap_err(), TrustError::InsideWorkspace);
    assert_eq!(
        second.resolve(Some(&first.trust(unix(1, 2))), Some(unix(1, 2))),
        Err(TrustError::DifferentRoot)
    );
}

#[test]
fn recreating_the_same_path_makes_saved_decision_stale() {
    let store = trust_store("/workspace");
    let trusted = store.trust(unix(1, 2));
    assert_eq!(
        store.resolve(Some(&trusted), Some(unix(1, 3))),
        Ok(WorkspaceTrustState::Stale)
    );
    let revoked = store.revoke(unix(1, 3));
    assert_eq!(
        store.resolve(Some(&revoked), Some(unix(1, 3))),
        Ok(WorkspaceTrustState::Untrusted)
    );
}

#[test]
fn corrupt_future_and_wrong_root_records_fail_closed() {
    let store = trust_store("/workspace");
    let mut record = TrustRecord {
        version: STORE_VERSION + 1,
        root: store.root_identity.copy(),
        filesystem: unix(1, 2),
        decision: StoredDecision::Trust,
    };
    let error = store.resolve(Some(&record), Some(unix(1, 2))).unwrap_err();
    assert_eq!(error, TrustError::UnsupportedVersion(STORE_VERSION + 1));
    assert!(store
        .message(error)
        .starts_with("unsupported workspace trust record version 2 in /state/trust/"));

    record.version = STORE_VERSION;
    record.root = RootIdentity::UnixBytes(b"/other".to_vec());
    let error = store.resolve(Some(&record), Some(unix(1, 2))).unwrap_err();
    assert!(store
        .message(error)
        .starts_with("workspace trust record belongs to a different root: /state/trust/"));
    record.root = store.root_identity.copy();
    let error = store.resolve(Some(&record), None).unwrap_err();
    assert_eq!(
        store.message(error),
        "failed to inspect workspace identity: /workspace"
    );
    assert_eq!(
        store.message(TrustError::InsideWorkspace),
        "workspace trust store must not be inside the workspace: /state/trust"
    );
}

#[test]
fn keys_are_digests() {
    assert_eq!(
        root_key(&RootIdentity::UnixBytes(b"/workspace".to_vec())),
        "1ca307778d2cdf3f43186e0e250bbf7b6185ae45865d7cfaa65905425326602d"
    );
    assert_eq!(
        trust_store("/workspace").record_path,
        path("/state/trust/1ca307778d2cdf3f43186e0e250bbf7b6185ae45865d7cfaa65905425326602d.json")
    );
}

#[test]
fn roots_are_written_differently() {
    let key = |bytes: &[u8]| root_key(&RootIdentity::UnixBytes(bytes.to_vec()));
    assert_ne!(key(&[1, 12]), key(&[11, 2]));
    assert_ne!(key(&[1, 12]), key(&[112]));
    assert_ne!(key(&[]), key(&[0]));
    assert_eq!(key(&[1, 12]), key(&[1, 12]));
}

#[test]
fn paths_are_compared_by_their_parts() {
    assert!(path("/a/b").starts_with(&path("/a")));
    assert!(path("/a//b/").starts_with(&path("/a/b")));
    assert!(!path("/ab").starts_with(&path("/a")));
    assert_eq!(path("/a").join(&path("b")), path("/a/b"));
    assert_eq!(path("/a/").join(&path("b")), path("/a/b"));
    assert_eq!(path("/a").join(&path("/b")), path("/b"));
    assert_eq!(path("").join(&path("b")), path("b"));
    assert!(path("/a").absolute());
    assert!(!path("a").absolute());
    assert_eq!(FilePath::from_bytes(b"\xff".to_vec()).to_text(), None);
}

#[test]
fn editors_get_what_the_other_panes_leave() {
    let session = WorkspaceSession::default();
    assert_eq!(
        session.editor_size_hint(PaneSize::new(160, 50)),
        PaneSize::new(96, 38)
    );
    assert_eq!(
        session.editor_size_hint(PaneSize::new(10, 5)),
        PaneSize::new(0, 0)
    );
    let hidden = WorkspaceSession {
        bottom_visible: false,
        ..session
    };
    assert_eq!(
        hidden.editor_size_hint(PaneSize::new(160, 50)),
        PaneSize::new(96, 50)
    );
    assert_eq!(WorkspaceConfig::default().name, None);
    let mut parser = TerminalParser::new(PaneSize::new(3, 4));
    parser.resize(PaneSize::new(5, 6));
    assert_eq!(parser.size(), PaneSize::new(5, 6));
    assert!(parser.parse(b"text").lines.is_empty());
    assert_eq!(PtyBackendSpec::new("sh").command, "sh");
}

const RAW_TRANSCRIPT_LIMIT: usize = 256 * 1024;

fn retain_raw_tail(raw: &mut Vec<u8>, bytes: &[u8]) {
    if bytes.len() >= RAW_TRANSCRIPT_LIMIT {
        raw.clear();
        raw.extend_from_slice(&bytes[bytes.len() - RAW_TRANSCRIPT_LIMIT..]);
        return;
    }
    let overflow = raw
        .len()
        .saturating_add(bytes.len())
        .saturating_sub(RAW_TRANSCRIPT_LIMIT);
    if overflow > 0 {
        raw.drain(..overflow);
    }
    raw.extend_from_slice(bytes);
}

#[test]
fn transcript_retention_is_bounded_and_keeps_the_latest_output() {
    let mut raw = Vec::new();
    for byte in 0_u8..=255 {
        retain_raw_tail(&mut raw, &vec![byte; 4096]);
        assert!(raw.len() <= RAW_TRANSCRIPT_LIMIT);
    }
    assert_eq!(raw.len(), RAW_TRANSCRIPT_LIMIT);
    assert!(raw.ends_with(&vec![255; 4096]));

    let oversized = (0..RAW_TRANSCRIPT_LIMIT + 17)
        .map(|index| (index % 251) as u8)
        .collect::<Vec<_>>();
    retain_raw_tail(&mut raw, &oversized);
    assert_eq!(raw, oversized[17..]);
}
