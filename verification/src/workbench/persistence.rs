//! What is kept of a layout between runs.

use vstd::prelude::*;
use vstd::string::*;
use vstd::utf8::encode_utf8;

use crate::bytes::{hex, hex_can_be_read_back, hex_digits_are_digits, hex_of, hex_tells_bytes_apart};
use crate::digest::{
    digests_have_their_own_files, file_name, file_name_of, lemma_names_have_their_own_paths,
    sha256_of,
};
use crate::path::{joined, FilePath};
use crate::text::{bytes_of, decimal, decimal_text, decimals_tell_numbers_apart, same_text};
use crate::workbench::layout::{
    WorkbenchLayoutConfig, MIN_TERMINAL_HEIGHT, MIN_TERMINAL_WIDTH,
};
use crate::workspace::state_dir::{home_state, home_state_root, path_view, Environment};

verus! {

/// The only workbench state that is user intent rather than solved or runtime
/// state.
#[derive(Debug, Clone, Copy, PartialEq, Eq, Structural)]
pub struct LayoutIntent {
    pub config: WorkbenchLayoutConfig,
    pub sidebar_collapsed: bool,
    pub bottom_collapsed: bool,
}

impl Default for LayoutIntent {
    fn default() -> (intent: LayoutIntent)
        ensures
            intent.config == WorkbenchLayoutConfig::spec_default(),
            !intent.sidebar_collapsed,
            !intent.bottom_collapsed,
    {
        LayoutIntent {
            config: WorkbenchLayoutConfig::default(),
            sidebar_collapsed: false,
            bottom_collapsed: false,
        }
    }
}

pub const SCHEMA_VERSION: u32 = 1;

pub const MAX_SAVED_PANE_SIZE: u16 = 4_096;

/// A layout as it is written to a file.
#[derive(Debug)]
pub struct StateFile {
    pub version: u32,
    pub workspace_root: String,
    pub sidebar_width: u16,
    pub editor_width: Option<u16>,
    pub bottom_height: u16,
    pub sidebar_collapsed: bool,
    pub bottom_collapsed: bool,
}

pub struct StateFileView {
    pub version: u32,
    pub workspace_root: Seq<char>,
    pub intent: LayoutIntent,
}

impl View for StateFile {
    type V = StateFileView;

    open spec fn view(&self) -> StateFileView {
        StateFileView {
            version: self.version,
            workspace_root: self.workspace_root@,
            intent: LayoutIntent {
                config: WorkbenchLayoutConfig {
                    sidebar_width: self.sidebar_width,
                    editor_width: self.editor_width,
                    bottom_height: self.bottom_height,
                },
                sidebar_collapsed: self.sidebar_collapsed,
                bottom_collapsed: self.bottom_collapsed,
            },
        }
    }
}

/// A size that is kept.
#[derive(Debug, Clone, Copy, PartialEq, Eq, Structural)]
pub enum Dimension {
    SidebarWidth,
    EditorWidth,
    BottomHeight,
}

#[derive(Debug, Clone, Copy, PartialEq, Eq, Structural)]
pub enum LayoutError {
    /// The environment names no place for state.
    NoLocation,
    /// The layout was written by another version.
    UnsupportedVersion(u32),
    /// The layout was kept for another workspace.
    DifferentWorkspace,
    BelowMinimum(Dimension),
    AboveMaximum(Dimension),
}

impl Dimension {
    pub open spec fn spec_name(self) -> Seq<char> {
        match self {
            Dimension::SidebarWidth => "sidebar width"@,
            Dimension::EditorWidth => "editor width"@,
            Dimension::BottomHeight => "bottom height"@,
        }
    }

    fn name(self) -> (name: &'static str)
        ensures
            name@ == self.spec_name(),
    {
        match self {
            Dimension::SidebarWidth => "sidebar width",
            Dimension::EditorWidth => "editor width",
            Dimension::BottomHeight => "bottom height",
        }
    }
}

impl LayoutError {
    pub open spec fn spec_message(self) -> Seq<char> {
        match self {
            LayoutError::NoLocation =>
                "no state directory: set AMI_CODE_STATE_DIR, XDG_STATE_HOME, or HOME"@,
            LayoutError::UnsupportedVersion(version) => "unsupported saved layout version "@
                + decimal(version as nat),
            LayoutError::DifferentWorkspace => "saved layout belongs to a different workspace"@,
            LayoutError::BelowMinimum(dimension) => "saved "@ + dimension.spec_name()
                + " is below the terminal minimum"@,
            LayoutError::AboveMaximum(dimension) => "saved "@ + dimension.spec_name()
                + " exceeds the supported maximum"@,
        }
    }

    /// What the user is told.
    pub fn message(self) -> (message: String)
        ensures
            message@ == self.spec_message(),
    {
        match self {
            LayoutError::NoLocation =>
                "no state directory: set AMI_CODE_STATE_DIR, XDG_STATE_HOME, or HOME".to_owned(),
            LayoutError::UnsupportedVersion(version) => {
                let mut message = "unsupported saved layout version ".to_owned();
                message.append(decimal_text(version as u64).as_str());
                message
            },
            LayoutError::DifferentWorkspace =>
                "saved layout belongs to a different workspace".to_owned(),
            LayoutError::BelowMinimum(dimension) => {
                let mut message = "saved ".to_owned();
                message.append(dimension.name());
                message.append(" is below the terminal minimum");
                message
            },
            LayoutError::AboveMaximum(dimension) => {
                let mut message = "saved ".to_owned();
                message.append(dimension.name());
                message.append(" exceeds the supported maximum");
                message
            },
        }
    }
}

/// What is wrong with a size, if anything.
pub open spec fn flaw(dimension: Dimension, value: u16, minimum: u16) -> Option<LayoutError> {
    if value < minimum {
        Some(LayoutError::BelowMinimum(dimension))
    } else if value > MAX_SAVED_PANE_SIZE {
        Some(LayoutError::AboveMaximum(dimension))
    } else {
        None
    }
}

impl LayoutIntent {
    /// The first thing that is wrong with a layout, if anything.
    pub open spec fn first_flaw(self) -> Option<LayoutError> {
        let sidebar = flaw(
            Dimension::SidebarWidth,
            self.config.sidebar_width,
            MIN_TERMINAL_WIDTH,
        );
        let editor = match self.config.editor_width {
            Some(width) => flaw(Dimension::EditorWidth, width, MIN_TERMINAL_WIDTH),
            None => None,
        };
        if sidebar is Some {
            sidebar
        } else if editor is Some {
            editor
        } else {
            flaw(Dimension::BottomHeight, self.config.bottom_height, MIN_TERMINAL_HEIGHT)
        }
    }
}

pub fn validate(intent: LayoutIntent) -> (result: Result<(), LayoutError>)
    ensures
        result is Ok <==> intent.first_flaw() is None,
        result matches Err(error) ==> intent.first_flaw() == Some(error),
{
    match validate_dimension(
        Dimension::SidebarWidth,
        intent.config.sidebar_width,
        MIN_TERMINAL_WIDTH,
    ) {
        Ok(()) => {},
        Err(error) => return Err(error),
    }
    if let Some(width) = intent.config.editor_width {
        match validate_dimension(Dimension::EditorWidth, width, MIN_TERMINAL_WIDTH) {
            Ok(()) => {},
            Err(error) => return Err(error),
        }
    }
    validate_dimension(Dimension::BottomHeight, intent.config.bottom_height, MIN_TERMINAL_HEIGHT)
}

fn validate_dimension(dimension: Dimension, value: u16, minimum: u16) -> (result: Result<
    (),
    LayoutError,
>)
    ensures
        result is Ok <==> flaw(dimension, value, minimum) is None,
        result matches Err(error) ==> flaw(dimension, value, minimum) == Some(error),
{
    if value < minimum {
        return Err(LayoutError::BelowMinimum(dimension));
    }
    if value > MAX_SAVED_PANE_SIZE {
        return Err(LayoutError::AboveMaximum(dimension));
    }
    Ok(())
}

/// How a workspace is named in its file: by the bytes of its path, so that paths
/// that are not text keep apart too.
pub open spec fn identity_of(workspace_root: Seq<u8>) -> Seq<char> {
    "unix:"@ + hex_of(workspace_root)
}

pub fn root_identity(workspace_root: &FilePath) -> (identity: String)
    ensures
        identity@ == identity_of(workspace_root@),
{
    let mut identity = "unix:".to_owned();
    identity.append(hex(workspace_root.bytes.as_slice()).as_str());
    identity
}

/// A per-workspace store rooted outside the workspace itself.
#[derive(Debug)]
pub struct LayoutStore {
    pub workspace_identity: String,
    pub directory: FilePath,
    pub file: String,
}

pub struct LayoutStoreView {
    pub identity: Seq<char>,
    pub directory: Seq<u8>,
    pub file: Seq<char>,
}

impl View for LayoutStore {
    type V = LayoutStoreView;

    open spec fn view(&self) -> LayoutStoreView {
        LayoutStoreView {
            identity: self.workspace_identity@,
            directory: self.directory@,
            file: self.file@,
        }
    }
}

impl LayoutStoreView {
    /// The store of a workspace below a place for state.
    pub open spec fn at(workspace_root: Seq<u8>, state_root: Seq<u8>) -> LayoutStoreView {
        LayoutStoreView {
            identity: identity_of(workspace_root),
            directory: joined(state_root, encode_utf8("layouts"@)),
            file: file_name(encode_utf8(identity_of(workspace_root))),
        }
    }

    /// Where the layout is kept.
    pub open spec fn path(self) -> Seq<u8> {
        joined(self.directory, encode_utf8(self.file))
    }

    /// Where a layout is written before it takes the place of the one that is
    /// kept.
    pub open spec fn temporary_path(self, process: u32, sequence: u64) -> Seq<u8> {
        joined(
            self.directory,
            encode_utf8(
                "."@ + self.file + "."@ + decimal(process as nat) + "."@ + decimal(
                    sequence as nat,
                ) + ".tmp"@,
            ),
        )
    }

    /// What a file says of the layout. No file means that none was kept.
    pub open spec fn loaded(self, state: Option<StateFileView>) -> Result<
        Option<LayoutIntent>,
        LayoutError,
    > {
        match state {
            None => Ok(None),
            Some(state) => if state.version != SCHEMA_VERSION {
                Err(LayoutError::UnsupportedVersion(state.version))
            } else if state.workspace_root != self.identity {
                Err(LayoutError::DifferentWorkspace)
            } else {
                match state.intent.first_flaw() {
                    Some(error) => Err(error),
                    None => Ok(Some(state.intent)),
                }
            },
        }
    }

    /// What is written to the file.
    pub open spec fn saved(self, intent: LayoutIntent) -> StateFileView {
        StateFileView { version: SCHEMA_VERSION, workspace_root: self.identity, intent }
    }
}

/// Where the environment has layouts kept.
pub open spec fn layouts_root(environment: Environment) -> Option<Seq<u8>> {
    match path_view(environment.state_dir) {
        Some(path) => Some(path),
        None => match path_view(environment.xdg_state_home) {
            Some(path) => Some(joined(path, encode_utf8("ami-code"@))),
            None => match path_view(environment.home) {
                Some(path) => Some(home_state(path, environment.macos)),
                None => None,
            },
        },
    }
}

impl LayoutStore {
    /// Uses `$AMI_CODE_STATE_DIR`, then `$XDG_STATE_HOME/ami-code`. The HOME
    /// fallback is `~/Library/Application Support/ami-code` on macOS and
    /// `~/.local/state/ami-code` elsewhere. Files live below `layouts`.
    pub fn from_environment(workspace_root: &FilePath, environment: &Environment) -> (store: Result<
        LayoutStore,
        LayoutError,
    >)
        ensures
            store is Ok <==> layouts_root(*environment) is Some,
            store matches Ok(s) ==> s@ == LayoutStoreView::at(
                workspace_root@,
                layouts_root(*environment)->0,
            ),
            store matches Err(error) ==> error == LayoutError::NoLocation,
    {
        let state_root = if let Some(path) = &environment.state_dir {
            path.copy()
        } else if let Some(path) = &environment.xdg_state_home {
            path.join(&FilePath::from_text("ami-code"))
        } else if let Some(path) = &environment.home {
            home_state_root(path, environment.macos)
        } else {
            return Err(LayoutError::NoLocation);
        };
        Ok(LayoutStore::new(workspace_root, &state_root))
    }

    /// The store of a workspace below an explicit place for state.
    pub fn new(workspace_root: &FilePath, state_root: &FilePath) -> (store: LayoutStore)
        ensures
            store@ == LayoutStoreView::at(workspace_root@, state_root@),
    {
        let workspace_identity = root_identity(workspace_root);
        let file = file_name_of(bytes_of(workspace_identity.as_str()).as_slice());
        LayoutStore {
            workspace_identity,
            directory: state_root.join(&FilePath::from_text("layouts")),
            file,
        }
    }

    /// Where the layout is kept.
    pub fn path(&self) -> (path: FilePath)
        ensures
            path@ == self@.path(),
    {
        self.directory.join(&FilePath::from_text(self.file.as_str()))
    }

    /// Where a process writes a layout before it takes the place of the one that
    /// is kept. `sequence` tells the writes of a process apart.
    pub fn unique_temp_path(&self, process: u32, sequence: u64) -> (path: FilePath)
        ensures
            path@ == self@.temporary_path(process, sequence),
    {
        let mut name = ".".to_owned();
        name.append(self.file.as_str());
        name.append(".");
        name.append(decimal_text(process as u64).as_str());
        name.append(".");
        name.append(decimal_text(sequence).as_str());
        name.append(".tmp");
        self.directory.join(&FilePath::from_text(name.as_str()))
    }

    /// What a file says of the layout. A missing file means the default. Every
    /// mismatched file is an error for the caller to tell of.
    pub fn load(&self, state: Option<&StateFile>) -> (intent: Result<
        Option<LayoutIntent>,
        LayoutError,
    >)
        ensures
            intent == self@.loaded(
                match state {
                    Some(state) => Some(state@),
                    None => None,
                },
            ),
    {
        let state = match state {
            Some(state) => state,
            None => return Ok(None),
        };
        if state.version != SCHEMA_VERSION {
            return Err(LayoutError::UnsupportedVersion(state.version));
        }
        if !same_text(state.workspace_root.as_str(), self.workspace_identity.as_str()) {
            return Err(LayoutError::DifferentWorkspace);
        }
        let intent = LayoutIntent {
            config: WorkbenchLayoutConfig {
                sidebar_width: state.sidebar_width,
                editor_width: state.editor_width,
                bottom_height: state.bottom_height,
            },
            sidebar_collapsed: state.sidebar_collapsed,
            bottom_collapsed: state.bottom_collapsed,
        };
        match validate(intent) {
            Ok(()) => Ok(Some(intent)),
            Err(error) => Err(error),
        }
    }

    /// What is to be written to the file.
    pub fn save(&self, intent: LayoutIntent) -> (state: Result<StateFile, LayoutError>)
        ensures
            state is Ok <==> intent.first_flaw() is None,
            state matches Ok(s) ==> s@ == self@.saved(intent),
            state matches Err(error) ==> intent.first_flaw() == Some(error),
    {
        match validate(intent) {
            Ok(()) => {},
            Err(error) => return Err(error),
        }
        Ok(
            StateFile {
                version: SCHEMA_VERSION,
                workspace_root: self.workspace_identity.clone(),
                sidebar_width: intent.config.sidebar_width,
                editor_width: intent.config.editor_width,
                bottom_height: intent.config.bottom_height,
                sidebar_collapsed: intent.sidebar_collapsed,
                bottom_collapsed: intent.bottom_collapsed,
            },
        )
    }
}

/// A layout that was saved is the layout that is loaded, all of it.
pub proof fn layouts_are_found_again(store: LayoutStoreView, intent: LayoutIntent)
    requires
        intent.first_flaw() is None,
    ensures
        store.loaded(Some(store.saved(intent))) == Ok::<_, LayoutError>(Some(intent)),
{
}

/// A layout is loaded only from a file of this version, for this workspace, whose
/// sizes can be shown; any other file is refused.
pub proof fn only_sound_layouts_are_loaded(store: LayoutStoreView, state: StateFileView)
    ensures
        store.loaded(Some(state)) is Ok <==> {
            &&& state.version == SCHEMA_VERSION
            &&& state.workspace_root == store.identity
            &&& state.intent.first_flaw() is None
        },
        store.loaded(Some(state)) != Ok::<Option<LayoutIntent>, LayoutError>(None),
{
}

/// Every kept size leaves room for a terminal and is no larger than supported.
pub proof fn kept_sizes_are_bounded(intent: LayoutIntent)
    requires
        intent.first_flaw() is None,
    ensures
        MIN_TERMINAL_WIDTH <= intent.config.sidebar_width <= MAX_SAVED_PANE_SIZE,
        MIN_TERMINAL_HEIGHT <= intent.config.bottom_height <= MAX_SAVED_PANE_SIZE,
        intent.config.editor_width matches Some(width) ==> MIN_TERMINAL_WIDTH <= width
            <= MAX_SAVED_PANE_SIZE,
{
}

/// A layout of one workspace is never taken for that of another.
pub proof fn workspaces_keep_their_own_layouts(
    first: Seq<u8>,
    second: Seq<u8>,
    state_root: Seq<u8>,
    intent: LayoutIntent,
)
    requires
        first != second,
    ensures
        LayoutStoreView::at(second, state_root).loaded(
            Some(LayoutStoreView::at(first, state_root).saved(intent)),
        ) == Err::<Option<LayoutIntent>, _>(LayoutError::DifferentWorkspace),
{
    if identity_of(first) == identity_of(second) {
        let start = "unix:"@.len() as int;
        assert(identity_of(first).skip(start) =~= hex_of(first));
        assert(identity_of(second).skip(start) =~= hex_of(second));
        hex_tells_bytes_apart(first, second);
    }
}

/// Workspaces whose names have different digests have files of their own.
pub proof fn workspaces_have_their_own_files(
    first: Seq<u8>,
    second: Seq<u8>,
    state_root: Seq<u8>,
)
    requires
        sha256_of(encode_utf8(identity_of(first))) != sha256_of(
            encode_utf8(identity_of(second)),
        ),
    ensures
        LayoutStoreView::at(first, state_root).path() != LayoutStoreView::at(
            second,
            state_root,
        ).path(),
{
    digests_have_their_own_files(
        joined(state_root, encode_utf8("layouts"@)),
        encode_utf8(identity_of(first)),
        encode_utf8(identity_of(second)),
    );
}

/// A layout whose sizes are within their bounds is sound. Otherwise the first
/// size that is not is named, with the bound that it is past.
pub proof fn flaws_are_named(intent: LayoutIntent)
    ensures
        ({
            let sidebar = intent.config.sidebar_width;
            let bottom = intent.config.bottom_height;
            let editor = intent.config.editor_width;
            let sound = |value: u16, minimum: u16| minimum <= value <= MAX_SAVED_PANE_SIZE;
            let beside = editor is None || sound(editor->0, MIN_TERMINAL_WIDTH);
            &&& sound(sidebar, MIN_TERMINAL_WIDTH) && beside && sound(bottom, MIN_TERMINAL_HEIGHT)
                ==> intent.first_flaw() is None
            &&& sidebar < MIN_TERMINAL_WIDTH ==> intent.first_flaw() == Some(
                LayoutError::BelowMinimum(Dimension::SidebarWidth),
            )
            &&& sidebar > MAX_SAVED_PANE_SIZE ==> intent.first_flaw() == Some(
                LayoutError::AboveMaximum(Dimension::SidebarWidth),
            )
            &&& sound(sidebar, MIN_TERMINAL_WIDTH) && editor is Some && editor->0
                < MIN_TERMINAL_WIDTH ==> intent.first_flaw() == Some(
                LayoutError::BelowMinimum(Dimension::EditorWidth),
            )
            &&& sound(sidebar, MIN_TERMINAL_WIDTH) && editor is Some && editor->0
                > MAX_SAVED_PANE_SIZE ==> intent.first_flaw() == Some(
                LayoutError::AboveMaximum(Dimension::EditorWidth),
            )
            &&& sound(sidebar, MIN_TERMINAL_WIDTH) && beside && bottom < MIN_TERMINAL_HEIGHT
                ==> intent.first_flaw() == Some(LayoutError::BelowMinimum(Dimension::BottomHeight))
            &&& sound(sidebar, MIN_TERMINAL_WIDTH) && beside && bottom > MAX_SAVED_PANE_SIZE
                ==> intent.first_flaw() == Some(LayoutError::AboveMaximum(Dimension::BottomHeight))
        }),
{
}

/// A file of another version is refused before anything else is looked at, and
/// one of another workspace before its sizes are. Without a file there is no
/// layout, and that is no error.
pub proof fn foreign_files_are_refused(store: LayoutStoreView, state: StateFileView)
    ensures
        store.loaded(None) == Ok::<Option<LayoutIntent>, LayoutError>(None),
        state.version != SCHEMA_VERSION ==> store.loaded(Some(state)) == Err::<
            Option<LayoutIntent>,
            _,
        >(LayoutError::UnsupportedVersion(state.version)),
        state.version == SCHEMA_VERSION && state.workspace_root != store.identity ==> store.loaded(
            Some(state),
        ) == Err::<Option<LayoutIntent>, _>(LayoutError::DifferentWorkspace),
        state.version == SCHEMA_VERSION && state.workspace_root == store.identity
            && state.intent.first_flaw() is Some ==> store.loaded(Some(state)) == Err::<
            Option<LayoutIntent>,
            _,
        >(state.intent.first_flaw()->0),
        store.loaded(Some(state)) matches Ok(intent) ==> intent == Some(state.intent),
{
}

/// Layouts are kept below the place that the environment names first: for this
/// program, for the state of all programs, or in the home directory.
pub proof fn layouts_follow_the_environment(environment: Environment, other: Environment)
    ensures
        environment.state_dir matches Some(path) ==> layouts_root(environment) == Some(path@),
        environment.state_dir is None && environment.xdg_state_home is Some ==> layouts_root(
            environment,
        ) == Some(joined(environment.xdg_state_home->0@, encode_utf8("ami-code"@))),
        layouts_root(environment) is None <==> environment.state_dir is None
            && environment.xdg_state_home is None && environment.home is None,
        environment.state_dir is None && other.state_dir is None && environment.xdg_state_home is None
            && other.xdg_state_home is None && environment.home == other.home && environment.macos
            == other.macos ==> layouts_root(environment) == layouts_root(other),
{
}

/// A layout is written to a file of its own before it takes its place: beside the
/// file that is kept and never the same, and another one for each write of a
/// process.
pub proof fn writes_have_their_own_files(
    workspace_root: Seq<u8>,
    state_root: Seq<u8>,
    process: u32,
    first: u64,
    second: u64,
)
    requires
        first != second,
        sha256_of(encode_utf8(identity_of(workspace_root))).len() > 0,
    ensures
        ({
            let store = LayoutStoreView::at(workspace_root, state_root);
            &&& store.temporary_path(process, first) != store.temporary_path(process, second)
            &&& store.temporary_path(process, first) != store.path()
        }),
{
    let store = LayoutStoreView::at(workspace_root, state_root);
    reveal_strlit(".");
    reveal_strlit(".tmp");
    let name = |sequence: u64|
        "."@ + store.file + "."@ + decimal(process as nat) + "."@ + decimal(sequence as nat)
            + ".tmp"@;
    let start = "."@ + store.file + "."@ + decimal(process as nat) + "."@;
    let one = name(first);
    let two = name(second);
    assert(one =~= start + (decimal(first as nat) + ".tmp"@));
    assert(two =~= start + (decimal(second as nat) + ".tmp"@));
    if one == two {
        assert(one.skip(start.len() as int) =~= decimal(first as nat) + ".tmp"@);
        assert(two.skip(start.len() as int) =~= decimal(second as nat) + ".tmp"@);
        let end = decimal(first as nat).len() as int;
        assert((decimal(first as nat) + ".tmp"@).take(end) =~= decimal(first as nat));
        assert((decimal(second as nat) + ".tmp"@).take(end) =~= decimal(second as nat));
        decimals_tell_numbers_apart(first as nat, second as nat);
    }
    assert(one[0] == '.' && two[0] == '.');
    let digest = sha256_of(encode_utf8(identity_of(workspace_root)));
    hex_can_be_read_back(digest, 0);
    hex_digits_are_digits(digest, 0);
    assert(store.file[0] == hex_of(digest)[0]);
    lemma_names_have_their_own_paths(store.directory, one, two);
    lemma_names_have_their_own_paths(store.directory, one, store.file);
}

} // verus!
