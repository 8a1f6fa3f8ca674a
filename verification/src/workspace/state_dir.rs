//! Where the application keeps its state, and what may stand there.

use vstd::prelude::*;
use vstd::string::*;
use vstd::utf8::encode_utf8;

use crate::path::{is_absolute, joined, FilePath};
use crate::text::{lossy_text, utf8_lossy};

verus! {

/// What the environment says of places for state. A directory that is not known
/// is absent.
#[derive(Debug)]
pub struct Environment {
    /// `AMI_CODE_STATE_DIR`
    pub state_dir: Option<FilePath>,
    /// `XDG_STATE_HOME`
    pub xdg_state_home: Option<FilePath>,
    /// `HOME`
    pub home: Option<FilePath>,
    pub current_dir: Option<FilePath>,
    /// Whether the home directory is laid out as on macOS.
    pub macos: bool,
}

#[derive(Debug, Clone, Copy, PartialEq, Eq, Structural)]
pub enum StateDirError {
    /// The environment names no place for state.
    NoLocation,
    /// A relative path cannot be resolved.
    NoCurrentDir,
}

pub open spec fn path_view(path: Option<FilePath>) -> Option<Seq<u8>> {
    match path {
        Some(path) => Some(path@),
        None => None,
    }
}

/// The place below a home directory.
pub open spec fn home_state(home: Seq<u8>, macos: bool) -> Seq<u8> {
    if macos {
        joined(home, encode_utf8("Library/Application Support/ami-code"@))
    } else {
        joined(home, encode_utf8(".local/state/ami-code"@))
    }
}

/// A path seen from the current directory.
pub open spec fn absolute_from(path: Seq<u8>, current_dir: Option<Seq<u8>>) -> Result<
    Seq<u8>,
    StateDirError,
> {
    if is_absolute(path) {
        Ok(path)
    } else {
        match current_dir {
            Some(dir) => Ok(joined(dir, path)),
            None => Err(StateDirError::NoCurrentDir),
        }
    }
}

/// A variable that is set to nothing counts as not set.
pub open spec fn nonempty(path: Option<Seq<u8>>) -> Option<Seq<u8>> {
    match path {
        Some(path) => if path.len() > 0 {
            Some(path)
        } else {
            None
        },
        None => None,
    }
}

impl Environment {
    pub open spec fn spec_state_root(self) -> Result<Seq<u8>, StateDirError> {
        let current = path_view(self.current_dir);
        match nonempty(path_view(self.state_dir)) {
            Some(path) => absolute_from(path, current),
            None => match nonempty(path_view(self.xdg_state_home)) {
                Some(path) => absolute_from(joined(path, encode_utf8("ami-code"@)), current),
                None => match self.home {
                    Some(home) => Ok(home_state(home@, self.macos)),
                    None => Err(StateDirError::NoLocation),
                },
            },
        }
    }

    /// The place for state: `AMI_CODE_STATE_DIR`, else a directory below
    /// `XDG_STATE_HOME`, else one below the home directory.
    pub fn application_state_root(&self) -> (root: Result<FilePath, StateDirError>)
        ensures
            root is Ok <==> self.spec_state_root() is Ok,
            root matches Ok(path) ==> self.spec_state_root() == Ok::<_, StateDirError>(path@),
            root matches Err(error) ==> self.spec_state_root() == Err::<Seq<u8>, _>(error),
    {
        if let Some(path) = nonempty_env(&self.state_dir) {
            return absolute_path(path.copy(), &self.current_dir);
        }
        if let Some(path) = nonempty_env(&self.xdg_state_home) {
            return absolute_path(path.join(&FilePath::from_text("ami-code")), &self.current_dir);
        }
        match &self.home {
            Some(home) => Ok(home_state_root(home, self.macos)),
            None => Err(StateDirError::NoLocation),
        }
    }
}

/// The place for state below a home directory.
pub fn home_state_root(home: &FilePath, macos: bool) -> (root: FilePath)
    ensures
        root@ == home_state(home@, macos),
{
    if macos {
        home.join(&FilePath::from_text("Library/Application Support/ami-code"))
    } else {
        home.join(&FilePath::from_text(".local/state/ami-code"))
    }
}

fn nonempty_env(value: &Option<FilePath>) -> (path: Option<&FilePath>)
    ensures
        path is Some <==> nonempty(path_view(*value)) is Some,
        path matches Some(p) ==> nonempty(path_view(*value)) == Some(p@),
{
    match value {
        Some(path) => if path.bytes.len() > 0 {
            Some(path)
        } else {
            None
        },
        None => None,
    }
}

/// A path seen from the current directory.
pub fn absolute_path(path: FilePath, current_dir: &Option<FilePath>) -> (result: Result<
    FilePath,
    StateDirError,
>)
    ensures
        result is Ok <==> absolute_from(path@, path_view(*current_dir)) is Ok,
        result matches Ok(p) ==> absolute_from(path@, path_view(*current_dir)) == Ok::<
            _,
            StateDirError,
        >(p@),
        result matches Err(error) ==> absolute_from(path@, path_view(*current_dir)) == Err::<
            Seq<u8>,
            _,
        >(error),
{
    if path.absolute() {
        Ok(path)
    } else {
        match current_dir {
            Some(dir) => Ok(dir.join(&path)),
            None => Err(StateDirError::NoCurrentDir),
        }
    }
}

/// What was found at a path, links not followed.
#[derive(Debug, Clone, Copy, PartialEq, Eq, Structural)]
pub enum PathProbe {
    Missing,
    Directory { mode: u32 },
    File { mode: u32 },
    /// A symbolic link, or anything else.
    Other,
}

/// Whether others than the owner may use what has this mode.
pub open spec fn shared_mode(mode: u32) -> bool {
    mode % 64 != 0
}

#[derive(Debug, Clone, Copy, PartialEq, Eq, Structural)]
pub enum DirectoryAction {
    /// It is there and can be used.
    Use,
    Create,
}

#[derive(Debug, Clone, Copy, PartialEq, Eq, Structural)]
pub enum ProbeError {
    UnsafeType,
    InsecurePermissions,
}

/// What a path is for.
#[derive(Debug, Clone, Copy, PartialEq, Eq, Structural)]
pub enum PrivatePlace {
    SessionDirectory,
    TrustStore,
    TrustRecord,
}

impl PrivatePlace {
    pub open spec fn spec_name(self) -> Seq<char> {
        match self {
            PrivatePlace::SessionDirectory => "native Pi session directory"@,
            PrivatePlace::TrustStore => "trust store"@,
            PrivatePlace::TrustRecord => "trust record"@,
        }
    }

    fn name(self) -> (name: &'static str)
        ensures
            name@ == self.spec_name(),
    {
        match self {
            PrivatePlace::SessionDirectory => "native Pi session directory",
            PrivatePlace::TrustStore => "trust store",
            PrivatePlace::TrustRecord => "trust record",
        }
    }
}

impl ProbeError {
    pub open spec fn spec_message(self, place: PrivatePlace, path: Seq<u8>) -> Seq<char> {
        match self {
            ProbeError::UnsafeType => place.spec_name() + " has an unsafe file type: "@
                + utf8_lossy(path),
            ProbeError::InsecurePermissions => "trust path has insecure permissions: "@
                + utf8_lossy(path),
        }
    }

    /// What the user is told of a path.
    pub fn message(self, place: PrivatePlace, path: &FilePath) -> (message: String)
        ensures
            message@ == self.spec_message(place, path@),
    {
        let shown = lossy_text(path.bytes.as_slice());
        match self {
            ProbeError::UnsafeType => {
                let mut message = place.name().to_owned();
                message.append(" has an unsafe file type: ");
                message.append(shown.as_str());
                message
            },
            ProbeError::InsecurePermissions => {
                let mut message = "trust path has insecure permissions: ".to_owned();
                message.append(shown.as_str());
                message
            },
        }
    }
}

/// What to do about a directory for sessions: it is used with whatever mode it
/// has, which is then narrowed.
pub fn session_directory(probe: PathProbe) -> (action: Result<DirectoryAction, ProbeError>)
    ensures
        action == match probe {
            PathProbe::Missing => Ok(DirectoryAction::Create),
            PathProbe::Directory { .. } => Ok(DirectoryAction::Use),
            _ => Err(ProbeError::UnsafeType),
        },
{
    match probe {
        PathProbe::Missing => Ok(DirectoryAction::Create),
        PathProbe::Directory { .. } => Ok(DirectoryAction::Use),
        _ => Err(ProbeError::UnsafeType),
    }
}

/// What to do about a private directory: one that others may use is refused.
pub fn private_directory(probe: PathProbe) -> (action: Result<DirectoryAction, ProbeError>)
    ensures
        action == match probe {
            PathProbe::Missing => Ok(DirectoryAction::Create),
            PathProbe::Directory { mode } => if shared_mode(mode) {
                Err(ProbeError::InsecurePermissions)
            } else {
                Ok(DirectoryAction::Use)
            },
            _ => Err(ProbeError::UnsafeType),
        },
{
    match probe {
        PathProbe::Missing => Ok(DirectoryAction::Create),
        PathProbe::Directory { mode } => if mode % 64 != 0 {
            Err(ProbeError::InsecurePermissions)
        } else {
            Ok(DirectoryAction::Use)
        },
        _ => Err(ProbeError::UnsafeType),
    }
}

/// Whether there is a private file; anything else at its place is refused.
pub fn private_file(probe: PathProbe) -> (present: Result<bool, ProbeError>)
    ensures
        present == match probe {
            PathProbe::Missing => Ok(false),
            PathProbe::File { mode } => if shared_mode(mode) {
                Err(ProbeError::InsecurePermissions)
            } else {
                Ok(true)
            },
            _ => Err(ProbeError::UnsafeType),
        },
{
    match probe {
        PathProbe::Missing => Ok(false),
        PathProbe::File { mode } => if mode % 64 != 0 {
            Err(ProbeError::InsecurePermissions)
        } else {
            Ok(true)
        },
        _ => Err(ProbeError::UnsafeType),
    }
}

/// The mode bits that others than the owner have are the last six.
pub proof fn shared_modes_have_low_bits(mode: u32)
    ensures
        shared_mode(mode) <==> mode & 0o77 != 0,
{
    assert(mode % 64 == mode & 0o77) by (bit_vector);
}

/// The place that is named for this program counts before the place for the state
/// of all programs, and that before the home directory. A variable that is set
/// to nothing does not count. A relative place is below the current directory.
pub proof fn named_places_count_first(environment: Environment)
    ensures
        ({
            let root = environment.spec_state_root();
            let own = path_view(environment.state_dir);
            let shared = path_view(environment.xdg_state_home);
            let current = path_view(environment.current_dir);
            let set = |path: Option<Seq<u8>>| path is Some && path->0.len() > 0;
            &&& set(own) && own->0[0] == 0x2f ==> root == Ok::<_, StateDirError>(own->0)
            &&& set(own) && own->0[0] != 0x2f && current is Some ==> root == Ok::<_, StateDirError>(
                joined(current->0, own->0),
            )
            &&& set(own) && own->0[0] != 0x2f && current is None ==> root == Err::<Seq<u8>, _>(
                StateDirError::NoCurrentDir,
            )
            &&& !set(own) && set(shared) && shared->0[0] == 0x2f ==> root == Ok::<_, StateDirError>(
                joined(shared->0, encode_utf8("ami-code"@)),
            )
            &&& !set(own) && set(shared) && shared->0[0] != 0x2f && current is None ==> root
                == Err::<Seq<u8>, _>(StateDirError::NoCurrentDir)
            &&& !set(own) && !set(shared) ==> (root is Ok <==> environment.home is Some)
            &&& !set(own) && !set(shared) && environment.home is None ==> root == Err::<
                Seq<u8>,
                _,
            >(StateDirError::NoLocation)
        }),
{
    reveal_strlit("ami-code");
    let shared = path_view(environment.xdg_state_home);
    if shared is Some && shared->0.len() > 0 {
        let path = shared->0;
        let name = encode_utf8("ami-code"@);
        vstd::utf8::is_ascii_chars_encode_utf8("ami-code"@);
        assert(name[0] == 'a' as u8);
        assert(joined(path, name)[0] == path[0]);
    }
}

/// In a home directory state is kept below `.local/state`, or below
/// `Library/Application Support` on macOS, under the name of this program. Two
/// homes whose paths are equally long never share a place.
pub proof fn homes_have_their_own_places(home: Seq<u8>, other: Seq<u8>, macos: bool)
    ensures
        home_state(home, false) == joined(home, encode_utf8(".local/state/ami-code"@)),
        home_state(home, true) == joined(
            home,
            encode_utf8("Library/Application Support/ami-code"@),
        ),
        home.len() == other.len() && home_state(home, macos) == home_state(other, macos) ==> home
            == other,
{
    reveal_strlit(".local/state/ami-code");
    reveal_strlit("Library/Application Support/ami-code");
    vstd::utf8::is_ascii_chars_encode_utf8(".local/state/ami-code"@);
    vstd::utf8::is_ascii_chars_encode_utf8("Library/Application Support/ami-code"@);
    assert(encode_utf8(".local/state/ami-code"@)[0] == '.' as u8);
    assert(encode_utf8("Library/Application Support/ami-code"@)[0] == 'L' as u8);
    if home.len() == other.len() && home_state(home, macos) == home_state(other, macos) {
        let end = home.len() as int;
        assert(home_state(home, macos).take(end) =~= home);
        assert(home_state(other, macos).take(end) =~= other);
    }
}

} // verus!
