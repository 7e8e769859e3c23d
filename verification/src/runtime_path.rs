//! Project paths, and what must hold of the directories and sockets that live there.
use vstd::prelude::*;
use vstd::string::StringExecFns;

use crate::text::{byte_len, chars, utf8_len, with_detail};

verus! {

/// The longest socket path on Linux, in bytes.
pub const LINUX_SOCKET_PATH_LIMIT: usize = 107;

/// The longest socket path on macOS and anywhere else, in bytes.
pub const OTHER_SOCKET_PATH_LIMIT: usize = 103;

/// Why a path cannot be used.
#[derive(Debug, PartialEq, Eq)]
pub enum RuntimePathError {
    Unavailable,
    WrongOwner(String),
    NotDirectory(String),
    Symlink(String),
    SocketPathTooLong(String),
    UnsafeSocket(String),
    Io(String),
}

/// The contents of a [`RuntimePathError`].
pub enum RuntimePathErrorModel {
    Unavailable,
    WrongOwner(Seq<char>),
    NotDirectory(Seq<char>),
    Symlink(Seq<char>),
    SocketPathTooLong(Seq<char>),
    UnsafeSocket(Seq<char>),
    Io(Seq<char>),
}

impl View for RuntimePathError {
    type V = RuntimePathErrorModel;

    open spec fn view(&self) -> RuntimePathErrorModel {
        match *self {
            RuntimePathError::Unavailable => RuntimePathErrorModel::Unavailable,
            RuntimePathError::WrongOwner(path) => RuntimePathErrorModel::WrongOwner(path@),
            RuntimePathError::NotDirectory(path) => RuntimePathErrorModel::NotDirectory(path@),
            RuntimePathError::Symlink(path) => RuntimePathErrorModel::Symlink(path@),
            RuntimePathError::SocketPathTooLong(path) => RuntimePathErrorModel::SocketPathTooLong(
                path@,
            ),
            RuntimePathError::UnsafeSocket(path) => RuntimePathErrorModel::UnsafeSocket(path@),
            RuntimePathError::Io(detail) => RuntimePathErrorModel::Io(detail@),
        }
    }
}

impl RuntimePathErrorModel {
    /// The error as people read it.
    pub open spec fn message(self) -> Seq<char> {
        match self {
            RuntimePathErrorModel::Unavailable => "could not resolve platform project directories"@,
            RuntimePathErrorModel::WrongOwner(path) =>
                "runtime path is not owned by the current user: "@ + path,
            RuntimePathErrorModel::NotDirectory(path) => "runtime path is not a directory: "@ + path,
            RuntimePathErrorModel::Symlink(path) => "runtime path must not be a symlink: "@ + path,
            RuntimePathErrorModel::SocketPathTooLong(path) =>
                "control socket path is too long for this platform: "@ + path,
            RuntimePathErrorModel::UnsafeSocket(path) => "unsafe existing control socket path: "@
                + path,
            RuntimePathErrorModel::Io(detail) => detail,
        }
    }
}

impl RuntimePathError {
    /// The error as people read it.
    pub fn message(&self) -> (result: String)
        ensures
            result@ == self@.message(),
    {
        match self {
            RuntimePathError::Unavailable =>
                "could not resolve platform project directories".to_owned(),
            RuntimePathError::WrongOwner(path) => with_detail(
                "runtime path is not owned by the current user: ",
                path.as_str(),
            ),
            RuntimePathError::NotDirectory(path) => with_detail(
                "runtime path is not a directory: ",
                path.as_str(),
            ),
            RuntimePathError::Symlink(path) => with_detail(
                "runtime path must not be a symlink: ",
                path.as_str(),
            ),
            RuntimePathError::SocketPathTooLong(path) => with_detail(
                "control socket path is too long for this platform: ",
                path.as_str(),
            ),
            RuntimePathError::UnsafeSocket(path) => with_detail(
                "unsafe existing control socket path: ",
                path.as_str(),
            ),
            RuntimePathError::Io(detail) => detail.clone(),
        }
    }
}

/// A directory with a relative name below it.
pub open spec fn below(directory: Seq<char>, name: Seq<char>) -> Seq<char> {
    if directory.len() == 0 || directory.last() == '/' {
        directory + name
    } else {
        directory + "/"@ + name
    }
}

/// Joins a directory and a relative name.
pub(crate) fn join_path(directory: &str, name: &str) -> (result: String)
    ensures
        result@ == below(directory@, name@),
{
    let all = chars(directory);
    let mut result = directory.to_owned();
    if all.len() > 0 && all[all.len() - 1] != '/' {
        result.append("/");
    }
    result.append(name);
    result
}

/// The directories that the platform has for the project.
pub struct ProjectDirectories {
    pub config_dir: String,
    pub state_dir: Option<String>,
    pub data_local_dir: String,
    pub runtime_dir: Option<String>,
}

/// Where the project keeps its files.
#[derive(Debug)]
pub struct ProjectPaths {
    pub config_file: String,
    pub state_dir: String,
    pub runtime_dir: String,
    pub control_socket: String,
}

/// The runtime directory: the platform's own, or one below the local data.
pub open spec fn runtime_dir_of(directories: ProjectDirectories) -> Seq<char> {
    match directories.runtime_dir {
        Some(path) => path@,
        None => below(directories.data_local_dir@, "runtime"@),
    }
}

/// The state directory: the platform's own, or the local data.
pub open spec fn state_dir_of(directories: ProjectDirectories) -> Seq<char> {
    match directories.state_dir {
        Some(path) => path@,
        None => directories.data_local_dir@,
    }
}

impl ProjectPaths {
    /// Derives the project's paths from the platform's directories.
    pub fn resolve(directories: Option<ProjectDirectories>, socket_path_limit: usize) -> (result:
        Result<Self, RuntimePathError>)
        ensures
            match directories {
                None => result matches Err(error) && error@ == RuntimePathErrorModel::Unavailable,
                Some(found) => {
                    let socket = below(runtime_dir_of(found), "control.sock"@);
                    if utf8_len(socket) > socket_path_limit {
                        result matches Err(error) && error@
                            == RuntimePathErrorModel::SocketPathTooLong(socket)
                    } else {
                        result matches Ok(paths) && {
                            &&& paths.config_file@ == below(found.config_dir@, "config.toml"@)
                            &&& paths.state_dir@ == state_dir_of(found)
                            &&& paths.runtime_dir@ == runtime_dir_of(found)
                            &&& paths.control_socket@ == socket
                        }
                    }
                },
            },
    {
        let found = match directories {
            Some(found) => found,
            None => return Err(RuntimePathError::Unavailable),
        };
        let state_dir = match found.state_dir {
            Some(path) => path,
            None => found.data_local_dir.clone(),
        };
        let runtime_dir = match found.runtime_dir {
            Some(path) => path,
            None => join_path(found.data_local_dir.as_str(), "runtime"),
        };
        let control_socket = join_path(runtime_dir.as_str(), "control.sock");
        if let Err(error) = validate_socket_path(control_socket.as_str(), socket_path_limit) {
            return Err(error);
        }
        Ok(
            ProjectPaths {
                config_file: join_path(found.config_dir.as_str(), "config.toml"),
                state_dir,
                runtime_dir,
                control_socket,
            },
        )
    }
}

/// Checks that a socket path fits the platform's limit.
pub fn validate_socket_path(path: &str, limit: usize) -> (result: Result<(), RuntimePathError>)
    ensures
        if utf8_len(path@) > limit {
            result matches Err(error) && error@ == RuntimePathErrorModel::SocketPathTooLong(path@)
        } else {
            result is Ok
        },
{
    if byte_len(path) > limit {
        Err(RuntimePathError::SocketPathTooLong(path.to_owned()))
    } else {
        Ok(())
    }
}

/// What is found at a path without following a link.
pub struct PathEntry {
    pub symlink: bool,
    pub directory: bool,
    pub regular_file: bool,
    pub socket: bool,
    pub uid: u32,
    pub mode: u32,
}

/// The outcome of looking at a path.
pub enum Lookup {
    Found(PathEntry),
    Missing,
    Failed(String),
}

/// One step on the way to a directory.
pub struct PathStep {
    pub path: String,
    pub symlink: bool,
}

/// What is left to do for an owner-only directory. Either way it gets mode 0700.
#[derive(Clone, Copy, Debug, PartialEq, Eq, Structural)]
pub enum DirectoryAction {
    Create,
    Keep,
}

/// The first step that is a link, if any is.
pub open spec fn first_link(steps: Seq<PathStep>) -> Option<Seq<char>>
    decreases steps.len(),
{
    if steps.len() == 0 {
        None
    } else if steps[0].symlink {
        Some(steps[0].path@)
    } else {
        first_link(steps.drop_first())
    }
}

/// What to do about a directory that must be the owner's alone, or why it cannot be.
pub open spec fn directory_verdict(
    path: Seq<char>,
    steps: Seq<PathStep>,
    found: Lookup,
    owner: u32,
) -> Result<DirectoryAction, RuntimePathErrorModel> {
    match first_link(steps) {
        Some(link) => Err(RuntimePathErrorModel::Symlink(link)),
        None => match found {
            Lookup::Missing => Ok(DirectoryAction::Create),
            Lookup::Failed(detail) => Err(RuntimePathErrorModel::Io(detail@)),
            Lookup::Found(entry) => if entry.symlink {
                Err(RuntimePathErrorModel::Symlink(path))
            } else if !entry.directory {
                Err(RuntimePathErrorModel::NotDirectory(path))
            } else if entry.uid != owner {
                Err(RuntimePathErrorModel::WrongOwner(path))
            } else {
                Ok(DirectoryAction::Keep)
            },
        },
    }
}

/// Decides about a directory that must be the owner's alone: no step on the way to it may be a
/// link, and if it exists it must be a directory of the owner.
pub fn ensure_owner_directory(path: &str, steps: &Vec<PathStep>, found: Lookup, owner: u32) -> (
    result: Result<DirectoryAction, RuntimePathError>)
    ensures
        match directory_verdict(path@, steps@, found, owner) {
            Ok(action) => result == Ok::<DirectoryAction, RuntimePathError>(action),
            Err(refusal) => result matches Err(error) && error@ == refusal,
        },
{
    let ghost all = steps@;
    assert(all.skip(0) =~= all);
    for i in 0..steps.len()
        invariant
            all == steps@,
            first_link(all) == first_link(all.skip(i as int)),
    {
        assert(all.skip(i as int)[0] == all[i as int]);
        if steps[i].symlink {
            return Err(RuntimePathError::Symlink(steps[i].path.clone()));
        }
        assert(all.skip(i as int).drop_first() =~= all.skip(i + 1));
    }
    match found {
        Lookup::Missing => Ok(DirectoryAction::Create),
        Lookup::Failed(detail) => Err(RuntimePathError::Io(detail)),
        Lookup::Found(entry) => {
            if entry.symlink {
                Err(RuntimePathError::Symlink(path.to_owned()))
            } else if !entry.directory {
                Err(RuntimePathError::NotDirectory(path.to_owned()))
            } else if entry.uid != owner {
                Err(RuntimePathError::WrongOwner(path.to_owned()))
            } else {
                Ok(DirectoryAction::Keep)
            }
        },
    }
}

/// What is left to do about an existing socket.
#[derive(Clone, Copy, Debug, PartialEq, Eq, Structural)]
pub enum SocketAction {
    Nothing,
    Connect,
}

/// Decides what to do about whatever is at the path of the control socket: a socket of the owner is
/// tried, anything else is refused.
pub fn inspect_socket(path: &str, found: Lookup, owner: u32) -> (result: Result<
    SocketAction,
    RuntimePathError,
>)
    ensures
        match found {
            Lookup::Missing => result == Ok::<SocketAction, RuntimePathError>(SocketAction::Nothing),
            Lookup::Failed(detail) => result matches Err(error) && error@
                == RuntimePathErrorModel::Io(detail@),
            Lookup::Found(entry) => if entry.symlink || !entry.socket || entry.uid != owner {
                result matches Err(error) && error@ == RuntimePathErrorModel::UnsafeSocket(path@)
            } else {
                result == Ok::<SocketAction, RuntimePathError>(SocketAction::Connect)
            },
        },
{
    match found {
        Lookup::Missing => Ok(SocketAction::Nothing),
        Lookup::Failed(detail) => Err(RuntimePathError::Io(detail)),
        Lookup::Found(entry) => {
            if entry.symlink || !entry.socket || entry.uid != owner {
                Err(RuntimePathError::UnsafeSocket(path.to_owned()))
            } else {
                Ok(SocketAction::Connect)
            }
        },
    }
}

/// The outcome of connecting to a socket.
#[derive(Clone, Copy, Debug, PartialEq, Eq, Structural)]
pub enum ConnectOutcome {
    Connected,
    Refused,
    Missing,
    OtherError,
}

/// Whether a socket that was tried may be removed: only if nobody listens there.
pub fn remove_stale_socket(path: &str, outcome: ConnectOutcome) -> (result: Result<
    (),
    RuntimePathError,
>)
    ensures
        if outcome == ConnectOutcome::Refused || outcome == ConnectOutcome::Missing {
            result is Ok
        } else {
            result matches Err(error) && error@ == RuntimePathErrorModel::UnsafeSocket(path@)
        },
{
    match outcome {
        ConnectOutcome::Refused | ConnectOutcome::Missing => Ok(()),
        ConnectOutcome::Connected | ConnectOutcome::OtherError => Err(
            RuntimePathError::UnsafeSocket(path.to_owned()),
        ),
    }
}

// ---------------------------------------------------------------------------
// Laws
// ---------------------------------------------------------------------------

/// A name below a directory is one more component behind those of the directory, whether or not the
/// directory ends in a `/`.
pub proof fn names_lie_below_their_directory(directory: Seq<char>, name: Seq<char>)
    requires
        crate::policy::is_entry_name(name),
    ensures
        directory.len() == 0 ==> below(directory, name) == name,
        directory.len() > 0 ==> crate::policy::path_parts(below(directory, name))
            == crate::policy::path_parts(directory).push(name),
        directory.len() > 0 ==> below(directory, name)[0] == directory[0],
        below(directory, name).skip(below(directory, name).len() - name.len()) == name,
{
    reveal_strlit("/");
    assert("/"@ =~= seq!['/']);
    let whole = below(directory, name);
    assert(whole.skip(whole.len() - name.len()) =~= name);
    if directory.len() == 0 {
        assert(directory + name =~= name);
    } else if directory.last() == '/' {
        let front = directory.drop_last();
        assert(directory =~= front + seq!['/']);
        assert(whole =~= front + seq!['/'] + name);
        crate::policy::names_become_components(front, name);
        crate::policy::idle_steps_name_nothing(front);
    } else {
        crate::policy::names_become_components(directory, name);
    }
}

/// The platform's own directories are taken where it has them; without, the runtime directory lies
/// below the local data, which is also where the state is.
pub proof fn the_platforms_directories_come_first(directories: ProjectDirectories)
    ensures
        directories.runtime_dir matches Some(path) ==> runtime_dir_of(directories) == path@,
        directories.runtime_dir is None ==> runtime_dir_of(directories) == below(
            directories.data_local_dir@,
            "runtime"@,
        ),
        directories.state_dir matches Some(path) ==> state_dir_of(directories) == path@,
        directories.state_dir is None ==> state_dir_of(directories) == directories.data_local_dir@,
{
}

/// The first link on the way is found, if there is one.
pub proof fn the_first_link_is_found(steps: Seq<PathStep>)
    ensures
        first_link(steps) is None <==> forall|i: int|
            0 <= i < steps.len() ==> !(#[trigger] steps[i]).symlink,
        first_link(steps) matches Some(path) ==> exists|i: int|
            0 <= i < steps.len() && (#[trigger] steps[i]).symlink && path == steps[i].path@
                && forall|j: int| 0 <= j < i ==> !(#[trigger] steps[j]).symlink,
    decreases steps.len(),
{
    if steps.len() > 0 && !steps[0].symlink {
        let rest = steps.drop_first();
        the_first_link_is_found(rest);
        assert forall|i: int| 0 <= i < rest.len() implies #[trigger] rest[i] == steps[i + 1] by {}
        if first_link(rest) is Some {
            let i = choose|i: int|
                0 <= i < rest.len() && (#[trigger] rest[i]).symlink && first_link(rest)->0
                    == rest[i].path@ && forall|j: int|
                    0 <= j < i ==> !(#[trigger] rest[j]).symlink;
            assert(steps[i + 1] == rest[i]);
            assert forall|j: int| 0 <= j < i + 1 implies !(#[trigger] steps[j]).symlink by {
                if j > 0 {
                    assert(rest[j - 1] == steps[j]);
                }
            }
        } else {
            assert forall|i: int| 0 <= i < steps.len() implies !(#[trigger] steps[i]).symlink by {
                if i > 0 {
                    assert(rest[i - 1] == steps[i]);
                }
            }
        }
    }
}

/// A directory is used exactly if no step on the way is a link and it is either missing, and then
/// made, or a directory of the owner that is no link itself, and then kept.
pub proof fn only_the_owners_directories_are_used(
    path: Seq<char>,
    steps: Seq<PathStep>,
    found: Lookup,
    owner: u32,
)
    ensures
        ({
            let verdict = directory_verdict(path, steps, found, owner);
            let straight = forall|i: int|
                0 <= i < steps.len() ==> !(#[trigger] steps[i]).symlink;
            &&& verdict is Ok && verdict->Ok_0 is Create <==> straight && found is Missing
            &&& verdict is Ok && verdict->Ok_0 is Keep <==> straight && found is Found
                && !found->Found_0.symlink && found->Found_0.directory && found->Found_0.uid
                == owner
            &&& !straight ==> verdict is Err && verdict->Err_0 is Symlink
            &&& straight && found is Failed ==> verdict == Err::<
                DirectoryAction,
                RuntimePathErrorModel,
            >(RuntimePathErrorModel::Io(found->Failed_0@))
            &&& straight && found is Found && found->Found_0.symlink ==> verdict == Err::<
                DirectoryAction,
                RuntimePathErrorModel,
            >(RuntimePathErrorModel::Symlink(path))
            &&& straight && found is Found && !found->Found_0.symlink && !found->Found_0.directory
                ==> verdict == Err::<DirectoryAction, RuntimePathErrorModel>(
                RuntimePathErrorModel::NotDirectory(path),
            )
            &&& straight && found is Found && !found->Found_0.symlink && found->Found_0.directory
                && found->Found_0.uid != owner ==> verdict == Err::<
                DirectoryAction,
                RuntimePathErrorModel,
            >(RuntimePathErrorModel::WrongOwner(path))
        }),
{
    the_first_link_is_found(steps);
}

/// Every refusal says what is wrong with which path.
pub proof fn path_refusals_say_what_is_wrong(path: Seq<char>)
    ensures
        RuntimePathErrorModel::Unavailable.message()
            == "could not resolve platform project directories"@,
        RuntimePathErrorModel::WrongOwner(path).message()
            == "runtime path is not owned by the current user: "@ + path,
        RuntimePathErrorModel::NotDirectory(path).message() == "runtime path is not a directory: "@
            + path,
        RuntimePathErrorModel::Symlink(path).message() == "runtime path must not be a symlink: "@
            + path,
        RuntimePathErrorModel::SocketPathTooLong(path).message()
            == "control socket path is too long for this platform: "@ + path,
        RuntimePathErrorModel::UnsafeSocket(path).message()
            == "unsafe existing control socket path: "@ + path,
        RuntimePathErrorModel::Io(path).message() == path,
{
}

/// The project's files lie where the platform's directories say: the configuration, the state, and
/// the control socket in the runtime directory, if its path fits.
pub proof fn project_files_lie_in_their_directories(
    directories: Option<ProjectDirectories>,
    limit: usize,
    result: Result<ProjectPaths, RuntimePathError>,
)
    requires
        call_ensures(ProjectPaths::resolve, (directories, limit), result),
    ensures
        directories is None ==> result is Err && (result->Err_0)@ is Unavailable,
        directories matches Some(found) ==> (result is Ok <==> utf8_len(
            below(runtime_dir_of(found), "control.sock"@),
        ) <= limit),
        result matches Ok(paths) ==> {
            &&& paths.config_file@ == below(directories->0.config_dir@, "config.toml"@)
            &&& paths.state_dir@ == state_dir_of(directories->0)
            &&& paths.runtime_dir@ == runtime_dir_of(directories->0)
            &&& paths.control_socket@ == below(paths.runtime_dir@, "control.sock"@)
        },
{
}

/// What is at the path of the control socket is tried exactly if it is a socket of the owner and no
/// link, and removed exactly if nobody listens there.
pub proof fn only_the_owners_stale_sockets_are_removed(
    path: &str,
    found: Lookup,
    owner: u32,
    inspected: Result<SocketAction, RuntimePathError>,
    outcome: ConnectOutcome,
    removed: Result<(), RuntimePathError>,
)
    requires
        call_ensures(inspect_socket, (path, found, owner), inspected),
        call_ensures(remove_stale_socket, (path, outcome), removed),
    ensures
        inspected is Ok && inspected->Ok_0 is Connect <==> found is Found && !found->Found_0.symlink
            && found->Found_0.socket && found->Found_0.uid == owner,
        inspected is Ok && inspected->Ok_0 is Nothing <==> found is Missing,
        removed is Ok <==> outcome is Refused || outcome is Missing,
        removed is Err ==> (removed->Err_0)@ == RuntimePathErrorModel::UnsafeSocket(path@),
{
}

/// A socket path is accepted exactly if it has no more bytes than the platform allows.
pub proof fn socket_paths_fit_the_platform(
    path: &str,
    limit: usize,
    result: Result<(), RuntimePathError>,
)
    requires
        call_ensures(validate_socket_path, (path, limit), result),
    ensures
        result is Ok <==> utf8_len(path@) <= limit,
{
}

} // verus!
