//! Socket path resolution and discovery.
//!
//! Paths are handled as strings. Reading the environment, the user and
//! process ids, and the contents of the runtime directory happens outside
//! the library; what the path is, and which socket discovery picks, is
//! decided here.

use vstd::prelude::*;
use vstd::string::StrSliceExecFns;
use crate::text::{decimal, has_prefix, starts_with, u64_to_string};

verus! {

/// Environment variables that determine the socket path, captured once.
pub struct SocketEnv {
    /// `$CRUX_SOCKET`: an explicit socket path.
    pub crux_socket: Option<String>,
    /// `$XDG_RUNTIME_DIR`.
    pub xdg_runtime_dir: Option<String>,
}

/// `base` joined with the relative path `segment`, with one separator
/// between them unless `base` is empty or already ends with one.
pub open spec fn spec_join(base: Seq<char>, segment: Seq<char>) -> Seq<char> {
    if base.len() == 0 {
        segment
    } else if base.last() == '/' {
        base + segment
    } else {
        base + seq!['/'] + segment
    }
}

/// The runtime directory: `$XDG_RUNTIME_DIR/crux`, else `/tmp/crux-$UID`.
pub open spec fn spec_runtime_dir(xdg_runtime_dir: Option<Seq<char>>, uid: u32) -> Seq<char> {
    match xdg_runtime_dir {
        Some(xdg) => spec_join(xdg, "crux"@),
        None => "/tmp/crux-"@ + decimal(uid as nat),
    }
}

/// The file name of the socket of the process `pid`.
pub open spec fn socket_file_name(pid: u32) -> Seq<char> {
    "gui-sock-"@ + decimal(pid as nat)
}

/// The view of an optional string.
pub open spec fn opt_view(s: Option<String>) -> Option<Seq<char>> {
    match s {
        Some(t) => Some(t@),
        None => None,
    }
}

/// The socket path of the process `pid`: `$CRUX_SOCKET` if set, else the
/// socket file in the runtime directory.
pub open spec fn spec_socket_path(env: SocketEnv, uid: u32, pid: u32) -> Seq<char> {
    match env.crux_socket {
        Some(p) => p@,
        None => spec_join(spec_runtime_dir(opt_view(env.xdg_runtime_dir), uid), socket_file_name(pid)),
    }
}

/// Join `base` and the relative, non-empty path `segment`.
pub(crate) fn join_path(base: &str, segment: &str) -> (r: String)
    requires
        segment@.len() > 0,
        segment@[0] != '/',
    ensures
        r@ == spec_join(base@, segment@),
{
    let n = base.unicode_len();
    if n == 0 {
        return String::from_str(segment);
    }
    if base.get_char(n - 1) == '/' {
        String::from_str(base).concat(segment)
    } else {
        proof {
            reveal_strlit("/");
            assert("/"@ =~= seq!['/']);
        }
        String::from_str(base).concat("/").concat(segment)
    }
}

/// The runtime directory for the given `$XDG_RUNTIME_DIR` and user id.
pub fn resolve_runtime_dir(xdg_runtime_dir: Option<&str>, uid: u32) -> (r: String)
    ensures
        r@ == spec_runtime_dir(
            match xdg_runtime_dir {
                Some(x) => Some(x@),
                None => None,
            },
            uid,
        ),
{
    match xdg_runtime_dir {
        Some(xdg) => {
            proof {
                reveal_strlit("crux");
            }
            join_path(xdg, "crux")
        },
        None => String::from_str("/tmp/crux-").concat(u64_to_string(uid as u64).as_str()),
    }
}

/// The socket path for the process `pid` of the user `uid`, without any
/// effect on the file system.
pub fn resolve_socket_path(env: &SocketEnv, uid: u32, pid: u32) -> (r: String)
    ensures
        r@ == spec_socket_path(*env, uid, pid),
{
    match &env.crux_socket {
        Some(path) => path.clone(),
        None => {
            let dir = match &env.xdg_runtime_dir {
                Some(x) => resolve_runtime_dir(Some(x.as_str()), uid),
                None => resolve_runtime_dir(None, uid),
            };
            let name = String::from_str("gui-sock-").concat(u64_to_string(pid as u64).as_str());
            proof {
                reveal_strlit("gui-sock-");
                assert(name@[0] == 'g');
            }
            join_path(dir.as_str(), name.as_str())
        },
    }
}

/// An entry of the runtime directory, as discovery sees it.
pub struct SocketEntry {
    /// The file name.
    pub name: String,
    /// The full path.
    pub path: String,
    /// The modification time in nanoseconds since the Unix epoch (zero when
    /// the time is unavailable), or `None` when the entry's metadata could
    /// not be read.
    pub modified: Option<u128>,
}

/// An entry that discovery considers: a `gui-sock-*` file with metadata.
pub open spec fn is_socket_candidate(e: SocketEntry) -> bool {
    has_prefix(e.name@, "gui-sock-"@) && e.modified is Some
}

/// Entry `i` is the one discovery picks: a candidate modified no earlier
/// than any other, and strictly later than every candidate before it.
pub open spec fn is_newest_socket(entries: Seq<SocketEntry>, i: int) -> bool {
    &&& 0 <= i < entries.len()
    &&& is_socket_candidate(entries[i])
    &&& forall|j: int|
        0 <= j < entries.len() && is_socket_candidate(#[trigger] entries[j]) ==> entries[j].modified->0
            <= entries[i].modified->0
    &&& forall|j: int|
        0 <= j < i && is_socket_candidate(#[trigger] entries[j]) ==> entries[j].modified->0
            < entries[i].modified->0
}

/// The path of the most recently modified `gui-sock-*` entry; the first of
/// them in listing order where several share the latest time.
pub fn scan_socket_dir(entries: &Vec<SocketEntry>) -> (r: Option<String>)
    ensures
        r is None <==> forall|i: int| 0 <= i < entries@.len() ==> !is_socket_candidate(#[trigger] entries@[i]),
        r matches Some(p) ==> exists|i: int| is_newest_socket(entries@, i) && p@ == entries@[i].path@,
{
    let mut best: Option<usize> = None;
    let mut best_time: u128 = 0;
    let mut k: usize = 0;
    while k < entries.len()
        invariant
            k <= entries@.len(),
            best is None <==> forall|i: int| 0 <= i < k ==> !is_socket_candidate(#[trigger] entries@[i]),
            best matches Some(b) ==> {
                &&& b < k
                &&& is_socket_candidate(entries@[b as int])
                &&& entries@[b as int].modified->0 == best_time
                &&& forall|j: int|
                    0 <= j < k && is_socket_candidate(#[trigger] entries@[j]) ==> entries@[j].modified->0
                        <= best_time
                &&& forall|j: int|
                    0 <= j < b && is_socket_candidate(#[trigger] entries@[j]) ==> entries@[j].modified->0
                        < best_time
            },
        decreases entries@.len() - k,
    {
        let e = &entries[k];
        proof {
            reveal_strlit("gui-sock-");
        }
        if starts_with(e.name.as_str(), "gui-sock-") {
            match e.modified {
                Some(t) => {
                    let better = match best {
                        None => true,
                        Some(_) => t > best_time,
                    };
                    if better {
                        best = Some(k);
                        best_time = t;
                    }
                },
                None => {},
            }
        }
        k += 1;
    }
    match best {
        Some(b) => {
            assert(is_newest_socket(entries@, b as int));
            Some(entries[b].path.clone())
        },
        None => None,
    }
}

/// Discover a running server's socket.
///
/// `$CRUX_SOCKET` is used when it is set and `override_exists` reports that
/// the path exists. Otherwise the runtime directory is scanned: `listing` is
/// its contents, or `None` when it could not be read, in which case nothing
/// is found.
pub fn discover_socket_with(
    env: &SocketEnv,
    override_exists: bool,
    listing: Option<Vec<SocketEntry>>,
) -> (r: Option<String>)
    ensures
        (env.crux_socket is Some && override_exists) ==> r == Some(env.crux_socket->0),
        !(env.crux_socket is Some && override_exists) ==> match listing {
            None => r is None,
            Some(entries) => {
                &&& r is None <==> forall|i: int|
                    0 <= i < entries@.len() ==> !is_socket_candidate(#[trigger] entries@[i])
                &&& r matches Some(p) ==> exists|i: int|
                    is_newest_socket(entries@, i) && p@ == entries@[i].path@
            },
        },
{
    if let Some(path) = &env.crux_socket {
        if override_exists {
            return Some(path.clone());
        }
    }
    match listing {
        Some(entries) => scan_socket_dir(&entries),
        None => None,
    }
}

} // verus!
