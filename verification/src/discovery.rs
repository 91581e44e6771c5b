//! The search order that the cmux command line uses to find the socket of
//! a running cmux.

use vstd::prelude::*;
use crate::text::{chars_of, decimal, push_decimal, push_str, range_eq, string_from_chars, string_of, trim, trim_str};

verus! {

/// The runtime directory: `$XDG_RUNTIME_DIR` when set (even empty),
/// otherwise `/run/user/<uid>`.
pub open spec fn runtime_base(xdg_runtime: Option<Seq<char>>, uid: u32) -> Seq<char> {
    match xdg_runtime {
        Some(x) => x,
        None => "/run/user/"@ + decimal(uid as nat),
    }
}

pub open spec fn socket_in(base: Seq<char>) -> Seq<char> {
    base + "/cmux/cmux.sock"@
}

pub open spec fn marker_in(base: Seq<char>) -> Seq<char> {
    base + "/cmux/last-socket-path"@
}

/// The socket path and the marker-file path under the runtime directory.
pub fn discovery_paths(xdg_runtime: Option<&str>, uid: u32) -> (r: (String, String))
    ensures
        r.0@ == socket_in(runtime_base(opt(xdg_runtime), uid)),
        r.1@ == marker_in(runtime_base(opt(xdg_runtime), uid)),
{
    let mut base: Vec<char> = Vec::new();
    match xdg_runtime {
        Some(x) => push_str(&mut base, x),
        None => {
            push_str(&mut base, "/run/user/");
            push_decimal(&mut base, uid as u64);
        },
    }
    let mut a = base.clone();
    push_str(&mut a, "/cmux/cmux.sock");
    let mut b = base.clone();
    push_str(&mut b, "/cmux/last-socket-path");
    (string_from_chars(&a), string_from_chars(&b))
}

pub open spec fn opt(o: Option<&str>) -> Option<Seq<char>> {
    match o {
        Some(s) => Some(s@),
        None => None,
    }
}

/// The socket that a marker file names: its trimmed contents, unless
/// they are empty.
pub open spec fn marker_target_model(contents: Seq<char>) -> Option<Seq<char>> {
    if trim(contents).len() > 0 {
        Some(trim(contents))
    } else {
        None
    }
}

pub fn marker_target(contents: &str) -> (r: Option<String>)
    ensures
        match r {
            Some(t) => marker_target_model(contents@) == Some(t@),
            None => marker_target_model(contents@) is None,
        },
{
    let t = trim_str(contents);
    if crate::text::str_is_empty(t.as_str()) {
        None
    } else {
        Some(t)
    }
}

/// Whether a file name in `/tmp` is a debug socket: `cmux-debug-*.sock`.
pub open spec fn is_debug_socket_name(name: Seq<char>) -> bool {
    let p = "cmux-debug-"@;
    let s = ".sock"@;
    &&& name.len() >= p.len()
    &&& name.subrange(0, p.len() as int) == p
    &&& name.len() >= s.len()
    &&& name.subrange(name.len() - s.len(), name.len() as int) == s
}

pub fn debug_socket_name(name: &str) -> (b: bool)
    ensures
        b == is_debug_socket_name(name@),
{
    let v = chars_of(name);
    let p = chars_of("cmux-debug-");
    let s = chars_of(".sock");
    if v.len() < p.len() || v.len() < s.len() {
        return false;
    }
    range_eq(&v, 0, p.len(), &p) && range_eq(&v, v.len() - s.len(), v.len(), &s)
}

/// What was found on the system, in the order the search looks at it.
pub struct SocketProbe {
    /// `$CMUX_SOCKET_PATH`, when set.
    pub cmux_socket_path: Option<String>,
    /// `$CMUX_SOCKET`, when set.
    pub cmux_socket: Option<String>,
    /// `$XDG_RUNTIME_DIR`, when set.
    pub xdg_runtime: Option<String>,
    /// The user id, for the runtime directory when `$XDG_RUNTIME_DIR` is
    /// not set.
    pub uid: u32,
    /// Whether the socket under the runtime directory exists.
    pub runtime_socket_exists: bool,
    /// The contents of the marker file, when it could be read.
    pub marker_contents: Option<String>,
    /// Whether the path that the marker names exists.
    pub marker_target_exists: bool,
    /// Whether `/tmp/cmux-debug.sock` exists.
    pub debug_socket_exists: bool,
    /// The entries of `/tmp` whose metadata could be read: file name and
    /// modification time in nanoseconds since the Unix epoch.
    pub tmp_entries: Vec<(String, i128)>,
}

pub open spec fn entries_view(es: Seq<(String, i128)>) -> Seq<(Seq<char>, int)> {
    es.map_values(|e: (String, i128)| (e.0@, e.1 as int))
}

/// `Some(i)` when entry `i` is the newest debug socket (the first listed
/// among equally new ones), `None` when there is no debug socket.
pub open spec fn is_newest_debug(es: Seq<(Seq<char>, int)>, r: Option<int>) -> bool {
    match r {
        Some(i) => {
            &&& 0 <= i < es.len()
            &&& is_debug_socket_name(es[i].0)
            &&& forall|j: int| 0 <= j < es.len() && is_debug_socket_name(#[trigger] es[j].0) ==> es[j].1 <= es[i].1
            &&& forall|j: int| 0 <= j < i && is_debug_socket_name(#[trigger] es[j].0) ==> es[j].1 < es[i].1
        },
        None => forall|j: int| 0 <= j < es.len() ==> !is_debug_socket_name(#[trigger] es[j].0),
    }
}

/// The socket to connect to: a non-empty `$CMUX_SOCKET_PATH`, then a
/// non-empty `$CMUX_SOCKET` (neither checked for existence), then the
/// runtime-directory socket, the socket named by the marker file, and
/// `/tmp/cmux-debug.sock`, each if it exists, then the newest
/// `/tmp/cmux-debug-*.sock`; when none of them is found, the
/// runtime-directory socket is still the best candidate and is returned
/// though it does not exist yet.
pub open spec fn discover_model(p: SocketProbe, newest: Option<int>) -> Option<Seq<char>> {
    let base = runtime_base(
        match p.xdg_runtime {
            Some(x) => Some(x@),
            None => None,
        },
        p.uid,
    );
    if p.cmux_socket_path is Some && p.cmux_socket_path->0@.len() > 0 {
        Some(p.cmux_socket_path->0@)
    } else if p.cmux_socket is Some && p.cmux_socket->0@.len() > 0 {
        Some(p.cmux_socket->0@)
    } else if p.runtime_socket_exists {
        Some(socket_in(base))
    } else if p.marker_contents is Some && marker_target_model(p.marker_contents->0@) is Some
        && p.marker_target_exists {
        marker_target_model(p.marker_contents->0@)
    } else if p.debug_socket_exists {
        Some("/tmp/cmux-debug.sock"@)
    } else {
        match newest {
            Some(i) => Some("/tmp/"@ + entries_view(p.tmp_entries@)[i].0),
            None => Some(socket_in(base)),
        }
    }
}

/// The index of the newest debug socket among the entries.
pub fn newest_debug_socket(es: &Vec<(String, i128)>) -> (r: Option<usize>)
    ensures
        is_newest_debug(
            entries_view(es@),
            match r {
                Some(i) => Some(i as int),
                None => None,
            },
        ),
{
    let ghost ev = entries_view(es@);
    let mut best: Option<usize> = None;
    let mut i: usize = 0;
    while i < es.len()
        invariant
            i <= es@.len(),
            ev == entries_view(es@),
            match best {
                Some(b) => {
                    &&& b < i
                    &&& is_debug_socket_name(ev[b as int].0)
                    &&& forall|j: int| 0 <= j < i && is_debug_socket_name(#[trigger] ev[j].0) ==> ev[j].1 <= ev[b as int].1
                    &&& forall|j: int| 0 <= j < b && is_debug_socket_name(#[trigger] ev[j].0) ==> ev[j].1 < ev[b as int].1
                },
                None => forall|j: int| 0 <= j < i ==> !is_debug_socket_name(#[trigger] ev[j].0),
            },
        decreases es.len() - i,
    {
        assert(ev[i as int] == (es@[i as int].0@, es@[i as int].1 as int));
        if debug_socket_name(es[i].0.as_str()) {
            match best {
                None => {
                    best = Some(i);
                },
                Some(b) => {
                    assert(ev[b as int] == (es@[b as int].0@, es@[b as int].1 as int));
                    if es[i].1 > es[b].1 {
                        best = Some(i);
                    }
                },
            }
        }
        i = i + 1;
    }
    best
}

/// The socket to connect to (see [`discover_model`]).
pub fn discover_socket(p: &SocketProbe) -> (r: Option<String>)
    ensures
        exists|n: Option<int>|
            is_newest_debug(entries_view(p.tmp_entries@), n) && match r {
                Some(s) => discover_model(*p, n) == Some(s@),
                None => discover_model(*p, n) is None,
            },
{
    let n = newest_debug_socket(&p.tmp_entries);
    let ghost gn = match n {
        Some(i) => Some(i as int),
        None => None,
    };
    if let Some(v) = &p.cmux_socket_path {
        if !crate::text::str_is_empty(v.as_str()) {
            return Some(v.clone());
        }
    }
    if let Some(v) = &p.cmux_socket {
        if !crate::text::str_is_empty(v.as_str()) {
            return Some(v.clone());
        }
    }
    let xr: Option<&str> = match &p.xdg_runtime {
        Some(x) => Some(x.as_str()),
        None => None,
    };
    let (sock, _marker) = discovery_paths(xr, p.uid);
    if p.runtime_socket_exists {
        return Some(sock);
    }
    if let Some(c) = &p.marker_contents {
        if let Some(t) = marker_target(c.as_str()) {
            if p.marker_target_exists {
                return Some(t);
            }
        }
    }
    if p.debug_socket_exists {
        return Some(string_of("/tmp/cmux-debug.sock"));
    }
    match n {
        Some(i) => {
            let mut out: Vec<char> = Vec::new();
            push_str(&mut out, "/tmp/");
            push_str(&mut out, p.tmp_entries[i].0.as_str());
            assert(entries_view(p.tmp_entries@)[i as int].0 == p.tmp_entries@[i as int].0@);
            Some(string_from_chars(&out))
        },
        None => Some(sock),
    }
}

/// The search order of socket discovery. A non-empty `$CMUX_SOCKET_PATH`
/// is the answer whatever else holds; then a non-empty `$CMUX_SOCKET`.
/// Without either, an existing socket under the runtime directory
/// (`$XDG_RUNTIME_DIR`, else `/run/user/<uid>`) is the answer whatever the
/// marker file and the `/tmp` debug sockets are; only when it is missing
/// does a live marker target count, and only then `/tmp/cmux-debug.sock`,
/// then the newest `/tmp/cmux-debug-*.sock`. Some candidate is always
/// returned: with nothing found, the runtime-directory socket.
pub proof fn lemma_discovery_order(p: SocketProbe, n: Option<int>)
    ensures
        ({
            let env1 = p.cmux_socket_path;
            let env2 = p.cmux_socket;
            let no_env = !(env1 is Some && env1->0@.len() > 0) && !(env2 is Some && env2->0@.len() > 0);
            let runtime = match p.xdg_runtime {
                Some(x) => x@,
                None => "/run/user/"@ + decimal(p.uid as nat),
            } + "/cmux/cmux.sock"@;
            let marker_live = p.marker_target_exists && p.marker_contents is Some && trim(
                p.marker_contents->0@,
            ).len() > 0;
            &&& env1 is Some && env1->0@.len() > 0 ==> discover_model(p, n) == Some(env1->0@)
            &&& !(env1 is Some && env1->0@.len() > 0) && env2 is Some && env2->0@.len() > 0
                ==> discover_model(p, n) == Some(env2->0@)
            &&& no_env && p.runtime_socket_exists ==> discover_model(p, n) == Some(runtime)
            &&& no_env && !p.runtime_socket_exists && marker_live ==> discover_model(p, n) == Some(
                trim(p.marker_contents->0@),
            )
            &&& no_env && !p.runtime_socket_exists && !marker_live && p.debug_socket_exists
                ==> discover_model(p, n) == Some("/tmp/cmux-debug.sock"@)
            &&& no_env && !p.runtime_socket_exists && !marker_live && !p.debug_socket_exists
                && n is Some ==> discover_model(p, n) == Some(
                "/tmp/"@ + entries_view(p.tmp_entries@)[n->0].0,
            )
            &&& no_env && !p.runtime_socket_exists && !marker_live && !p.debug_socket_exists
                && n is None ==> discover_model(p, n) == Some(runtime)
            &&& discover_model(p, n) is Some
        }),
{
}

} // verus!
