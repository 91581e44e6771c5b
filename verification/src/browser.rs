//! The browser preview manager: its preview state, the agent-browser
//! daemon's lifecycle decisions, socket and port paths, and the stream
//! frames it forwards.

use vstd::prelude::*;
use base64::Engine;
use crate::paths::{
    chromium_candidates, chromium_candidates_model, join, join_path, resolve_chromium_path,
    ChromiumSource,
};
use crate::text::{
    chars_of, push_decimal, push_str, decimal, str_is_empty, string_from_chars, string_of,
    strings_view, trim, trim_str,
};

verus! {

/// What the preview pane shows.
#[derive(Debug, Clone)]
pub enum PreviewState {
    Empty,
    Loading,
    Connected,
    Streaming,
    Error(String),
}

/// The mathematical value of a [`PreviewState`].
pub enum PreviewModel {
    Empty,
    Loading,
    Connected,
    Streaming,
    Error(Seq<char>),
}

impl View for PreviewState {
    type V = PreviewModel;

    open spec fn view(&self) -> PreviewModel {
        match self {
            PreviewState::Empty => PreviewModel::Empty,
            PreviewState::Loading => PreviewModel::Loading,
            PreviewState::Connected => PreviewModel::Connected,
            PreviewState::Streaming => PreviewModel::Streaming,
            PreviewState::Error(e) => PreviewModel::Error(e@),
        }
    }
}

impl PartialEq for PreviewState {
    fn eq(&self, other: &Self) -> (r: bool) {
        let r = match self {
            PreviewState::Empty => matches!(other, PreviewState::Empty),
            PreviewState::Loading => matches!(other, PreviewState::Loading),
            PreviewState::Connected => matches!(other, PreviewState::Connected),
            PreviewState::Streaming => matches!(other, PreviewState::Streaming),
            PreviewState::Error(a) => match other {
                PreviewState::Error(b) => {
                    let same = a.eq(b);
                    assert(same == (a@ == b@));
                    same
                },
                _ => false,
            },
        };
        assert(r == (self@ == other@));
        r
    }
}

impl vstd::std_specs::cmp::PartialEqSpecImpl for PreviewState {
    open spec fn obeys_eq_spec() -> bool {
        true
    }

    open spec fn eq_spec(&self, other: &Self) -> bool {
        self@ == other@
    }
}

impl Eq for PreviewState {
}

/// The status label that the pane overlays for a state, as its text and
/// style class: none while connected or streaming.
pub open spec fn overlay_model(s: PreviewModel) -> Option<(Seq<char>, Seq<char>)> {
    match s {
        PreviewModel::Empty => Some(("No browser preview"@, "preview-empty"@)),
        PreviewModel::Loading => Some(("Starting browser..."@, "preview-empty"@)),
        PreviewModel::Connected => None,
        PreviewModel::Streaming => None,
        PreviewModel::Error(m) => Some((m, "preview-error"@)),
    }
}

pub fn overlay_label(state: &PreviewState) -> (r: Option<(String, String)>)
    ensures
        match r {
            Some((t, c)) => overlay_model(state@) == Some((t@, c@)),
            None => overlay_model(state@) is None,
        },
{
    match state {
        PreviewState::Empty => Some((string_of("No browser preview"), string_of("preview-empty"))),
        PreviewState::Loading => Some((string_of("Starting browser..."), string_of("preview-empty"))),
        PreviewState::Connected => None,
        PreviewState::Streaming => None,
        PreviewState::Error(m) => Some((m.clone(), string_of("preview-error"))),
    }
}

/// The session name of the single agent-browser daemon of a cmux
/// instance.
pub open spec fn session_name() -> Seq<char> {
    "cmux"@
}

/// The first path of `ps` that `avail` lists.
pub open spec fn first_listed(ps: Seq<Seq<char>>, avail: Seq<Seq<char>>) -> Option<Seq<char>>
    decreases ps.len(),
{
    if ps.len() == 0 {
        None
    } else if avail.contains(ps[0]) {
        Some(ps[0])
    } else {
        first_listed(ps.subrange(1, ps.len() as int), avail)
    }
}

proof fn lemma_first_listed(ps: Seq<Seq<char>>, avail: Seq<Seq<char>>, r: Option<int>)
    requires
        crate::paths::is_first_available(ps, avail, r),
    ensures
        first_listed(ps, avail) == match r {
            Some(i) => Some(ps[i]),
            None => None,
        },
    decreases ps.len(),
{
    if ps.len() > 0 {
        let rest = ps.subrange(1, ps.len() as int);
        match r {
            Some(i) => {
                if i > 0 {
                    assert(!avail.contains(ps[0]));
                    assert forall|j: int| 0 <= j < i - 1 implies !avail.contains(#[trigger] rest[j]) by {
                        assert(rest[j] == ps[j + 1]);
                    }
                    assert(rest[i - 1] == ps[i]);
                    lemma_first_listed(rest, avail, Some(i - 1));
                }
            },
            None => {
                assert(!avail.contains(ps[0]));
                assert forall|j: int| 0 <= j < rest.len() implies !avail.contains(#[trigger] rest[j]) by {
                    assert(rest[j] == ps[j + 1]);
                }
                lemma_first_listed(rest, avail, None);
            },
        }
    }
}

/// The Chromium binary chosen from the configured override, the bundled
/// location and `$PATH`, given which of the candidates are executable.
pub open spec fn resolved_chromium(
    config_override: Option<Seq<char>>,
    bundled: Seq<char>,
    path_var: Seq<char>,
    executables: Seq<Seq<char>>,
) -> Option<Seq<char>> {
    first_listed(
        chromium_candidates_model(config_override, bundled, path_var).map_values(
            |c: (Seq<char>, ChromiumSource)| c.0,
        ),
        executables,
    )
}

pub open spec fn opt_str(o: Option<&str>) -> Option<Seq<char>> {
    match o {
        Some(s) => Some(s@),
        None => None,
    }
}

pub open spec fn opt_string(o: Option<String>) -> Option<Seq<char>> {
    match o {
        Some(s) => Some(s@),
        None => None,
    }
}

/// The manager of the preview pane's agent-browser daemon.
pub struct BrowserManager {
    session_name: String,
    pub preview_state: PreviewState,
    chromium_path: Option<String>,
    daemon_spawned: bool,
    stream_running: bool,
}

/// Why spawning the daemon failed.
pub enum SpawnFailure {
    /// No agent-browser binary was found.
    BinaryNotFound,
    /// The socket directory could not be created.
    SocketDir { dir: String, error: String },
    /// The process could not be started.
    Spawn { error: String },
}

/// What the daemon needs before the bootstrap can go on.
#[derive(Clone, Copy, Debug, PartialEq, Eq, Structural)]
pub enum SpawnStep {
    /// The daemon already answers on its socket.
    Ready,
    /// A child was spawned earlier and is still coming up.
    InFlight,
    /// A daemon child must be spawned now.
    Spawn,
}

/// What the caller of `shutdown` must tear down.
#[derive(Clone, Copy, Debug, PartialEq, Eq, Structural)]
pub struct ShutdownPlan {
    /// A daemon child was spawned and must be reaped.
    pub reap_child: bool,
    /// A stream reader task runs and must be aborted.
    pub abort_stream: bool,
}

/// The stream connection to open.
pub struct StreamStart {
    pub url: String,
    /// A previous stream reader runs and must be aborted first.
    pub abort_prior: bool,
}

/// How a request to open the browser begins.
#[derive(Clone, Copy, Debug, PartialEq, Eq, Structural)]
pub enum OpenStart {
    /// A bootstrap is already in flight; the request is dropped.
    Ignored,
    /// The pane is now loading; the daemon needs what the step says.
    Started(SpawnStep),
}

pub open spec fn spawn_model(daemon_spawned: bool, ready: bool) -> SpawnStep {
    if ready {
        SpawnStep::Ready
    } else if daemon_spawned {
        SpawnStep::InFlight
    } else {
        SpawnStep::Spawn
    }
}

/// Opening the browser, on the preview state: nothing changes while
/// loading; otherwise the pane becomes loading.
pub open spec fn open_model(preview: PreviewModel, daemon_spawned: bool, ready: bool) -> (
    PreviewModel,
    OpenStart,
) {
    if preview is Loading {
        (preview, OpenStart::Ignored)
    } else {
        (PreviewModel::Loading, OpenStart::Started(spawn_model(daemon_spawned, ready)))
    }
}

/// A second request to open the browser, made while the first one's
/// bootstrap is in flight, is ignored: after any request the pane is
/// loading, and a request on a loading pane changes nothing.
pub proof fn lemma_open_reentry_guard(
    p: PreviewModel,
    spawned: bool,
    ready: bool,
    spawned2: bool,
    ready2: bool,
)
    ensures
        open_model(p, spawned, ready).0 == PreviewModel::Loading,
        open_model(open_model(p, spawned, ready).0, spawned2, ready2) == (
            PreviewModel::Loading,
            OpenStart::Ignored,
        ),
{
}

/// What follows when the bootstrap worker reports back.
#[derive(Clone, Copy, Debug, PartialEq, Eq, Structural)]
pub enum OpenFollowUp {
    /// Wire the pane's stream and input handlers.
    WirePane,
    /// Tear the hung daemon down as the plan says.
    TearDown(ShutdownPlan),
    /// Nothing more to do.
    Nothing,
}

pub open spec fn spawn_failure_message(f: SpawnFailure) -> Seq<char> {
    match f {
        SpawnFailure::BinaryNotFound => "agent-browser not found in PATH. Install it or place it alongside the cmux binary."@,
        SpawnFailure::SocketDir { dir, error } => "Failed to create socket dir "@ + dir@ + ": "@ + error@,
        SpawnFailure::Spawn { error } => "Failed to spawn agent-browser: "@ + error@,
    }
}

/// The socket directory, as agent-browser itself finds it: a non-empty
/// `$AGENT_BROWSER_SOCKET_DIR`, else `agent-browser` under a non-empty
/// `$XDG_RUNTIME_DIR`, else `.agent-browser` under `$HOME`, else
/// `agent-browser` under the temporary directory.
pub open spec fn socket_dir_model(
    socket_dir_env: Option<Seq<char>>,
    xdg_runtime: Option<Seq<char>>,
    home: Option<Seq<char>>,
    temp_dir: Seq<char>,
) -> Seq<char> {
    if socket_dir_env is Some && socket_dir_env->0.len() > 0 {
        socket_dir_env->0
    } else if xdg_runtime is Some && xdg_runtime->0.len() > 0 {
        join(xdg_runtime->0, "agent-browser"@)
    } else if home is Some {
        join(home->0, ".agent-browser"@)
    } else {
        join(temp_dir, "agent-browser"@)
    }
}

/// The environment of the daemon child, besides the inherited one.
pub open spec fn daemon_env_model(session: Seq<char>, chromium: Option<Seq<char>>) -> Seq<
    (Seq<char>, Seq<char>),
> {
    let base = seq![
        ("AGENT_BROWSER_DAEMON"@, "1"@),
        ("AGENT_BROWSER_SESSION"@, session),
        ("AGENT_BROWSER_STREAM_PORT"@, "0"@),
    ];
    match chromium {
        Some(p) => base.push(("AGENT_BROWSER_EXECUTABLE_PATH"@, p)),
        None => base,
    }
}

pub open spec fn pairs_view(v: Seq<(String, String)>) -> Seq<(Seq<char>, Seq<char>)> {
    v.map_values(|p: (String, String)| (p.0@, p.1@))
}

impl BrowserManager {
    /// The state the preview pane shows.
    pub closed spec fn preview(&self) -> PreviewModel {
        self.preview_state@
    }

    pub closed spec fn session(&self) -> Seq<char> {
        self.session_name@
    }

    pub closed spec fn chromium(&self) -> Option<Seq<char>> {
        opt_string(self.chromium_path)
    }

    /// Whether a daemon child has been spawned and not shut down.
    pub closed spec fn daemon_spawned(&self) -> bool {
        self.daemon_spawned
    }

    /// Whether a stream reader task runs.
    pub closed spec fn stream_running(&self) -> bool {
        self.stream_running
    }

    /// A manager that will hand `chromium_path` to agent-browser (`None`
    /// lets agent-browser find a browser itself).
    pub fn new(chromium_path: Option<String>) -> (r: Self)
        ensures
            r.session() == session_name(),
            r.preview() == PreviewModel::Empty,
            r.chromium() == opt_string(chromium_path),
            !r.daemon_spawned(),
            !r.stream_running(),
    {
        BrowserManager {
            session_name: string_of("cmux"),
            preview_state: PreviewState::Empty,
            chromium_path,
            daemon_spawned: false,
            stream_running: false,
        }
    }

    /// A manager whose Chromium binary is resolved from the configured
    /// override, the bundled location and `$PATH`, given the candidates
    /// that are executable.
    pub fn with_config_path(
        config_override: Option<&str>,
        bundled: &str,
        path_var: &str,
        executables: &Vec<String>,
    ) -> (r: Self)
        ensures
            r.session() == session_name(),
            r.preview() == PreviewModel::Empty,
            r.chromium() == resolved_chromium(
                opt_str(config_override),
                bundled@,
                path_var@,
                strings_view(executables@),
            ),
            !r.daemon_spawned(),
            !r.stream_running(),
    {
        let cands = chromium_candidates(config_override, bundled, path_var);
        let chosen = resolve_chromium_path(&cands, executables);
        let ghost ps = crate::paths::candidates_view(cands@).map_values(
            |c: (Seq<char>, ChromiumSource)| c.0,
        );
        let path = match chosen {
            Some(c) => {
                proof {
                    let i = choose|i: int|
                        crate::paths::is_first_available(ps, strings_view(executables@), Some(i))
                            && crate::paths::candidates_view(cands@)[i] == (c.path@, c.source);
                    lemma_first_listed(ps, strings_view(executables@), Some(i));
                }
                Some(c.path)
            },
            None => {
                proof {
                    lemma_first_listed(ps, strings_view(executables@), None);
                }
                None
            },
        };
        Self::new(path)
    }

    /// The resolved Chromium binary, if any.
    pub fn chromium_path(&self) -> (r: Option<&str>)
        ensures
            opt_str(r) == self.chromium(),
    {
        match &self.chromium_path {
            Some(p) => Some(p.as_str()),
            None => None,
        }
    }

    /// The socket directory (see [`socket_dir_model`]).
    pub fn agent_browser_socket_dir(
        socket_dir_env: Option<&str>,
        xdg_runtime: Option<&str>,
        home: Option<&str>,
        temp_dir: &str,
    ) -> (r: String)
        ensures
            r@ == socket_dir_model(opt_str(socket_dir_env), opt_str(xdg_runtime), opt_str(home), temp_dir@),
    {
        if let Some(d) = socket_dir_env {
            if !str_is_empty(d) {
                return string_of(d);
            }
        }
        if let Some(x) = xdg_runtime {
            if !str_is_empty(x) {
                return join_path(x, "agent-browser");
            }
        }
        if let Some(h) = home {
            return join_path(h, ".agent-browser");
        }
        join_path(temp_dir, "agent-browser")
    }

    fn session_file(&self, socket_dir: &str, ext: &str) -> (r: String)
        ensures
            r@ == join(socket_dir@, self.session() + ext@),
    {
        let mut name: Vec<char> = chars_of(self.session_name.as_str());
        push_str(&mut name, ext);
        let n = string_from_chars(&name);
        join_path(socket_dir, n.as_str())
    }

    /// The daemon's command socket, `<session>.sock` in the socket
    /// directory.
    pub fn daemon_socket_path(&self, socket_dir: &str) -> (r: String)
        ensures
            r@ == join(socket_dir@, self.session() + ".sock"@),
    {
        self.session_file(socket_dir, ".sock")
    }

    /// The file in which the daemon publishes its stream port,
    /// `<session>.stream` in the socket directory.
    pub fn stream_port_path(&self, socket_dir: &str) -> (r: String)
        ensures
            r@ == join(socket_dir@, self.session() + ".stream"@),
    {
        self.session_file(socket_dir, ".stream")
    }

    /// The environment variables to set for the daemon child.
    pub fn daemon_env(&self) -> (r: Vec<(String, String)>)
        ensures
            pairs_view(r@) == daemon_env_model(self.session(), self.chromium()),
    {
        let mut v: Vec<(String, String)> = Vec::new();
        v.push((string_of("AGENT_BROWSER_DAEMON"), string_of("1")));
        v.push((string_of("AGENT_BROWSER_SESSION"), self.session_name.clone()));
        v.push((string_of("AGENT_BROWSER_STREAM_PORT"), string_of("0")));
        let ghost base = pairs_view(v@);
        assert(base =~= seq![
            ("AGENT_BROWSER_DAEMON"@, "1"@),
            ("AGENT_BROWSER_SESSION"@, self.session()),
            ("AGENT_BROWSER_STREAM_PORT"@, "0"@),
        ]);
        if let Some(p) = &self.chromium_path {
            v.push((string_of("AGENT_BROWSER_EXECUTABLE_PATH"), p.clone()));
            assert(pairs_view(v@) =~= base.push(("AGENT_BROWSER_EXECUTABLE_PATH"@, p@)));
        }
        v
    }

    /// Whether a bootstrap is under way, during which opening the browser
    /// again does nothing.
    pub fn bootstrap_in_flight(&self) -> (b: bool)
        ensures
            b == (self.preview() is Loading),
    {
        matches!(self.preview_state, PreviewState::Loading)
    }

    /// The first half of bringing the daemon up: marks the pane as
    /// loading on every path, then says whether a child must be spawned.
    pub fn spawn_daemon_child_if_needed(&mut self, daemon_ready: bool) -> (r: SpawnStep)
        ensures
            final(self).preview() == PreviewModel::Loading,
            final(self).session() == old(self).session(),
            final(self).chromium() == old(self).chromium(),
            final(self).daemon_spawned() == old(self).daemon_spawned(),
            final(self).stream_running() == old(self).stream_running(),
            r == (if daemon_ready {
                SpawnStep::Ready
            } else if old(self).daemon_spawned() {
                SpawnStep::InFlight
            } else {
                SpawnStep::Spawn
            }),
    {
        self.preview_state = PreviewState::Loading;
        if daemon_ready {
            SpawnStep::Ready
        } else if self.daemon_spawned {
            SpawnStep::InFlight
        } else {
            SpawnStep::Spawn
        }
    }

    /// Opening the browser: ignored while a bootstrap is in flight;
    /// otherwise the first half of bringing the daemon up.
    pub fn begin_open(&mut self, daemon_ready: bool) -> (r: OpenStart)
        ensures
            (final(self).preview(), r) == open_model(
                old(self).preview(),
                old(self).daemon_spawned(),
                daemon_ready,
            ),
            final(self).session() == old(self).session(),
            final(self).chromium() == old(self).chromium(),
            final(self).daemon_spawned() == old(self).daemon_spawned(),
            final(self).stream_running() == old(self).stream_running(),
    {
        if self.bootstrap_in_flight() {
            OpenStart::Ignored
        } else {
            OpenStart::Started(self.spawn_daemon_child_if_needed(daemon_ready))
        }
    }

    /// Records how spawning the child went: on success the child is
    /// tracked; a failure becomes its error message.
    pub fn finish_spawn(&mut self, outcome: Result<(), SpawnFailure>) -> (r: Result<(), String>)
        ensures
            final(self).session() == old(self).session(),
            final(self).chromium() == old(self).chromium(),
            final(self).stream_running() == old(self).stream_running(),
            match outcome {
                Ok(()) => r is Ok && final(self).daemon_spawned() && final(self).preview()
                    == PreviewModel::Loading,
                Err(f) => r matches Err(m) && m@ == spawn_failure_message(f)
                    && final(self).daemon_spawned() == old(self).daemon_spawned()
                    && final(self).preview() == old(self).preview(),
            },
    {
        match outcome {
            Ok(()) => {
                self.daemon_spawned = true;
                self.preview_state = PreviewState::Loading;
                Ok(())
            },
            Err(SpawnFailure::BinaryNotFound) => Err(
                string_of(
                    "agent-browser not found in PATH. Install it or place it alongside the cmux binary.",
                ),
            ),
            Err(SpawnFailure::SocketDir { dir, error }) => {
                let mut m: Vec<char> = Vec::new();
                push_str(&mut m, "Failed to create socket dir ");
                push_str(&mut m, dir.as_str());
                push_str(&mut m, ": ");
                push_str(&mut m, error.as_str());
                Err(string_from_chars(&m))
            },
            Err(SpawnFailure::Spawn { error }) => {
                let mut m: Vec<char> = Vec::new();
                push_str(&mut m, "Failed to spawn agent-browser: ");
                push_str(&mut m, error.as_str());
                Err(string_from_chars(&m))
            },
        }
    }

    /// The end of bringing the daemon up synchronously: a successful
    /// bootstrap marks the daemon as connected; a failed one is reported
    /// as it is and changes nothing.
    pub fn ensure_daemon(&mut self, bootstrap: Result<(), String>) -> (r: Result<(), String>)
        ensures
            r == bootstrap,
            bootstrap is Ok ==> final(self).preview() == PreviewModel::Connected,
            bootstrap is Err ==> final(self).preview() == old(self).preview(),
            final(self).session() == old(self).session(),
            final(self).chromium() == old(self).chromium(),
            final(self).daemon_spawned() == old(self).daemon_spawned(),
            final(self).stream_running() == old(self).stream_running(),
    {
        if bootstrap.is_ok() {
            self.preview_state = PreviewState::Connected;
        }
        bootstrap
    }

    /// The stream port, given what reading the port file in `socket_dir`
    /// gave: its contents, or the read error's text.
    pub fn read_stream_port(&self, socket_dir: &str, contents: Result<&str, &str>) -> (r: Result<u16, String>)
        ensures
            match contents {
                Ok(c) => match r {
                    Ok(p) => stream_port_model(c@) == Ok::<nat, Seq<char>>(p as nat),
                    Err(m) => stream_port_model(c@) == Err::<nat, Seq<char>>(m@),
                },
                Err(e) => r matches Err(m) && m@ == "Failed to read stream port file "@ + join(
                    socket_dir@,
                    self.session() + ".stream"@,
                ) + ": "@ + e@,
            },
    {
        match contents {
            Ok(c) => parse_stream_port(c),
            Err(e) => {
                let path = self.stream_port_path(socket_dir);
                Err(stream_port_read_error(path.as_str(), e))
            },
        }
    }

    /// Forgets the daemon child and the stream task, and says which of
    /// them the caller must tear down; the close request is sent to the
    /// daemon socket in any case.
    pub fn shutdown(&mut self) -> (r: ShutdownPlan)
        ensures
            r == (ShutdownPlan {
                reap_child: old(self).daemon_spawned(),
                abort_stream: old(self).stream_running(),
            }),
            !final(self).daemon_spawned(),
            !final(self).stream_running(),
            final(self).preview() == old(self).preview(),
            final(self).session() == old(self).session(),
            final(self).chromium() == old(self).chromium(),
    {
        let r = ShutdownPlan { reap_child: self.daemon_spawned, abort_stream: self.stream_running };
        self.daemon_spawned = false;
        self.stream_running = false;
        r
    }

    /// What follows when the bootstrap worker reports back: on success the
    /// pane is connected and gets wired; on failure the hung daemon is torn
    /// down and the pane shows the error; when the worker vanished, the
    /// pane goes back to empty.
    pub fn bootstrap_finished(&mut self, outcome: Option<Result<(), String>>) -> (r: OpenFollowUp)
        ensures
            final(self).session() == old(self).session(),
            final(self).chromium() == old(self).chromium(),
            match outcome {
                Some(Ok(())) => r == OpenFollowUp::WirePane && final(self).preview()
                    == PreviewModel::Connected && final(self).daemon_spawned()
                    == old(self).daemon_spawned() && final(self).stream_running()
                    == old(self).stream_running(),
                Some(Err(e)) => r == OpenFollowUp::TearDown(
                    ShutdownPlan {
                        reap_child: old(self).daemon_spawned(),
                        abort_stream: old(self).stream_running(),
                    },
                ) && final(self).preview() == PreviewModel::Error(e@)
                    && !final(self).daemon_spawned() && !final(self).stream_running(),
                None => r == OpenFollowUp::Nothing && final(self).preview()
                    == PreviewModel::Empty && final(self).daemon_spawned()
                    == old(self).daemon_spawned() && final(self).stream_running()
                    == old(self).stream_running(),
            },
    {
        match outcome {
            Some(Ok(())) => {
                self.preview_state = PreviewState::Connected;
                OpenFollowUp::WirePane
            },
            Some(Err(e)) => {
                let plan = self.shutdown();
                self.preview_state = PreviewState::Error(e);
                OpenFollowUp::TearDown(plan)
            },
            None => {
                self.preview_state = PreviewState::Empty;
                OpenFollowUp::Nothing
            },
        }
    }

    /// Starts streaming from the daemon's stream port: the WebSocket URL
    /// to connect to, and whether a previous reader must be aborted.
    pub fn start_stream(&mut self, port: u16) -> (r: StreamStart)
        ensures
            r.url@ == "ws://127.0.0.1:"@ + decimal(port as nat),
            r.abort_prior == old(self).stream_running(),
            final(self).stream_running(),
            final(self).preview() == PreviewModel::Streaming,
            final(self).daemon_spawned() == old(self).daemon_spawned(),
            final(self).session() == old(self).session(),
            final(self).chromium() == old(self).chromium(),
    {
        let mut u: Vec<char> = Vec::new();
        push_str(&mut u, "ws://127.0.0.1:");
        push_decimal(&mut u, port as u64);
        let abort_prior = self.stream_running;
        self.stream_running = true;
        self.preview_state = PreviewState::Streaming;
        StreamStart { url: string_from_chars(&u), abort_prior }
    }
}

/// Why a text is not a decimal `u16`, as `ParseIntError` reports it.
#[derive(Clone, Copy, Debug, PartialEq, Eq, Structural)]
pub enum IntErrorKind {
    Empty,
    InvalidDigit,
    PosOverflow,
}

pub open spec fn is_digit(c: char) -> bool {
    '0' <= c && c <= '9'
}

/// Reading digits left to right: a non-digit is an invalid digit, and a
/// value above `u16::MAX` an overflow, whichever comes first.
pub open spec fn scan_u16(d: Seq<char>) -> Result<nat, IntErrorKind>
    decreases d.len(),
{
    if d.len() == 0 {
        Ok(0)
    } else {
        match scan_u16(d.drop_last()) {
            Err(e) => Err(e),
            Ok(v) => if !is_digit(d.last()) {
                Err(IntErrorKind::InvalidDigit)
            } else if v * 10 + (d.last() as nat - 48) > 65535 {
                Err(IntErrorKind::PosOverflow)
            } else {
                Ok((v * 10 + (d.last() as nat - 48)) as nat)
            },
        }
    }
}

/// `str::parse::<u16>`: an optional `+`, then decimal digits.
pub open spec fn parse_u16_model(s: Seq<char>) -> Result<nat, IntErrorKind> {
    if s.len() == 0 {
        Err(IntErrorKind::Empty)
    } else if (s[0] == '+' || s[0] == '-') && s.len() == 1 {
        Err(IntErrorKind::InvalidDigit)
    } else if s[0] == '+' {
        scan_u16(s.subrange(1, s.len() as int))
    } else {
        scan_u16(s)
    }
}

pub open spec fn int_error_text(k: IntErrorKind) -> Seq<char> {
    match k {
        IntErrorKind::Empty => "cannot parse integer from empty string"@,
        IntErrorKind::InvalidDigit => "invalid digit found in string"@,
        IntErrorKind::PosOverflow => "number too large to fit in target type"@,
    }
}

pub fn parse_u16(s: &str) -> (r: Result<u16, IntErrorKind>)
    ensures
        match r {
            Ok(v) => parse_u16_model(s@) == Ok::<nat, IntErrorKind>(v as nat),
            Err(k) => parse_u16_model(s@) == Err::<nat, IntErrorKind>(k),
        },
{
    let v = chars_of(s);
    if v.len() == 0 {
        return Err(IntErrorKind::Empty);
    }
    if (v[0] == '+' || v[0] == '-') && v.len() == 1 {
        return Err(IntErrorKind::InvalidDigit);
    }
    let start: usize = if v[0] == '+' {
        1
    } else {
        0
    };
    let ghost d = v@.subrange(start as int, v.len() as int);
    proof {
        if start == 1 {
            assert(d =~= s@.subrange(1, s@.len() as int));
        } else {
            assert(d =~= s@);
        }
    }
    assert(parse_u16_model(s@) == scan_u16(d));
    let mut acc: u32 = 0;
    let mut i = start;
    assert(d.subrange(0, 0) =~= Seq::<char>::empty());
    while i < v.len()
        invariant
            start <= i <= v.len(),
            d == v@.subrange(start as int, v.len() as int),
            acc <= 65535,
            parse_u16_model(s@) == scan_u16(d),
            scan_u16(d.subrange(0, i - start)) == Ok::<nat, IntErrorKind>(acc as nat),
        decreases v.len() - i,
    {
        let c = v[i];
        let ghost pre = d.subrange(0, i - start);
        assert(d.subrange(0, i - start + 1).drop_last() =~= pre);
        assert(d.subrange(0, i - start + 1).last() == c);
        if !('0' <= c && c <= '9') {
            assert(scan_u16(d.subrange(0, i - start + 1)) == Err::<nat, IntErrorKind>(
                IntErrorKind::InvalidDigit,
            ));
            proof {
                lemma_scan_prefix_err(d, (i - start + 1) as int, IntErrorKind::InvalidDigit);
            }
            return Err(IntErrorKind::InvalidDigit);
        }
        let digit = (c as u32) - 48;
        let next = acc * 10 + digit;
        if next > 65535 {
            assert(scan_u16(d.subrange(0, i - start + 1)) == Err::<nat, IntErrorKind>(
                IntErrorKind::PosOverflow,
            ));
            proof {
                lemma_scan_prefix_err(d, (i - start + 1) as int, IntErrorKind::PosOverflow);
            }
            return Err(IntErrorKind::PosOverflow);
        }
        acc = next;
        i = i + 1;
    }
    assert(d.subrange(0, v.len() - start) =~= d);
    Ok(acc as u16)
}

/// An error of a prefix is the error of the whole text.
proof fn lemma_scan_prefix_err(d: Seq<char>, k: int, e: IntErrorKind)
    requires
        0 <= k <= d.len(),
        scan_u16(d.subrange(0, k)) == Err::<nat, IntErrorKind>(e),
    ensures
        scan_u16(d) == Err::<nat, IntErrorKind>(e),
    decreases d.len() - k,
{
    if k < d.len() {
        let p = d.subrange(0, k + 1);
        assert(p.drop_last() =~= d.subrange(0, k));
        lemma_scan_prefix_err(d, k + 1, e);
    } else {
        assert(d.subrange(0, k) =~= d);
    }
}

/// The port in the stream port file, or why it could not be read.
pub open spec fn stream_port_model(contents: Seq<char>) -> Result<nat, Seq<char>> {
    match parse_u16_model(trim(contents)) {
        Ok(v) => Ok(v),
        Err(k) => Err("Failed to parse stream port '"@ + trim(contents) + "': "@ + int_error_text(k)),
    }
}

fn int_error_message(k: IntErrorKind) -> (r: String)
    ensures
        r@ == int_error_text(k),
{
    match k {
        IntErrorKind::Empty => string_of("cannot parse integer from empty string"),
        IntErrorKind::InvalidDigit => string_of("invalid digit found in string"),
        IntErrorKind::PosOverflow => string_of("number too large to fit in target type"),
    }
}

/// The stream port written in the port file's `contents`.
pub fn parse_stream_port(contents: &str) -> (r: Result<u16, String>)
    ensures
        match r {
            Ok(p) => stream_port_model(contents@) == Ok::<nat, Seq<char>>(p as nat),
            Err(m) => stream_port_model(contents@) == Err::<nat, Seq<char>>(m@),
        },
{
    let t = trim_str(contents);
    match parse_u16(t.as_str()) {
        Ok(p) => Ok(p),
        Err(k) => {
            let mut m: Vec<char> = Vec::new();
            push_str(&mut m, "Failed to parse stream port '");
            push_str(&mut m, t.as_str());
            push_str(&mut m, "': ");
            let e = int_error_message(k);
            push_str(&mut m, e.as_str());
            Err(string_from_chars(&m))
        },
    }
}

/// The message for a stream port file that could not be read.
pub fn stream_port_read_error(path: &str, error: &str) -> (r: String)
    ensures
        r@ == "Failed to read stream port file "@ + path@ + ": "@ + error@,
{
    let mut m: Vec<char> = Vec::new();
    push_str(&mut m, "Failed to read stream port file ");
    push_str(&mut m, path);
    push_str(&mut m, ": ");
    push_str(&mut m, error);
    string_from_chars(&m)
}

/// What `try_wait` reported about the daemon child.
#[derive(Clone, Copy, Debug, PartialEq, Eq, Structural)]
pub enum ChildPoll {
    Exited,
    Running,
    Failed,
}

/// The next move while reaping the daemon child after a shutdown.
#[derive(Clone, Copy, Debug, PartialEq, Eq, Structural)]
pub enum ReapAction {
    /// The child is gone, or its state cannot be known: stop.
    Stop,
    /// The child outlived the grace period: kill it and stop.
    Kill,
    /// Wait this many milliseconds and poll again.
    Sleep(u64),
}

/// The grace period before a child is killed, in nanoseconds.
pub open spec fn reap_grace_nanos() -> int {
    2_000_000_000
}

pub fn reap_action(poll: ChildPoll, elapsed_nanos: u128) -> (r: ReapAction)
    ensures
        r == match poll {
            ChildPoll::Exited => ReapAction::Stop,
            ChildPoll::Failed => ReapAction::Stop,
            ChildPoll::Running => if elapsed_nanos > reap_grace_nanos() {
                ReapAction::Kill
            } else {
                ReapAction::Sleep(100)
            },
        },
{
    match poll {
        ChildPoll::Exited => ReapAction::Stop,
        ChildPoll::Failed => ReapAction::Stop,
        ChildPoll::Running => if elapsed_nanos > 2_000_000_000 {
            ReapAction::Kill
        } else {
            ReapAction::Sleep(100)
        },
    }
}

/// What the standard Base64 engine (with canonical padding) decodes
/// `text` to, or `None` when `text` is not valid Base64.
pub uninterp spec fn base64_standard_decode(text: Seq<char>) -> Option<Seq<u8>>;

/// Decodes with `base64::engine::general_purpose::STANDARD.decode`. The
/// contract claims only that the bytes are what `base64_standard_decode`
/// names for the text, and `None` exactly when the crate reports a decode
/// error; nothing is claimed about which texts decode.
#[verifier::external_body]
fn decode_base64(text: &str) -> (r: Option<Vec<u8>>)
    ensures
        match r {
            Some(b) => base64_standard_decode(text@) == Some(b@),
            None => base64_standard_decode(text@) is None,
        },
{
    base64::engine::general_purpose::STANDARD.decode(text).ok()
}

/// The JPEG bytes of a stream message with the given `type` and `data`
/// string fields: only a `frame` message with Base64 data that decodes
/// yields bytes.
pub open spec fn frame_model(msg_type: Option<Seq<char>>, data: Option<Seq<char>>) -> Option<Seq<u8>> {
    if msg_type == Some("frame"@) && data is Some {
        base64_standard_decode(data->0)
    } else {
        None
    }
}

pub fn frame_bytes(msg_type: Option<&str>, data: Option<&str>) -> (r: Option<Vec<u8>>)
    ensures
        match r {
            Some(b) => frame_model(opt_str(msg_type), opt_str(data)) == Some(b@),
            None => frame_model(opt_str(msg_type), opt_str(data)) is None,
        },
{
    let is_frame = match msg_type {
        Some(t) => {
            let a = chars_of(t);
            let f = chars_of("frame");
            proof {
                assert(a@.subrange(0, a.len() as int) =~= a@);
            }
            crate::text::range_eq(&a, 0, a.len(), &f)
        },
        None => false,
    };
    if is_frame {
        match data {
            Some(d) => decode_base64(d),
            None => None,
        }
    } else {
        None
    }
}

/// What `serde_json` finds for `key` in `text`: the string member `key`
/// of the JSON value that `text` parses to, or `None` when `text` does not
/// parse or that member is missing or not a string.
pub uninterp spec fn json_string_field(text: Seq<char>, key: Seq<char>) -> Option<Seq<char>>;

/// Parses `text` with `serde_json::from_str` into a `Value` and takes its
/// string member `key` (`Value::get`). The contract claims only that the
/// result is what `json_string_field` names for the text and key.
#[verifier::external_body]
fn json_field(text: &str, key: &str) -> (r: Option<String>)
    ensures
        opt_string(r) == json_string_field(text@, key@),
{
    match serde_json::from_str::<serde_json::Value>(text) {
        Ok(v) => match v.get(key) {
            Some(serde_json::Value::String(s)) => Some(s.clone()),
            _ => None,
        },
        Err(_) => None,
    }
}

/// The JPEG bytes of one text message of the stream: a `frame` message
/// whose `data` decodes (see [`frame_model`]).
pub fn stream_message_frame(text: &str) -> (r: Option<Vec<u8>>)
    ensures
        match r {
            Some(b) => frame_model(json_string_field(text@, "type"@), json_string_field(text@, "data"@))
                == Some(b@),
            None => frame_model(json_string_field(text@, "type"@), json_string_field(text@, "data"@))
                is None,
        },
{
    let t = json_field(text, "type");
    let d = json_field(text, "data");
    let ts: Option<&str> = match &t {
        Some(x) => Some(x.as_str()),
        None => None,
    };
    let ds: Option<&str> = match &d {
        Some(x) => Some(x.as_str()),
        None => None,
    };
    frame_bytes(ts, ds)
}

proof fn lemma_decimal_digits(n: nat)
    ensures
        decimal(n).len() > 0,
        forall|i: int| 0 <= i < decimal(n).len() ==> is_digit(#[trigger] decimal(n)[i]),
        scan_u16(decimal(n)) == (if n <= 65535 {
            Ok::<nat, IntErrorKind>(n)
        } else {
            scan_u16(decimal(n))
        }),
    decreases n,
{
    if n < 10 {
        let c = crate::text::digit_char(n);
        assert(c as nat == n + 48);
        let d = decimal(n);
        assert(d.drop_last() =~= Seq::<char>::empty());
        assert(scan_u16(d.drop_last()) == Ok::<nat, IntErrorKind>(0));
        assert(d.last() == c);
    } else {
        lemma_decimal_digits(n / 10);
        let d = decimal(n);
        let c = crate::text::digit_char(n % 10);
        assert(c as nat == n % 10 + 48);
        assert(d.drop_last() =~= decimal(n / 10));
        assert(d.last() == c);
        assert(forall|i: int| 0 <= i < d.len() - 1 ==> d[i] == decimal(n / 10)[i]);
        assert((n / 10) * 10 + n % 10 == n);
        if n <= 65535 {
            assert(scan_u16(d.drop_last()) == Ok::<nat, IntErrorKind>(n / 10));
            assert(is_digit(d.last()));
            assert(d.last() as nat - 48 == n % 10);
            assert((n / 10) * 10 + (d.last() as nat - 48) == n);
        }
    }
}

/// A port written in decimal reads back as that port: whatever number
/// the daemon writes to its port file, `parse_stream_port` returns it.
pub proof fn lemma_stream_port_roundtrip(port: u16)
    ensures
        stream_port_model(decimal(port as nat)) == Ok::<nat, Seq<char>>(port as nat),
{
    let d = decimal(port as nat);
    lemma_decimal_digits(port as nat);
    assert(is_digit(d[0]));
    assert(is_digit(d.last()));
    assert(!crate::text::is_ws(d[0]));
    assert(crate::text::trim_start(d) == d);
    assert(crate::text::trim_end(d) == d);
}

} // verus!
