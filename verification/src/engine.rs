//! The engine that the app manages: its state, and how each action changes it.
use crate::http::{engine_url, engine_url_text, text_in, Reply};
use crate::path::FsPath;
use crate::settings::DESKTOP_PORT;
use crate::text::{
    copy_optional, decimal, decimal_of, law_decimal_reads_back, optional, parsed_u16, push_text,
};
use vstd::prelude::*;

verus! {

/// How the app came by its engine.
#[derive(Clone, Copy, PartialEq, Eq, Structural)]
pub enum Mode {
    /// There has been none yet.
    Unset,
    /// The app runs the engine as a child process.
    Standalone,
    /// The engine was already running.
    Attached,
    /// The user stopped the engine.
    Stopped,
}

impl Mode {
    /// The name of the mode.
    pub open spec fn text(self) -> Seq<char> {
        match self {
            Mode::Unset => ""@,
            Mode::Standalone => "standalone"@,
            Mode::Attached => "attached"@,
            Mode::Stopped => "stopped"@,
        }
    }

    /// The name of the mode.
    pub fn name(self) -> (s: String)
        ensures
            s@ == self.text(),
    {
        match self {
            Mode::Unset => "".to_string(),
            Mode::Standalone => "standalone".to_string(),
            Mode::Attached => "attached".to_string(),
            Mode::Stopped => "stopped".to_string(),
        }
    }
}

/// The engine that the app manages.
pub struct Engine {
    /// The process id of the child process, while there is one.
    pub child: Option<u32>,
    pub mode: Mode,
    pub port: Option<u16>,
    pub url: Option<String>,
    /// The URL with the authentication token. It is empty where the engine printed none.
    pub token_url: Option<String>,
    /// Whether the child process is being ended on purpose.
    pub manual_stop: bool,
}

/// What an engine is, with its strings as sequences of characters.
#[verifier::ext_equal]
pub struct EngineState {
    pub child: Option<u32>,
    pub mode: Mode,
    pub port: Option<u16>,
    pub url: Option<Seq<char>>,
    pub token_url: Option<Seq<char>>,
    pub manual_stop: bool,
}

impl View for Engine {
    type V = EngineState;

    open spec fn view(&self) -> EngineState {
        EngineState {
            child: self.child,
            mode: self.mode,
            port: self.port,
            url: optional(self.url),
            token_url: optional(self.token_url),
            manual_stop: self.manual_stop,
        }
    }
}

impl EngineState {
    /// No engine yet.
    pub open spec fn idle() -> EngineState {
        EngineState {
            child: None,
            mode: Mode::Unset,
            port: None,
            url: None,
            token_url: None,
            manual_stop: false,
        }
    }

    /// Attached to an engine on `port` that somebody else runs.
    pub open spec fn attached(self, port: u16) -> EngineState {
        EngineState {
            child: None,
            mode: Mode::Attached,
            port: Some(port),
            url: Some(engine_url_text(port)),
            token_url: None,
            manual_stop: self.manual_stop,
        }
    }

    /// Running an engine of our own.
    pub open spec fn started(pid: u32, port: u16, token_url: Seq<char>) -> EngineState {
        EngineState {
            child: Some(pid),
            mode: Mode::Standalone,
            port: Some(port),
            url: Some(engine_url_text(port)),
            token_url: Some(token_url),
            manual_stop: false,
        }
    }

    /// Stopped by the user. An engine that somebody else runs is only let go.
    pub open spec fn stopped(self) -> EngineState {
        EngineState {
            child: None,
            mode: Mode::Stopped,
            port: None,
            url: None,
            token_url: None,
            manual_stop: self.child is Some || self.manual_stop,
        }
    }

    /// The child process was found to have ended.
    pub open spec fn exited(self) -> EngineState {
        EngineState { child: None, port: None, url: None, ..self }
    }

    /// The app quits.
    pub open spec fn quit(self) -> EngineState {
        EngineState {
            child: None,
            manual_stop: self.child is Some || self.manual_stop,
            ..self
        }
    }

    /// The process to end where the engine is stopped, let go or replaced.
    pub open spec fn to_end(self) -> Option<u32> {
        self.child
    }

    /// What the user is told when the child process is found to have ended with `status`.
    pub open spec fn exit_notice(self, status: Seq<char>) -> Option<(Seq<char>, EventState)> {
        if self.manual_stop {
            None
        } else {
            Some((crash_text(status), crash_event(crash_text(status))))
        }
    }

    /// The URL to open in a browser, or why there is none.
    pub open spec fn browser_url(self) -> Result<Seq<char>, Seq<char>> {
        match self.port {
            Some(port) => Ok(engine_url_text(port)),
            None => Err("no engine is running yet"@),
        }
    }

    /// What holds of the engine at all times.
    pub open spec fn consistent(self) -> bool {
        // An engine has a URL exactly while it has a port, and it is the URL of that port.
        &&& self.url == match self.port {
            Some(port) => Some(engine_url_text(port)),
            None => None,
        }
        // A child process is an engine of our own, on a port, and nobody is ending it.
        &&& self.child is Some ==> self.mode == Mode::Standalone && self.port is Some
            && !self.manual_stop
        // The token is that of an engine of our own.
        &&& self.token_url is Some <==> self.mode == Mode::Standalone
        // Whoever is attached is attached to a port.
        &&& self.mode == Mode::Attached ==> self.port is Some
        // Without an engine there is no port.
        &&& self.mode == Mode::Unset || self.mode == Mode::Stopped ==> self.port is None
    }

    /// What the watchdog of the engine on `port` is to do now.
    pub open spec fn watched(self, port: u16) -> Watch {
        if self.port != Some(port) {
            Watch::Leave
        } else if self.child is Some {
            Watch::Poll
        } else {
            Watch::Wait
        }
    }

    /// The status that is reported of the engine.
    pub open spec fn status(self) -> Seq<char> {
        if self.child is Some && self.mode == Mode::Standalone {
            "ready"@
        } else if self.child is None && self.mode == Mode::Attached {
            "attached"@
        } else {
            "stopped"@
        }
    }

    /// What is reported of the engine, where it works in `workspace`.
    pub open spec fn info(self, workspace: Seq<u8>) -> InfoState {
        InfoState {
            status: self.status(),
            mode: self.mode.text(),
            url: self.url,
            port: self.port,
            pid: self.child,
            workspace: text_in(workspace),
            detail: None,
            token_url: self.token_url,
        }
    }

    /// The port of the engine, or the default one.
    pub open spec fn port_or_default(self) -> u16 {
        match self.port {
            Some(port) => port,
            None => DESKTOP_PORT,
        }
    }

    /// What is reported of an engine of our own that was found healthy. Its URL is the one with
    /// the token, where it has one.
    pub open spec fn healthy_info(self, workspace: Seq<u8>) -> InfoState {
        InfoState {
            status: "ready"@,
            mode: "standalone"@,
            url: if self.token_url is Some {
                self.token_url
            } else {
                Some(engine_url_text(self.port_or_default()))
            },
            port: Some(self.port_or_default()),
            pid: None,
            workspace: text_in(workspace),
            detail: None,
            token_url: self.token_url,
        }
    }
}

/// What the controller page is told of the engine.
pub struct EngineInfo {
    pub status: String,
    pub mode: String,
    pub url: Option<String>,
    pub port: Option<u16>,
    pub pid: Option<u32>,
    pub workspace: String,
    pub detail: Option<String>,
    pub token_url: Option<String>,
}

/// What the controller page is told, with its strings as sequences of characters.
#[verifier::ext_equal]
pub struct InfoState {
    pub status: Seq<char>,
    pub mode: Seq<char>,
    pub url: Option<Seq<char>>,
    pub port: Option<u16>,
    pub pid: Option<u32>,
    pub workspace: Seq<char>,
    pub detail: Option<Seq<char>>,
    pub token_url: Option<Seq<char>>,
}

impl View for EngineInfo {
    type V = InfoState;

    open spec fn view(&self) -> InfoState {
        InfoState {
            status: self.status@,
            mode: self.mode@,
            url: optional(self.url),
            port: self.port,
            pid: self.pid,
            workspace: self.workspace@,
            detail: optional(self.detail),
            token_url: optional(self.token_url),
        }
    }
}

/// A change of the engine's status, for the controller page.
pub struct StatusEvent {
    pub status: String,
    pub detail: Option<String>,
    pub url: Option<String>,
}

/// A change of the engine's status, with its strings as sequences of characters.
#[verifier::ext_equal]
pub struct EventState {
    pub status: Seq<char>,
    pub detail: Option<Seq<char>>,
    pub url: Option<Seq<char>>,
}

impl View for StatusEvent {
    type V = EventState;

    open spec fn view(&self) -> EventState {
        EventState {
            status: self.status@,
            detail: optional(self.detail),
            url: optional(self.url),
        }
    }
}

/// Why an engine that asks for authentication cannot be attached to.
pub open spec fn needs_authentication_text(port: u16) -> Seq<char> {
    "a DSH engine is running on port "@ + decimal(port as nat)
        + " but requires authentication. Close it and reopen DSH Desktop to start a fresh engine with a token."@
}

/// Tells that the app is attached to the engine on `port`.
pub open spec fn attached_event(port: u16) -> EventState {
    EventState {
        status: "attached"@,
        detail: Some("attached to the running engine"@),
        url: Some(engine_url_text(port)),
    }
}

/// Tells that the engine was stopped.
pub open spec fn stopped_event() -> EventState {
    EventState { status: "stopped"@, detail: Some("engine stopped"@), url: None }
}

/// Tells that the engine on `port` is ready.
pub open spec fn ready_event(port: u16) -> EventState {
    EventState {
        status: "ready"@,
        detail: Some("engine ready"@),
        url: Some(engine_url_text(port)),
    }
}

/// Whether a reply asks for authentication.
pub open spec fn asks_for_authentication(reply: Option<Reply>) -> bool {
    reply matches Some(r) && r.status == 401
}

/// What the user is told when the engine ended by itself with `status`.
pub open spec fn crash_text(status: Seq<char>) -> Seq<char> {
    "The engine exited unexpectedly ("@ + status + "). Restart it from the tray or menu."@
}

/// Tells that the engine ended by itself.
pub open spec fn crash_event(message: Seq<char>) -> EventState {
    EventState { status: "error"@, detail: Some(message), url: None }
}

/// What an optional notice holds.
pub open spec fn notice_state(r: Option<(String, StatusEvent)>) -> Option<(Seq<char>, EventState)> {
    match r {
        Some((message, event)) => Some((message@, event@)),
        None => None,
    }
}

/// What the watchdog of the engine on a port is to do now.
#[derive(Clone, Copy, PartialEq, Eq, Structural)]
pub enum Watch {
    /// The engine is no longer the one it watches: end.
    Leave,
    /// See whether the child process has ended.
    Poll,
    /// There is no child process to look at: wait.
    Wait,
}

/// How long the watchdog leaves a new engine alone, in milliseconds.
pub const WATCH_SETTLE_MS: u64 = 3000;

/// How long the watchdog waits between two looks, in milliseconds.
pub const WATCH_INTERVAL_MS: u64 = 700;

impl Default for Engine {
    /// No engine yet.
    fn default() -> (e: Self)
        ensures
            e@ == EngineState::idle(),
            e@.consistent(),
    {
        Engine {
            child: None,
            mode: Mode::Unset,
            port: None,
            url: None,
            token_url: None,
            manual_stop: false,
        }
    }
}

impl Engine {
    /// The port of the engine, or the default one.
    pub fn engine_port(&self) -> (port: u16)
        ensures
            port == self@.port_or_default(),
    {
        match self.port {
            Some(port) => port,
            None => DESKTOP_PORT,
        }
    }

    /// What is reported of the engine, where it works in `workspace`.
    pub fn snapshot_info(&self, workspace: &FsPath) -> (info: EngineInfo)
        ensures
            info@ == self@.info(workspace@),
    {
        let status = match (self.child, self.mode) {
            (Some(_), Mode::Standalone) => "ready".to_string(),
            (None, Mode::Attached) => "attached".to_string(),
            _ => "stopped".to_string(),
        };
        EngineInfo {
            status,
            mode: self.mode.name(),
            url: copy_optional(&self.url),
            port: self.port,
            pid: self.child,
            workspace: workspace.display(),
            detail: None,
            token_url: copy_optional(&self.token_url),
        }
    }

    /// What is reported of an engine of our own that was found healthy.
    pub fn healthy_snapshot(&self, workspace: &FsPath) -> (info: EngineInfo)
        ensures
            info@ == self@.healthy_info(workspace@),
    {
        let port: u16 = self.engine_port();
        let url = match &self.token_url {
            Some(u) => Some(u.clone()),
            None => Some(engine_url(port)),
        };
        EngineInfo {
            status: "ready".to_string(),
            mode: "standalone".to_string(),
            url,
            port: Some(port),
            pid: None,
            workspace: workspace.display(),
            detail: None,
            token_url: copy_optional(&self.token_url),
        }
    }

    /// Attaches to the engine on `port`, which gave `reply` to a probe. One that asks for
    /// authentication is refused, because its token is not known; nothing changes then. Gives
    /// the process to end: the child process, if there was one, since it is on record no longer.
    pub fn action_attach(&mut self, port: u16, reply: &Option<Reply>) -> (r: Result<
        (Option<u32>, StatusEvent),
        String,
    >)
        ensures
            match r {
                Ok((pid, event)) => {
                    &&& !asks_for_authentication(*reply)
                    &&& final(self)@ == old(self)@.attached(port)
                    &&& pid == old(self)@.child
                    &&& pid == old(self)@.to_end()
                    &&& event@ == attached_event(port)
                },
                Err(message) => {
                    &&& asks_for_authentication(*reply)
                    &&& final(self)@ == old(self)@
                    &&& message@ == needs_authentication_text(port)
                },
            },
            old(self)@.consistent() ==> final(self)@.consistent(),
    {
        let refused: bool = match reply {
            Some(r) => r.status == 401,
            None => false,
        };
        if refused {
            let mut m = "a DSH engine is running on port ".to_string();
            push_text(&mut m, decimal_of(port).as_str());
            push_text(
                &mut m,
                " but requires authentication. Close it and reopen DSH Desktop to start a fresh engine with a token.",
            );
            return Err(m);
        }
        let pid: Option<u32> = self.child;
        self.mode = Mode::Attached;
        self.port = Some(port);
        self.url = Some(engine_url(port));
        self.token_url = None;
        self.child = None;
        Ok(
            (
                pid,
                StatusEvent {
                    status: "attached".to_string(),
                    detail: Some("attached to the running engine".to_string()),
                    url: Some(engine_url(port)),
                },
            ),
        )
    }

    /// Takes over the engine that was spawned on `port` as process `pid`. Gives the process to
    /// end: the child process that the new one takes the place of, if there was one.
    pub fn take_over(&mut self, pid: u32, port: u16, token_url: String) -> (replaced: Option<u32>)
        ensures
            final(self)@ == EngineState::started(pid, port, token_url@),
            final(self)@.consistent(),
            replaced == old(self)@.child,
            replaced == old(self)@.to_end(),
    {
        let replaced: Option<u32> = self.child;
        self.child = Some(pid);
        self.mode = Mode::Standalone;
        self.port = Some(port);
        self.url = Some(engine_url(port));
        self.token_url = Some(token_url);
        self.manual_stop = false;
        replaced
    }

    /// Stops the engine. Gives the process to end: the child process, if there is one, and never
    /// one that somebody else runs.
    pub fn action_stop_engine(&mut self) -> (r: (Option<u32>, StatusEvent))
        ensures
            final(self)@ == old(self)@.stopped(),
            r.0 == old(self)@.child,
            r.0 == old(self)@.to_end(),
            r.1@ == stopped_event(),
            final(self)@.consistent(),
    {
        let pid: Option<u32> = self.child;
        if pid.is_some() {
            self.manual_stop = true;
        }
        self.child = None;
        self.mode = Mode::Stopped;
        self.url = None;
        self.token_url = None;
        self.port = None;
        (
            pid,
            StatusEvent {
                status: "stopped".to_string(),
                detail: Some("engine stopped".to_string()),
                url: None,
            },
        )
    }

    /// Lets go of the engine as the app quits. Gives the process to end.
    pub fn on_exit(&mut self) -> (pid: Option<u32>)
        ensures
            final(self)@ == old(self)@.quit(),
            pid == old(self)@.child,
            pid == old(self)@.to_end(),
            old(self)@.consistent() ==> final(self)@.consistent(),
    {
        let pid: Option<u32> = self.child;
        if pid.is_some() {
            self.manual_stop = true;
        }
        self.child = None;
        pid
    }

    /// What the watchdog of the engine on `port` is to do now.
    pub fn watch(&self, port: u16) -> (w: Watch)
        ensures
            w == self@.watched(port),
    {
        match self.port {
            Some(p) => {
                if p != port {
                    Watch::Leave
                } else if self.child.is_some() {
                    Watch::Poll
                } else {
                    Watch::Wait
                }
            },
            None => Watch::Leave,
        }
    }

    /// The child process was found to have ended with `status`. Gives what to tell the user,
    /// unless the process was ended on purpose.
    pub fn child_exited(&mut self, status: &str) -> (r: Option<(String, StatusEvent)>)
        ensures
            final(self)@ == old(self)@.exited(),
            old(self)@.consistent() && old(self)@.child is Some ==> final(self)@.consistent(),
            match r {
                Some((message, event)) => {
                    &&& !old(self)@.manual_stop
                    &&& message@ == crash_text(status@)
                    &&& event@ == crash_event(message@)
                },
                None => old(self)@.manual_stop,
            },
            notice_state(r) == old(self)@.exit_notice(status@),
    {
        self.child = None;
        self.port = None;
        self.url = None;
        if self.manual_stop {
            return None;
        }
        let mut m = "The engine exited unexpectedly (".to_string();
        push_text(&mut m, status);
        push_text(&mut m, "). Restart it from the tray or menu.");
        let event = StatusEvent {
            status: "error".to_string(),
            detail: Some(m.clone()),
            url: None,
        };
        Some((m, event))
    }

    /// The URL to open in a browser.
    pub fn open_in_browser(&self) -> (r: Result<String, String>)
        ensures
            match r {
                Ok(url) => self@.port matches Some(port) && url@ == engine_url_text(port),
                Err(message) => self@.port is None && message@ == "no engine is running yet"@,
            },
            match r {
                Ok(url) => self@.browser_url() == Ok::<Seq<char>, Seq<char>>(url@),
                Err(message) => self@.browser_url() == Err::<Seq<char>, Seq<char>>(message@),
            },
    {
        match self.port {
            Some(port) => Ok(engine_url(port)),
            None => Err("no engine is running yet".to_string()),
        }
    }
}

/// The engine is consistent from the start, and every action keeps it so.
pub proof fn law_engine_stays_consistent(
    e: EngineState,
    port: u16,
    pid: u32,
    token_url: Seq<char>,
)
    requires
        e.consistent(),
    ensures
        EngineState::idle().consistent(),
        e.attached(port).consistent(),
        EngineState::started(pid, port, token_url).consistent(),
        e.stopped().consistent(),
        e.child is Some ==> e.exited().consistent(),
        e.quit().consistent(),
{
}

/// A stop, quitting and attaching leave no child process on record, and after a stop the engine
/// has no port and reports that it is stopped.
pub proof fn law_no_child_stays_on_record(e: EngineState, port: u16)
    ensures
        e.stopped().child is None,
        e.quit().child is None,
        e.attached(port).child is None,
        e.stopped().port is None,
        e.stopped().status() == "stopped"@,
{
}

/// An engine that the app only attached to has no process that a stop or quitting could end.
pub proof fn law_foreign_engine_is_not_ended(e: EngineState)
    requires
        e.consistent(),
        e.mode == Mode::Attached,
    ensures
        e.child is None,
{
}

/// The watchdog looks at a child process only while nobody is ending it, so that an exit it finds
/// is always one to tell the user of; and a stop ends every watchdog, without a word.
pub proof fn law_watchdog_tells_crashes_only(e: EngineState, port: u16)
    requires
        e.consistent(),
    ensures
        e.watched(port) == Watch::Poll ==> !e.manual_stop,
        e.stopped().watched(port) == Watch::Leave,
        e.exited().watched(port) == Watch::Leave,
{
}

/// What a consistent engine reports: it is `ready` exactly while a child process runs it, and
/// then it has a process id, a port and the URL of that port; it is `attached` exactly in that
/// mode.
pub proof fn law_report_is_faithful(e: EngineState, workspace: Seq<u8>)
    requires
        e.consistent(),
    ensures
        e.info(workspace).status == "ready"@ <==> e.child is Some,
        e.info(workspace).status == "attached"@ <==> e.mode == Mode::Attached,
        e.info(workspace).pid is Some <==> e.info(workspace).status == "ready"@,
        e.child is Some || e.mode == Mode::Attached ==> e.info(workspace).port is Some
            && e.info(workspace).url == Some(engine_url_text(e.info(workspace).port->0)),
{
    reveal_strlit("ready");
    reveal_strlit("attached");
    reveal_strlit("stopped");
    assert("ready"@[0] == 'r');
    assert("attached"@[0] == 'a');
    assert("stopped"@[0] == 's');
}

/// Attaching to the engine on a port: no child process, no token, and the URL of that port.
/// Whether a process is being ended on purpose is not touched.
pub proof fn law_attaching_takes_the_port(e: EngineState, port: u16)
    ensures
        e.attached(port).child is None,
        e.attached(port).mode == Mode::Attached,
        e.attached(port).port == Some(port),
        e.attached(port).url == Some("http://127.0.0.1:"@ + decimal(port as nat)),
        e.attached(port).token_url is None,
        e.attached(port).manual_stop == e.manual_stop,
{
}

/// An engine of our own is the process, the port and the token that it was spawned with, and
/// nobody is ending it.
pub proof fn law_own_engine_is_what_was_spawned(pid: u32, port: u16, token_url: Seq<char>)
    ensures
        EngineState::started(pid, port, token_url).child == Some(pid),
        EngineState::started(pid, port, token_url).mode == Mode::Standalone,
        EngineState::started(pid, port, token_url).port == Some(port),
        EngineState::started(pid, port, token_url).url == Some(
            "http://127.0.0.1:"@ + decimal(port as nat),
        ),
        EngineState::started(pid, port, token_url).token_url == Some(token_url),
        !EngineState::started(pid, port, token_url).manual_stop,
        EngineState::started(pid, port, token_url).to_end() == Some(pid),
{
}

/// Nothing is on record at first.
pub proof fn law_nothing_is_on_record_at_first()
    ensures
        EngineState::idle().child is None,
        EngineState::idle().port is None,
        EngineState::idle().url is None,
        EngineState::idle().token_url is None,
        EngineState::idle().mode == Mode::Unset,
        !EngineState::idle().manual_stop,
{
}

/// A stop forgets everything about the engine, and hands its child process out to be ended; an
/// exit of that process that is seen later is then no crash. Where there is none, nothing is.
pub proof fn law_stop_ends_the_child_and_forgets_the_engine(e: EngineState, status: Seq<char>)
    ensures
        e.to_end() == e.child,
        e.stopped().to_end() is None,
        e.stopped().port is None,
        e.stopped().url is None,
        e.stopped().token_url is None,
        e.stopped().mode == Mode::Stopped,
        e.child is Some ==> e.stopped().exit_notice(status) is None,
        e.child is None ==> e.stopped().manual_stop == e.manual_stop,
        e.stopped().browser_url() is Err,
{
}

/// Quitting hands the child process out to be ended, and leaves the rest of the record alone.
pub proof fn law_quitting_ends_the_child(e: EngineState, status: Seq<char>)
    ensures
        e.to_end() == e.child,
        e.quit().to_end() is None,
        e.quit().mode == e.mode,
        e.quit().port == e.port,
        e.quit().url == e.url,
        e.quit().token_url == e.token_url,
        e.child is Some ==> e.quit().exit_notice(status) is None,
        e.child is None ==> e.quit() == e,
{
    if e.child is None {
        assert(e.quit() =~= e);
    }
}

/// Once its process has ended, the engine has no process, no port and no URL; how it was come by
/// and its token stay on record.
pub proof fn law_ended_process_leaves_the_record(e: EngineState)
    ensures
        e.exited().child is None,
        e.exited().port is None,
        e.exited().url is None,
        e.exited().mode == e.mode,
        e.exited().token_url == e.token_url,
        e.exited().manual_stop == e.manual_stop,
{
}

/// The user is told of an exit exactly if nobody was ending the process. The notice holds the
/// status that the process ended with, and the controller page is told the same as an error.
pub proof fn law_crash_is_told_with_its_status(e: EngineState, status: Seq<char>)
    ensures
        e.exit_notice(status) is Some <==> !e.manual_stop,
        e.exit_notice(status) matches Some((message, event)) ==> {
            &&& message == "The engine exited unexpectedly ("@ + status
                + "). Restart it from the tray or menu."@
            &&& event.status == "error"@
            &&& event.detail == Some(message)
            &&& event.url is None
        },
{
}

/// The watchdog of a port leaves as soon as the engine is on another port or on none. While it is
/// on that port, the watchdog looks at the child process if there is one, and else waits.
pub proof fn law_watchdog_stays_with_its_port(e: EngineState, port: u16)
    ensures
        e.watched(port) == Watch::Leave <==> e.port != Some(port),
        e.watched(port) == Watch::Poll <==> e.port == Some(port) && e.child is Some,
        e.watched(port) == Watch::Wait <==> e.port == Some(port) && e.child is None,
{
}

/// The URL for the browser is that of the engine's port, and there is one exactly while it has a
/// port.
pub proof fn law_browser_gets_the_engines_url(e: EngineState)
    ensures
        e.port matches Some(port) ==> e.browser_url() == Ok::<Seq<char>, Seq<char>>(
            "http://127.0.0.1:"@ + decimal(port as nat),
        ),
        e.port is None ==> e.browser_url() == Err::<Seq<char>, Seq<char>>(
            "no engine is running yet"@,
        ),
        e.port matches Some(port) ==> e.port_or_default() == port,
        e.port is None ==> e.port_or_default() == 3480,
{
}

/// The report says what is on record: process, port, URLs, mode and workspace. Its status is
/// `ready` for a child process of our own, `attached` where the engine is somebody else's, and
/// otherwise `stopped`.
pub proof fn law_report_says_what_is_on_record(e: EngineState, workspace: Seq<u8>)
    ensures
        e.info(workspace).pid == e.child,
        e.info(workspace).port == e.port,
        e.info(workspace).url == e.url,
        e.info(workspace).token_url == e.token_url,
        e.info(workspace).workspace == text_in(workspace),
        e.info(workspace).detail is None,
        e.info(workspace).mode == (match e.mode {
            Mode::Unset => ""@,
            Mode::Standalone => "standalone"@,
            Mode::Attached => "attached"@,
            Mode::Stopped => "stopped"@,
        }),
        e.child is Some && e.mode == Mode::Standalone ==> e.info(workspace).status == "ready"@,
        e.child is None && e.mode == Mode::Attached ==> e.info(workspace).status == "attached"@,
        e.mode == Mode::Unset || e.mode == Mode::Stopped || (e.child is None && e.mode
            == Mode::Standalone) || (e.child is Some && e.mode == Mode::Attached) ==> e.info(
            workspace,
        ).status == "stopped"@,
{
}

/// The report on a healthy engine of our own: ready, on its port, with the URL that carries the
/// token where there is one.
pub proof fn law_healthy_report_carries_the_token(e: EngineState, workspace: Seq<u8>)
    ensures
        e.healthy_info(workspace).status == "ready"@,
        e.healthy_info(workspace).mode == "standalone"@,
        e.port matches Some(port) ==> e.healthy_info(workspace).port == Some(port),
        e.token_url is Some ==> e.healthy_info(workspace).url == e.token_url,
        e.token_url is None ==> (e.port matches Some(port) ==> e.healthy_info(workspace).url
            == Some("http://127.0.0.1:"@ + decimal(port as nat))),
        e.healthy_info(workspace).token_url == e.token_url,
        e.healthy_info(workspace).workspace == text_in(workspace),
        e.healthy_info(workspace).pid is None,
        e.healthy_info(workspace).detail is None,
{
}

/// What the controller page is told: the status, and the URL of the engine's port where there is
/// an engine.
pub proof fn law_events_name_status_and_port(port: u16)
    ensures
        attached_event(port).status == "attached"@,
        attached_event(port).detail == Some("attached to the running engine"@),
        attached_event(port).url == Some("http://127.0.0.1:"@ + decimal(port as nat)),
        ready_event(port).status == "ready"@,
        ready_event(port).detail == Some("engine ready"@),
        ready_event(port).url == Some("http://127.0.0.1:"@ + decimal(port as nat)),
        stopped_event().status == "stopped"@,
        stopped_event().detail == Some("engine stopped"@),
        stopped_event().url is None,
{
}

/// An engine asks for authentication exactly by the status 401, and the refusal names its port.
pub proof fn law_refusal_names_the_port(reply: Option<Reply>, port: u16)
    ensures
        reply is None ==> !asks_for_authentication(reply),
        reply matches Some(r) ==> (asks_for_authentication(reply) <==> r.status == 401),
        exists|d: Seq<char>| #[trigger]
            parsed_u16(d) == Some(port) && needs_authentication_text(port)
                == "a DSH engine is running on port "@ + d
                + " but requires authentication. Close it and reopen DSH Desktop to start a fresh engine with a token."@,
{
    law_decimal_reads_back(port);
    assert(parsed_u16(decimal(port as nat)) == Some(port));
}

/// What is seen of the engine is what is on record, field by field.
pub proof fn law_engine_is_seen_as_it_is(e: Engine)
    ensures
        e@.child == e.child,
        e@.mode == e.mode,
        e@.port == e.port,
        e.url matches Some(u) ==> e@.url == Some(u@),
        e.url is None ==> e@.url is None,
        e.token_url matches Some(u) ==> e@.token_url == Some(u@),
        e.token_url is None ==> e@.token_url is None,
        e@.manual_stop == e.manual_stop,
{
}

/// What is seen of a report and of an event is what they tell, field by field.
pub proof fn law_reports_are_seen_as_they_are(i: EngineInfo, e: StatusEvent)
    ensures
        i@.status == i.status@,
        i@.mode == i.mode@,
        i.url matches Some(u) ==> i@.url == Some(u@),
        i.url is None ==> i@.url is None,
        i@.port == i.port,
        i@.pid == i.pid,
        i@.workspace == i.workspace@,
        i.detail matches Some(d) ==> i@.detail == Some(d@),
        i.detail is None ==> i@.detail is None,
        i.token_url matches Some(u) ==> i@.token_url == Some(u@),
        i.token_url is None ==> i@.token_url is None,
        e@.status == e.status@,
        e.detail matches Some(d) ==> e@.detail == Some(d@),
        e.detail is None ==> e@.detail is None,
        e.url matches Some(u) ==> e@.url == Some(u@),
        e.url is None ==> e@.url is None,
        notice_state(Some((i.status, e))) == Some((i.status@, e@)),
        notice_state(None) is None,
{
}

} // verus!
