//! Starting the engine: reuse the one that runs, attach to one that somebody else runs, or spawn
//! one.
//!
//! Each function takes the answer to the step that was asked for last, and gives the next step.
//! The engine and the surroundings are passed in afresh each time, since they may have changed
//! while a step was performed.
use crate::engine::{
    attached_event, needs_authentication_text, ready_event, Engine, EngineInfo, EngineState,
    EventState, InfoState, Mode, StatusEvent,
};
use crate::http::{
    answers, dsh_reply, engine_url, engine_url_text, is_dsh, server_up, text_in, Reply,
};
use crate::path::{optional_path, FsPath};
use crate::settings::Settings;
use crate::text::{decimal, optional, parsed_u16};
use vstd::prelude::*;

verus! {

/// The port that an engine run from a terminal uses.
pub const CANONICAL_PORT: u16 = 3080;

/// How long after a start the page is looked at for the log, in milliseconds.
pub const DIAGNOSE_AFTER_MS: u64 = 12000;

/// What a start depends on besides the engine.
pub struct Surroundings {
    pub settings: Settings,
    pub home: Option<FsPath>,
    /// The environment variable that names a port, if it is set.
    pub port_variable: Option<String>,
    /// Whether the environment forbids to attach.
    pub no_attach: bool,
}

impl Surroundings {
    /// The directory that the engine works in.
    pub open spec fn cwd(self) -> Seq<u8> {
        self.settings.workspace_path(optional_path(self.home))
    }

    /// The port to try first.
    pub open spec fn prefer(self) -> u16 {
        self.settings.port_to_prefer(optional(self.port_variable))
    }

    /// The directory that the engine works in.
    fn workspace(&self) -> (p: FsPath)
        ensures
            p@ == self.cwd(),
    {
        self.settings.workspace_dir(&self.home)
    }

    /// The port to try first.
    fn port(&self) -> (port: u16)
        ensures
            port == self.prefer(),
    {
        match &self.port_variable {
            Some(text) => self.settings.preferred_port(Some(text.as_str())),
            None => self.settings.preferred_port(None),
        }
    }
}

/// What to do with an engine that was just started.
pub enum FollowUp {
    /// Exchange the token for a cookie, and load the page with it.
    Authenticate { token_url: String },
    /// Tell the controller page, and load the page.
    Navigate { event: StatusEvent, url: String },
}

/// What to do next.
pub enum StartStep {
    /// See whether the child process is alive.
    PollChild,
    /// Probe the engine of our own on its port.
    ProbeOwn { port: u16 },
    /// Probe the canonical port.
    ProbeCanonical,
    /// Probe the engine on a port once more, to see whether it can be attached to.
    ProbeAttach { port: u16 },
    /// Choose a port, this one if it is free. Where an engine was refused before, the reason is
    /// given.
    PickPort { prefer: u16, refused: Option<String> },
    /// Spawn an engine.
    Spawn { port: u16, cwd: FsPath },
    /// Done: the engine of our own is healthy.
    Healthy { info: EngineInfo },
    /// Done: end the child process that is on record no longer, tell the controller page, and
    /// load the page of the engine.
    Attached { info: EngineInfo, event: StatusEvent, url: String, forgotten: Option<u32> },
    /// Done: end the child process that is on record no longer, watch the engine on its port, and
    /// follow up.
    Started { info: EngineInfo, port: u16, follow_up: FollowUp, forgotten: Option<u32> },
    /// Done, without an engine.
    Failed { message: String },
}

/// What to do with an engine that was just started, with strings as sequences of characters.
pub enum FollowUpState {
    Authenticate { token_url: Seq<char> },
    Navigate { event: EventState, url: Seq<char> },
}

/// What to do next, with strings as sequences of characters.
pub enum StepState {
    PollChild,
    ProbeOwn { port: u16 },
    ProbeCanonical,
    ProbeAttach { port: u16 },
    PickPort { prefer: u16, refused: Option<Seq<char>> },
    Spawn { port: u16, cwd: Seq<u8> },
    Healthy { info: InfoState },
    Attached { info: InfoState, event: EventState, url: Seq<char>, forgotten: Option<u32> },
    Started { info: InfoState, port: u16, follow_up: FollowUpState, forgotten: Option<u32> },
    Failed { message: Seq<char> },
}

impl View for FollowUp {
    type V = FollowUpState;

    open spec fn view(&self) -> FollowUpState {
        match self {
            FollowUp::Authenticate { token_url } => FollowUpState::Authenticate {
                token_url: token_url@,
            },
            FollowUp::Navigate { event, url } => FollowUpState::Navigate { event: event@, url: url@ },
        }
    }
}

impl View for StartStep {
    type V = StepState;

    open spec fn view(&self) -> StepState {
        match self {
            StartStep::PollChild => StepState::PollChild,
            StartStep::ProbeOwn { port } => StepState::ProbeOwn { port: *port },
            StartStep::ProbeCanonical => StepState::ProbeCanonical,
            StartStep::ProbeAttach { port } => StepState::ProbeAttach { port: *port },
            StartStep::PickPort { prefer, refused } => StepState::PickPort {
                prefer: *prefer,
                refused: optional(*refused),
            },
            StartStep::Spawn { port, cwd } => StepState::Spawn { port: *port, cwd: cwd@ },
            StartStep::Healthy { info } => StepState::Healthy { info: info@ },
            StartStep::Attached { info, event, url, forgotten } => StepState::Attached {
                info: info@,
                event: event@,
                url: url@,
                forgotten: *forgotten,
            },
            StartStep::Started { info, port, follow_up, forgotten } => StepState::Started {
                info: info@,
                port: *port,
                follow_up: follow_up@,
                forgotten: *forgotten,
            },
            StartStep::Failed { message } => StepState::Failed { message: message@ },
        }
    }
}

// ---------------------------------------------------------------------------------------------
// The steps
// ---------------------------------------------------------------------------------------------

/// How to go on where there is no healthy engine of our own: look for one to attach to, unless
/// that is forbidden.
pub open spec fn without_own(s: Surroundings) -> StepState {
    if s.no_attach {
        StepState::PickPort { prefer: s.prefer(), refused: None }
    } else {
        StepState::ProbeCanonical
    }
}

/// The first step: an engine of our own is looked at first.
pub open spec fn first_step(e: EngineState, s: Surroundings) -> StepState {
    if e.child is Some {
        StepState::PollChild
    } else {
        without_own(s)
    }
}

/// The step after the child process was looked at.
pub open spec fn after_poll(e: EngineState, s: Surroundings, alive: bool) -> StepState {
    if alive && e.mode == Mode::Standalone && e.port is Some {
        StepState::ProbeOwn { port: e.port->0 }
    } else {
        without_own(s)
    }
}

/// The step after the engine of our own was probed.
pub open spec fn after_own(e: EngineState, s: Surroundings, reply: Option<Reply>) -> StepState {
    if answers(reply) {
        StepState::Healthy { info: e.healthy_info(s.cwd()) }
    } else {
        without_own(s)
    }
}

/// The step after the canonical port was probed.
pub open spec fn after_canonical(s: Surroundings, reply: Option<Reply>) -> StepState {
    if dsh_reply(reply) {
        StepState::ProbeAttach { port: CANONICAL_PORT }
    } else {
        StepState::PickPort { prefer: s.prefer(), refused: None }
    }
}

/// The engine and the step after the engine on `port` was probed once more.
pub open spec fn after_attach(
    e: EngineState,
    s: Surroundings,
    port: u16,
    reply: Option<Reply>,
) -> (EngineState, StepState) {
    if crate::engine::asks_for_authentication(reply) {
        (
            e,
            StepState::PickPort {
                prefer: s.prefer(),
                refused: Some(needs_authentication_text(port)),
            },
        )
    } else {
        (
            e.attached(port),
            StepState::Attached {
                info: e.attached(port).info(s.cwd()),
                event: attached_event(port),
                url: engine_url_text(port),
                forgotten: e.child,
            },
        )
    }
}

/// The step after a port was chosen.
pub open spec fn after_pick(s: Surroundings, port: Option<u16>) -> StepState {
    match port {
        Some(port) => StepState::Spawn { port, cwd: s.cwd() },
        None => StepState::Failed { message: "no free port available"@ },
    }
}

/// What to do with an engine that was started on `port` and announced `token_url`.
pub open spec fn follow_up(port: u16, token_url: Seq<char>) -> FollowUpState {
    if token_url.len() > 0 {
        FollowUpState::Authenticate { token_url }
    } else {
        FollowUpState::Navigate { event: ready_event(port), url: engine_url_text(port) }
    }
}

/// The engine and the step after an engine was spawned on `port`, as a process with a URL, or
/// could not be.
pub open spec fn after_spawn(
    e: EngineState,
    s: Surroundings,
    port: u16,
    outcome: Result<(u32, Seq<char>), Seq<char>>,
) -> (EngineState, StepState) {
    match outcome {
        Ok((pid, token_url)) => (
            EngineState::started(pid, port, token_url),
            StepState::Started {
                info: EngineState::started(pid, port, token_url).info(s.cwd()),
                port,
                follow_up: follow_up(port, token_url),
                forgotten: e.child,
            },
        ),
        Err(message) => (e, StepState::Failed { message }),
    }
}

/// How to go on where there is no healthy engine of our own.
fn go_without_own(s: &Surroundings) -> (step: StartStep)
    ensures
        step@ == without_own(*s),
{
    if s.no_attach {
        StartStep::PickPort { prefer: s.port(), refused: None }
    } else {
        StartStep::ProbeCanonical
    }
}

/// The first step of a start.
pub fn action_start(engine: &Engine, s: &Surroundings) -> (step: StartStep)
    ensures
        step@ == first_step(engine@, *s),
{
    if engine.child.is_some() {
        StartStep::PollChild
    } else {
        go_without_own(s)
    }
}

/// The child process was looked at.
pub fn child_polled(engine: &Engine, s: &Surroundings, alive: bool) -> (step: StartStep)
    ensures
        step@ == after_poll(engine@, *s, alive),
{
    if alive && engine.mode == Mode::Standalone {
        match engine.port {
            Some(port) => StartStep::ProbeOwn { port },
            None => go_without_own(s),
        }
    } else {
        go_without_own(s)
    }
}

/// The engine of our own was probed.
pub fn own_probed(engine: &Engine, s: &Surroundings, reply: &Option<Reply>) -> (step: StartStep)
    ensures
        step@ == after_own(engine@, *s, *reply),
{
    if server_up(reply) {
        StartStep::Healthy { info: engine.healthy_snapshot(&s.workspace()) }
    } else {
        go_without_own(s)
    }
}

/// The canonical port was probed.
pub fn canonical_probed(s: &Surroundings, reply: &Option<Reply>) -> (step: StartStep)
    ensures
        step@ == after_canonical(*s, *reply),
{
    if is_dsh(reply) {
        StartStep::ProbeAttach { port: CANONICAL_PORT }
    } else {
        StartStep::PickPort { prefer: s.port(), refused: None }
    }
}

/// The engine on `port` was probed once more.
pub fn attach_probed(
    engine: &mut Engine,
    s: &Surroundings,
    port: u16,
    reply: &Option<Reply>,
) -> (step: StartStep)
    ensures
        (final(engine)@, step@) == after_attach(old(engine)@, *s, port, *reply),
{
    match engine.action_attach(port, reply) {
        Ok((forgotten, event)) => StartStep::Attached {
            info: engine.snapshot_info(&s.workspace()),
            event,
            url: engine_url(port),
            forgotten,
        },
        Err(reason) => StartStep::PickPort { prefer: s.port(), refused: Some(reason) },
    }
}

/// A port was chosen, if there was a free one.
pub fn port_picked(s: &Surroundings, port: Option<u16>) -> (step: StartStep)
    ensures
        step@ == after_pick(*s, port),
{
    match port {
        Some(port) => StartStep::Spawn { port, cwd: s.workspace() },
        None => StartStep::Failed { message: "no free port available".to_string() },
    }
}

/// What the outcome of spawning holds.
pub open spec fn outcome_state(
    outcome: Result<(u32, String), String>,
) -> Result<(u32, Seq<char>), Seq<char>> {
    match outcome {
        Ok((pid, token_url)) => Ok((pid, token_url@)),
        Err(message) => Err(message@),
    }
}

/// An engine was spawned on `port`, as a process with a URL, or could not be.
pub fn engine_spawned(
    engine: &mut Engine,
    s: &Surroundings,
    port: u16,
    outcome: Result<(u32, String), String>,
) -> (step: StartStep)
    ensures
        (final(engine)@, step@) == after_spawn(old(engine)@, *s, port, outcome_state(outcome)),
{
    match outcome {
        Ok((pid, token_url)) => {
            let follow_up = if token_url.as_str().is_empty() {
                FollowUp::Navigate {
                    event: StatusEvent {
                        status: "ready".to_string(),
                        detail: Some("engine ready".to_string()),
                        url: Some(engine_url(port)),
                    },
                    url: engine_url(port),
                }
            } else {
                FollowUp::Authenticate { token_url: token_url.clone() }
            };
            let forgotten: Option<u32> = engine.take_over(pid, port, token_url);
            StartStep::Started {
                info: engine.snapshot_info(&s.workspace()),
                port,
                follow_up,
                forgotten,
            }
        },
        Err(message) => StartStep::Failed { message },
    }
}

// ---------------------------------------------------------------------------------------------
// A whole start
// ---------------------------------------------------------------------------------------------

/// What the steps of one start are answered, as far as they are asked for.
pub struct Answers {
    pub alive: bool,
    pub own: Option<Reply>,
    pub canonical: Option<Reply>,
    pub attach: Option<Reply>,
    pub picked: Option<u16>,
    pub spawned: Result<(u32, Seq<char>), Seq<char>>,
}

/// Whether there is an engine of our own that runs and answers.
pub open spec fn healthy(e: EngineState, a: Answers) -> bool {
    e.child is Some && a.alive && e.mode == Mode::Standalone && e.port is Some && answers(a.own)
}

/// The end of a start, from a given step on: the engine, and the last step.
pub open spec fn outcome_from(e: EngineState, s: Surroundings, a: Answers, step: StepState) -> (
    EngineState,
    StepState,
)
    decreases
            (match step {
                StepState::PollChild => 6int,
                StepState::ProbeOwn { .. } => 5int,
                StepState::ProbeCanonical => 4int,
                StepState::ProbeAttach { .. } => 3int,
                StepState::PickPort { .. } => 2int,
                StepState::Spawn { .. } => 1int,
                _ => 0int,
            }),
{
    match step {
        StepState::PollChild => outcome_from(e, s, a, after_poll(e, s, a.alive)),
        StepState::ProbeOwn { port } => outcome_from(e, s, a, after_own(e, s, a.own)),
        StepState::ProbeCanonical => outcome_from(e, s, a, after_canonical(s, a.canonical)),
        StepState::ProbeAttach { port } => {
            let (next, step) = after_attach(e, s, port, a.attach);
            outcome_from(next, s, a, step)
        },
        StepState::PickPort { prefer, refused } => outcome_from(e, s, a, after_pick(s, a.picked)),
        StepState::Spawn { port, cwd } => after_spawn(e, s, port, a.spawned),
        _ => (e, step),
    }
}

/// The end of a start that is not disturbed: the engine, and the last step.
pub open spec fn outcome_of(e: EngineState, s: Surroundings, a: Answers) -> (
    EngineState,
    StepState,
) {
    outcome_from(e, s, a, first_step(e, s))
}

/// The end of a start that spawns an engine.
pub open spec fn spawning(e: EngineState, s: Surroundings, a: Answers) -> (EngineState, StepState) {
    match a.picked {
        Some(port) => after_spawn(e, s, port, a.spawned),
        None => (e, StepState::Failed { message: "no free port available"@ }),
    }
}

/// A second start finds the healthy engine of the first: nothing is spawned or attached to, and
/// the engine stays as it is.
pub proof fn law_healthy_engine_is_reused(e: EngineState, s: Surroundings, a: Answers)
    requires
        healthy(e, a),
    ensures
        outcome_of(e, s, a) == (e, StepState::Healthy { info: e.healthy_info(s.cwd()) }),
{
    reveal_with_fuel(outcome_from, 4);
}

/// Where an engine already serves the canonical port openly, the app attaches to it, and spawns
/// none.
pub proof fn law_running_engine_is_attached_to(e: EngineState, s: Surroundings, a: Answers)
    requires
        !healthy(e, a),
        !s.no_attach,
        dsh_reply(a.canonical),
        !crate::engine::asks_for_authentication(a.attach),
    ensures
        outcome_of(e, s, a) == (
            e.attached(CANONICAL_PORT),
            StepState::Attached {
                info: e.attached(CANONICAL_PORT).info(s.cwd()),
                event: attached_event(CANONICAL_PORT),
                url: engine_url_text(CANONICAL_PORT),
                forgotten: e.child,
            },
        ),
{
    reveal_with_fuel(outcome_from, 6);
}

/// An engine is spawned in every other case: where attaching is forbidden, where no engine is on
/// the canonical port, and where the engine there asks for authentication.
pub proof fn law_otherwise_an_engine_is_spawned(e: EngineState, s: Surroundings, a: Answers)
    requires
        !healthy(e, a),
        s.no_attach || !dsh_reply(a.canonical) || crate::engine::asks_for_authentication(a.attach),
    ensures
        outcome_of(e, s, a) == spawning(e, s, a),
{
    reveal_with_fuel(outcome_from, 7);
}

/// A start keeps the engine consistent. Where it ends well, there is an engine on a port; where
/// it fails, the engine is as it was.
pub proof fn law_start_keeps_the_engine_consistent(e: EngineState, s: Surroundings, a: Answers)
    requires
        e.consistent(),
    ensures
        outcome_of(e, s, a).0.consistent(),
        outcome_of(e, s, a).1 is Failed ==> outcome_of(e, s, a).0 == e,
        !(outcome_of(e, s, a).1 is Failed) ==> outcome_of(e, s, a).0.port is Some,
        outcome_of(e, s, a).1 is Failed || outcome_of(e, s, a).1 is Healthy || outcome_of(
            e,
            s,
            a,
        ).1 is Attached || outcome_of(e, s, a).1 is Started,
{
    reveal_with_fuel(outcome_from, 7);
}

/// The process that a last step hands out to be ended.
pub open spec fn handed_out(step: StepState) -> Option<u32> {
    match step {
        StepState::Attached { forgotten, .. } => forgotten,
        StepState::Started { forgotten, .. } => forgotten,
        _ => None,
    }
}

/// A start loses no process: the child process stays on record, or it is handed out to be ended.
/// No other process is handed out.
pub proof fn law_start_loses_no_process(e: EngineState, s: Surroundings, a: Answers)
    ensures
        outcome_of(e, s, a).0.child == e.child || handed_out(outcome_of(e, s, a).1) == e.child,
        handed_out(outcome_of(e, s, a).1) is Some ==> handed_out(outcome_of(e, s, a).1) == e.child,
{
    reveal_with_fuel(outcome_from, 7);
}

/// After a start that spawned an engine, a start that finds it alive and answering reuses it,
/// and spawns none.
pub proof fn law_answering_engine_is_not_spawned_again(
    e: EngineState,
    s: Surroundings,
    a: Answers,
    b: Answers,
)
    requires
        outcome_of(e, s, a).1 is Started,
        b.alive,
        answers(b.own),
    ensures
        outcome_of(outcome_of(e, s, a).0, s, b).0 == outcome_of(e, s, a).0,
        outcome_of(outcome_of(e, s, a).0, s, b).1 is Healthy,
{
    reveal_with_fuel(outcome_from, 7);
}

/// The engine works in the workspace of the settings, else at home, else in the root directory;
/// and the port to try first is the one that the environment names if that can be read, else
/// that of the settings, else 3480.
pub proof fn law_surroundings_say_where_and_on_which_port(s: Surroundings)
    ensures
        s.settings.workspace matches Some(w) ==> s.cwd() == w@,
        s.settings.workspace is None ==> (s.home matches Some(h) ==> s.cwd() == h@),
        s.settings.workspace is None && s.home is None ==> s.cwd() == seq![47u8],
        (s.port_variable matches Some(v) && parsed_u16(v@) is Some) ==> Some(s.prefer())
            == parsed_u16(s.port_variable->0@),
        !(s.port_variable matches Some(v) && parsed_u16(v@) is Some) ==> s.prefer() == (
        if s.settings.prefer_port is Some {
            s.settings.prefer_port->0
        } else {
            3480
        }),
{
}

/// Whatever was there before, an engine that was just spawned is shown by its token where it
/// printed one: exactly that token is exchanged. Where it printed none, the page of its port is
/// loaded, and the controller page is told that it is ready.
pub proof fn law_spawned_engine_is_shown_by_its_token(
    e: EngineState,
    other: EngineState,
    s: Surroundings,
    port: u16,
    pid: u32,
    token_url: Seq<char>,
)
    ensures
        token_url.len() > 0 ==> (after_spawn(e, s, port, Ok((pid, token_url))).1 matches
            StepState::Started { follow_up: shown, .. } && shown == (FollowUpState::Authenticate {
            token_url,
        })),
        token_url.len() == 0 ==> (after_spawn(e, s, port, Ok((pid, token_url))).1 matches
            StepState::Started { follow_up: FollowUpState::Navigate { event, url }, .. } && {
            &&& url == "http://127.0.0.1:"@ + decimal(port as nat)
            &&& event.url == Some(url)
            &&& event.status == "ready"@
            &&& event.detail == Some("engine ready"@)
        }),
        (after_spawn(e, s, port, Ok((pid, token_url))).1 matches StepState::Started {
            follow_up: a,
            info: i,
            port: p,
            ..
        } && after_spawn(other, s, port, Ok((pid, token_url))).1 matches StepState::Started {
            follow_up: b,
            info: j,
            port: q,
            ..
        } && a == b && i == j && p == q && p == port),
{
}

/// An engine that was spawned is the one on record from then on: its process, its port and its
/// token, whatever was there before; and the process that was on record is handed out to be
/// ended. Where spawning failed, the record stays, and the reason is given as it is.
pub proof fn law_spawned_engine_is_on_record(
    e: EngineState,
    s: Surroundings,
    port: u16,
    pid: u32,
    token_url: Seq<char>,
    reason: Seq<char>,
)
    ensures
        after_spawn(e, s, port, Ok((pid, token_url))).0 == (EngineState {
            child: Some(pid),
            mode: Mode::Standalone,
            port: Some(port),
            url: Some("http://127.0.0.1:"@ + decimal(port as nat)),
            token_url: Some(token_url),
            manual_stop: false,
        }),
        handed_out(after_spawn(e, s, port, Ok((pid, token_url))).1) == e.child,
        after_spawn(e, s, port, Ok((pid, token_url))).1 matches StepState::Started { info, .. } && {
            &&& info.status == "ready"@
            &&& info.mode == "standalone"@
            &&& info.pid == Some(pid)
            &&& info.port == Some(port)
            &&& info.url == Some("http://127.0.0.1:"@ + decimal(port as nat))
            &&& info.token_url == Some(token_url)
            &&& info.workspace == text_in(s.cwd())
            &&& info.detail is None
        },
        after_spawn(e, s, port, Err(reason)) == (e, StepState::Failed { message: reason }),
{
}

/// An engine that answers 401 is refused: the record stays, a port is chosen, and the reason is
/// kept. Any other is attached to, on its port and without a token; the process that was on
/// record is handed out to be ended, and the page of that port is loaded.
pub proof fn law_engine_is_attached_to_unless_it_asks(
    e: EngineState,
    s: Surroundings,
    port: u16,
    reply: Option<Reply>,
)
    ensures
        (reply matches Some(r) && r.status == 401) ==> after_attach(e, s, port, reply).0 == e && (
        after_attach(e, s, port, reply).1 matches StepState::PickPort { prefer, refused } && prefer
            == s.prefer() && refused == Some(needs_authentication_text(port))),
        !(reply matches Some(r) && r.status == 401) ==> {
            &&& after_attach(e, s, port, reply).0 == (EngineState {
                child: None,
                mode: Mode::Attached,
                port: Some(port),
                url: Some("http://127.0.0.1:"@ + decimal(port as nat)),
                token_url: None,
                manual_stop: e.manual_stop,
            })
            &&& handed_out(after_attach(e, s, port, reply).1) == e.child
            &&& after_attach(e, s, port, reply).1 matches StepState::Attached {
                info,
                event,
                url,
                ..
            } && {
                &&& url == "http://127.0.0.1:"@ + decimal(port as nat)
                &&& event.status == "attached"@
                &&& event.url == Some(url)
                &&& event.detail == Some("attached to the running engine"@)
                &&& info.status == "attached"@
                &&& info.mode == "attached"@
                &&& info.url == Some(url)
                &&& info.port == Some(port)
                &&& info.pid is None
                &&& info.token_url is None
                &&& info.workspace == text_in(s.cwd())
                &&& info.detail is None
            }
        },
{
}

/// Whether a start goes on past an engine of our own: to port 3080, or, where attaching is
/// forbidden, to the choice of a port.
pub open spec fn goes_on(s: Surroundings, step: StepState) -> bool {
    if s.no_attach {
        step matches StepState::PickPort { prefer, refused } && prefer == s.prefer()
            && refused is None
    } else {
        step is ProbeCanonical
    }
}

/// A child process on record is looked at first; a start without one goes on.
pub proof fn law_own_process_is_looked_at_first(e: EngineState, s: Surroundings)
    ensures
        e.child is Some ==> first_step(e, s) is PollChild,
        e.child is None ==> goes_on(s, first_step(e, s)),
        s.no_attach ==> without_own(s) == (StepState::PickPort {
            prefer: s.prefer(),
            refused: None,
        }),
        !s.no_attach ==> without_own(s) is ProbeCanonical,
{
}

/// A process that lives and runs an engine of our own on a port is probed there; otherwise the
/// start goes on.
pub proof fn law_living_engine_is_probed(e: EngineState, s: Surroundings, port: u16)
    ensures
        e.mode == Mode::Standalone && e.port == Some(port) ==> after_poll(e, s, true) == (
        StepState::ProbeOwn { port }),
        e.mode != Mode::Standalone || e.port is None ==> goes_on(s, after_poll(e, s, true)),
        goes_on(s, after_poll(e, s, false)),
{
}

/// An engine of our own that answers, openly or by asking for authentication, is reported
/// healthy, with its port and its token; the start goes on past one that does not answer.
pub proof fn law_answering_engine_is_healthy(e: EngineState, s: Surroundings, reply: Option<Reply>)
    ensures
        (reply matches Some(r) && (r.status == 200 || r.status == 401)) ==> (after_own(
            e,
            s,
            reply,
        ) matches StepState::Healthy { info } && {
            &&& info.status == "ready"@
            &&& info.mode == "standalone"@
            &&& e.port is Some ==> info.port == e.port
            &&& e.port is None ==> info.port == Some(3480u16)
            &&& info.token_url == e.token_url
            &&& e.token_url is Some ==> info.url == e.token_url
            &&& e.token_url is None ==> info.url == Some(
                "http://127.0.0.1:"@ + decimal(info.port->0 as nat),
            )
            &&& info.pid is None
            &&& info.workspace == text_in(s.cwd())
            &&& info.detail is None
        }),
        !(reply matches Some(r) && (r.status == 200 || r.status == 401)) ==> goes_on(
            s,
            after_own(e, s, reply),
        ),
{
}

/// An engine on port 3080 is a candidate to attach to, and is probed once more there; without
/// one, a port is chosen.
pub proof fn law_engine_on_3080_is_a_candidate(s: Surroundings, reply: Option<Reply>)
    ensures
        dsh_reply(reply) ==> after_canonical(s, reply) == (StepState::ProbeAttach { port: 3080 }),
        !dsh_reply(reply) ==> after_canonical(s, reply) == (StepState::PickPort {
            prefer: s.prefer(),
            refused: None,
        }),
{
}

/// The engine is spawned on the port that was chosen, in the workspace; without a port, the start
/// fails.
pub proof fn law_chosen_port_is_spawned_on(s: Surroundings, port: u16)
    ensures
        after_pick(s, Some(port)) == (StepState::Spawn { port, cwd: s.cwd() }),
        after_pick(s, None) == (StepState::Failed { message: "no free port available"@ }),
{
}

/// A whole start that spawns an engine ends in showing it: by exactly the token that it printed,
/// or, without one, by the page of the port that was chosen.
pub proof fn law_start_shows_what_it_spawned(
    e: EngineState,
    s: Surroundings,
    a: Answers,
    port: u16,
    pid: u32,
    token_url: Seq<char>,
)
    requires
        !(e.child is Some && a.alive && e.mode == Mode::Standalone && e.port is Some && (
        a.own matches Some(r) && (r.status == 200 || r.status == 401))),
        s.no_attach || !dsh_reply(a.canonical) || (a.attach matches Some(r) && r.status == 401),
        a.picked == Some(port),
        a.spawned == Ok::<(u32, Seq<char>), Seq<char>>((pid, token_url)),
    ensures
        outcome_of(e, s, a).0.child == Some(pid),
        outcome_of(e, s, a).0.port == Some(port),
        outcome_of(e, s, a).0.token_url == Some(token_url),
        outcome_of(e, s, a).1 matches StepState::Started { follow_up: shown, .. } && (
        if token_url.len() > 0 {
            shown == (FollowUpState::Authenticate { token_url })
        } else {
            shown matches FollowUpState::Navigate { url, .. } && url == "http://127.0.0.1:"@
                + decimal(port as nat)
        }),
{
    law_otherwise_an_engine_is_spawned(e, s, a);
    law_spawned_engine_is_shown_by_its_token(e, e, s, port, pid, token_url);
}

/// What is seen of a step is the step: its kind, and all that it carries.
pub proof fn law_steps_are_seen_as_they_are(step: StartStep)
    ensures
        step is PollChild ==> step@ is PollChild,
        step matches StartStep::ProbeOwn { port } ==> step@ == (StepState::ProbeOwn { port }),
        step is ProbeCanonical ==> step@ is ProbeCanonical,
        step matches StartStep::ProbeAttach { port } ==> step@ == (StepState::ProbeAttach { port }),
        step matches StartStep::PickPort { prefer, refused } ==> step@ == (StepState::PickPort {
            prefer,
            refused: optional(refused),
        }),
        step matches StartStep::Spawn { port, cwd } ==> step@ == (StepState::Spawn {
            port,
            cwd: cwd@,
        }),
        step matches StartStep::Healthy { info } ==> step@ == (StepState::Healthy { info: info@ }),
        step matches StartStep::Attached { info, event, url, forgotten } ==> step@ == (
        StepState::Attached { info: info@, event: event@, url: url@, forgotten }),
        step matches StartStep::Started { info, port, follow_up, forgotten } ==> step@ == (
        StepState::Started { info: info@, port, follow_up: follow_up@, forgotten }),
        step matches StartStep::Started {
            follow_up: FollowUp::Authenticate { token_url },
            ..
        } ==> (step@ matches StepState::Started {
            follow_up: FollowUpState::Authenticate { token_url: t },
            ..
        } && t == token_url@),
        step matches StartStep::Started { follow_up: FollowUp::Navigate { event, url }, .. } ==> (
        step@ matches StepState::Started {
            follow_up: FollowUpState::Navigate { event: e, url: u },
            ..
        } && e == event@ && u == url@),
        step matches StartStep::Failed { message } ==> step@ == (StepState::Failed {
            message: message@,
        }),
{
}

/// What is seen of the outcome of spawning is the outcome.
pub proof fn law_outcomes_are_seen_as_they_are(pid: u32, token_url: String, message: String)
    ensures
        outcome_state(Ok((pid, token_url))) == Ok::<(u32, Seq<char>), Seq<char>>((pid, token_url@)),
        outcome_state(Err(message)) == Err::<(u32, Seq<char>), Seq<char>>(message@),
{
}

} // verus!
