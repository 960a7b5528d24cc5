//! Launching an engine of our own and waiting until it answers.
use crate::engine::{EventState, StatusEvent};
use crate::http::{
    announced_url, answers, law_announced_token_is_found, optional_str, plain_token, server_up,
    text_in, token_in, Reply,
};
use crate::path::{optional_path, FsPath};
use crate::text::{
    chars_of, contains, decimal, decimal_of, has_prefix, law_decimal_reads_back,
    lemma_trimmed_strips, optional, parsed_u16, push_text, starts_with, string_of, texts, trim,
    trimmed, white_space,
};
use vstd::prelude::*;
use vstd::slice::slice_subrange;

verus! {

/// How long the engine may take to come up, in milliseconds.
pub const BOOT_TIMEOUT_MS: u64 = 90000;

/// How long to wait between two looks, in milliseconds.
pub const BOOT_INTERVAL_MS: u64 = 400;

/// How long a connection attempt or a read may take when probing, in milliseconds.
pub const PROBE_TIMEOUT_MS: u64 = 2000;

// ---------------------------------------------------------------------------------------------
// Launching
// ---------------------------------------------------------------------------------------------

/// The process to launch.
pub struct Launch {
    pub program: FsPath,
    pub args: Vec<String>,
    /// The directory that it works in.
    pub cwd: FsPath,
    /// The data directory that it is told to use, if it is told one.
    pub data_home: Option<FsPath>,
}

/// What is said where the workspace is not a directory.
pub open spec fn missing_workspace_text(cwd: Seq<u8>) -> Seq<char> {
    "workspace folder does not exist: "@ + text_in(cwd)
}

/// What is said where the program cannot be found.
pub open spec fn not_installed_text() -> Seq<char> {
    "DeepSeek Harness (`dsh`) is not installed on this machine.\n\nInstall it once, then reopen this app:\n\n  npm i -g @deepseek-ai/dsh\n\n(requires Node.js 18+; this finds both global installs and the npm/npx cache)"@
}

/// The arguments that run an engine on `port` without opening a browser.
pub open spec fn engine_args(port: u16) -> Seq<Seq<char>> {
    seq!["web"@, "--no-open"@, "--port"@, decimal(port as nat)]
}

/// The process to launch, with strings as sequences of characters and paths as those of bytes.
#[verifier::ext_equal]
pub struct LaunchState {
    pub program: Seq<u8>,
    pub args: Seq<Seq<char>>,
    pub cwd: Seq<u8>,
    pub data_home: Option<Seq<u8>>,
}

/// What a plan holds.
pub open spec fn launch_state(r: Result<Launch, String>) -> Result<LaunchState, Seq<char>> {
    match r {
        Ok(launch) => Ok(
            LaunchState {
                program: launch.program@,
                args: texts(launch.args@),
                cwd: launch.cwd@,
                data_home: optional_path(launch.data_home),
            },
        ),
        Err(message) => Err(message@),
    }
}

/// The plan for an engine on `port` in `cwd`.
pub open spec fn planned(
    program: Option<Seq<u8>>,
    port: u16,
    cwd: Seq<u8>,
    cwd_is_dir: bool,
    data_home: Option<Seq<u8>>,
) -> Result<LaunchState, Seq<char>> {
    if !cwd_is_dir {
        Err(missing_workspace_text(cwd))
    } else {
        match program {
            Some(program) => Ok(
                LaunchState { program, args: engine_args(port), cwd, data_home },
            ),
            None => Err(not_installed_text()),
        }
    }
}

/// The process to launch for an engine on `port` in `cwd`, or why there is none. `cwd_is_dir`
/// tells whether `cwd` is a directory, and `program` is what was found.
pub fn plan_launch(
    program: Option<FsPath>,
    port: u16,
    cwd: &FsPath,
    cwd_is_dir: bool,
    data_home: Option<FsPath>,
) -> (r: Result<Launch, String>)
    ensures
        match r {
            Ok(launch) => {
                &&& cwd_is_dir
                &&& optional_path(program) == Some(launch.program@)
                &&& texts(launch.args@) == engine_args(port)
                &&& launch.cwd@ == cwd@
                &&& launch.data_home == data_home
            },
            Err(message) => {
                ||| !cwd_is_dir && message@ == missing_workspace_text(cwd@)
                ||| cwd_is_dir && program is None && message@ == not_installed_text()
            },
        },
        launch_state(r) == planned(
            optional_path(program),
            port,
            cwd@,
            cwd_is_dir,
            optional_path(data_home),
        ),
{
    if !cwd_is_dir {
        let mut m = "workspace folder does not exist: ".to_string();
        push_text(&mut m, cwd.display().as_str());
        return Err(m);
    }
    match program {
        Some(program) => {
            let mut args: Vec<String> = Vec::new();
            args.push("web".to_string());
            args.push("--no-open".to_string());
            args.push("--port".to_string());
            args.push(decimal_of(port));
            assert(texts(args@) =~= engine_args(port));
            Ok(Launch { program, args, cwd: cwd.clone(), data_home })
        },
        None => Err(
            "DeepSeek Harness (`dsh`) is not installed on this machine.\n\nInstall it once, then reopen this app:\n\n  npm i -g @deepseek-ai/dsh\n\n(requires Node.js 18+; this finds both global installs and the npm/npx cache)".to_string(),
        ),
    }
}

/// What is said where the process could not be launched.
pub open spec fn launch_failed_text(error: Seq<char>) -> Seq<char> {
    "failed to launch the dsh engine: "@ + error
}

/// Tells that the engine is being started on `port`.
pub open spec fn starting_state(port: u16) -> EventState {
    EventState {
        status: "starting"@,
        detail: Some("booting engine on port "@ + decimal(port as nat) + "…"@),
        url: None,
    }
}

/// What is said where the process could not be launched.
pub fn launch_failed(error: &str) -> (message: String)
    ensures
        message@ == "failed to launch the dsh engine: "@ + error@,
        message@ == launch_failed_text(error@),
{
    let mut m = "failed to launch the dsh engine: ".to_string();
    push_text(&mut m, error);
    m
}

/// Tells that the engine is being started on `port`.
pub fn starting_event(port: u16) -> (e: StatusEvent)
    ensures
        e@ == (EventState {
            status: "starting"@,
            detail: Some("booting engine on port "@ + decimal(port as nat) + "…"@),
            url: None,
        }),
        e@ == starting_state(port),
{
    let mut detail = "booting engine on port ".to_string();
    push_text(&mut detail, decimal_of(port).as_str());
    push_text(&mut detail, "…");
    StatusEvent { status: "starting".to_string(), detail: Some(detail), url: None }
}

// ---------------------------------------------------------------------------------------------
// The engine's output
// ---------------------------------------------------------------------------------------------

/// What follows the mark at the start of an output line that announces a URL.
pub open spec fn announced(line: Seq<char>) -> Option<Seq<char>> {
    if starts_with(line, "dsh web:"@) {
        Some(line.skip("dsh web:"@.len() as int))
    } else if starts_with(line, "dsh:"@) {
        Some(line.skip("dsh:"@.len() as int))
    } else {
        None
    }
}

/// Whether a text is a web URL.
pub open spec fn web_url(s: Seq<char>) -> bool {
    starts_with(s, "http://"@) || starts_with(s, "https://"@)
}

/// The URL that an output line announces. White space around the line and the URL is no part of
/// either.
pub open spec fn url_in_line(line: Seq<char>) -> Option<Seq<char>> {
    match announced(trimmed(line)) {
        Some(rest) => if web_url(trimmed(rest)) {
            Some(trimmed(rest))
        } else {
            None
        },
        None => None,
    }
}

/// The URL that an output line announces, token included.
pub fn parse_dsh_url(line: &str) -> (r: Option<String>)
    ensures
        optional(r) == url_in_line(line@),
{
    let chars = chars_of(line);
    let long = chars_of("dsh web:");
    let short = chars_of("dsh:");
    let http = chars_of("http://");
    let https = chars_of("https://");
    let t = trim(chars.as_slice());
    let rest = if has_prefix(t, long.as_slice()) {
        slice_subrange(t, long.len(), t.len())
    } else if has_prefix(t, short.as_slice()) {
        slice_subrange(t, short.len(), t.len())
    } else {
        return None;
    };
    let url = trim(rest);
    if has_prefix(url, http.as_slice()) || has_prefix(url, https.as_slice()) {
        Some(string_of(url))
    } else {
        None
    }
}

// ---------------------------------------------------------------------------------------------
// Waiting
// ---------------------------------------------------------------------------------------------

/// What to do next while the engine comes up.
pub enum BootStep {
    /// Probe the engine's port, and collect the URLs that it has announced since the last time.
    Probe,
    /// See whether the process has ended.
    CheckExit,
    /// Wait for the interval, then go on.
    Wait,
    /// It is up. The URL is empty where none was announced.
    Ready { token_url: String },
    /// It is not coming up: end the process and give up.
    Failed { message: String },
}

/// What to do next while the engine comes up, with strings as sequences of characters.
pub enum BootStepState {
    Probe,
    CheckExit,
    Wait,
    Ready { token_url: Seq<char> },
    Failed { message: Seq<char> },
}

impl View for BootStep {
    type V = BootStepState;

    open spec fn view(&self) -> BootStepState {
        match self {
            BootStep::Probe => BootStepState::Probe,
            BootStep::CheckExit => BootStepState::CheckExit,
            BootStep::Wait => BootStepState::Wait,
            BootStep::Ready { token_url } => BootStepState::Ready { token_url: token_url@ },
            BootStep::Failed { message } => BootStepState::Failed { message: message@ },
        }
    }
}

/// What is said where the engine took too long.
pub open spec fn timeout_text(port: u16) -> Seq<char> {
    "timed out after 90s waiting for the engine on port "@ + decimal(port as nat)
        + ". Check that `dsh web` works from a terminal."@
}

/// What is said where the process ended with `status` before it answered.
pub open spec fn early_exit_text(status: Seq<char>) -> Seq<char> {
    "engine exited early with "@ + status
}

/// The last of the announced URLs, or nothing.
pub open spec fn last_or_empty(urls: Seq<Seq<char>>) -> Seq<char> {
    latest(Seq::empty(), urls)
}

/// The URL captured so far, once `urls` were announced too: the last of them, and still
/// `captured` where there is none.
pub open spec fn latest(captured: Seq<char>, urls: Seq<Seq<char>>) -> Seq<char> {
    if urls.len() > 0 {
        urls.last()
    } else {
        captured
    }
}

/// The first step of a round, `elapsed_ms` milliseconds after the launch: the engine on `port`
/// is probed until its time is up.
pub open spec fn round_step(port: u16, elapsed_ms: u64) -> BootStepState {
    if elapsed_ms < BOOT_TIMEOUT_MS {
        BootStepState::Probe
    } else {
        BootStepState::Failed { message: timeout_text(port) }
    }
}

/// The step after a probe that gave `reply`, where `captured` is the last URL that was announced
/// since the launch: once a server answers, the engine is ready, with that URL.
pub open spec fn after_probe(captured: Seq<char>, reply: Option<Reply>) -> BootStepState {
    if answers(reply) {
        BootStepState::Ready { token_url: captured }
    } else {
        BootStepState::CheckExit
    }
}

/// The step after the process was looked at, where `exit` is the status that it ended with, if
/// it has ended.
pub open spec fn after_exit_check(exit: Option<Seq<char>>) -> BootStepState {
    match exit {
        Some(status) => BootStepState::Failed { message: early_exit_text(status) },
        None => BootStepState::Wait,
    }
}

/// Begins a round, `elapsed_ms` milliseconds after the launch.
pub fn boot_round(port: u16, elapsed_ms: u64) -> (s: BootStep)
    ensures
        s@ == round_step(port, elapsed_ms),
{
    if elapsed_ms < BOOT_TIMEOUT_MS {
        BootStep::Probe
    } else {
        let mut m = "timed out after 90s waiting for the engine on port ".to_string();
        push_text(&mut m, decimal_of(port).as_str());
        push_text(&mut m, ". Check that `dsh web` works from a terminal.");
        BootStep::Failed { message: m }
    }
}

/// The probe gave `reply`, and `urls` were announced since the last round. The last URL that was
/// announced since the launch is kept in `captured`, which is empty at first.
pub fn boot_probed(
    captured: &mut String,
    urls: &Vec<String>,
    reply: &Option<Reply>,
) -> (s: BootStep)
    ensures
        final(captured)@ == latest(old(captured)@, texts(urls@)),
        s@ == after_probe(latest(old(captured)@, texts(urls@)), *reply),
{
    if urls.len() > 0 {
        *captured = urls[urls.len() - 1].clone();
    }
    assert(captured@ =~= latest(old(captured)@, texts(urls@)));
    if server_up(reply) {
        BootStep::Ready { token_url: captured.clone() }
    } else {
        BootStep::CheckExit
    }
}

/// The process was looked at: `exit` is the status that it ended with, if it has ended.
pub fn boot_exit_checked(exit: Option<&str>) -> (s: BootStep)
    ensures
        s@ == after_exit_check(optional_str(exit)),
{
    match exit {
        Some(status) => {
            let mut m = "engine exited early with ".to_string();
            push_text(&mut m, status);
            BootStep::Failed { message: m }
        },
        None => BootStep::Wait,
    }
}

// ---------------------------------------------------------------------------------------------
// A whole boot
// ---------------------------------------------------------------------------------------------

/// What one round finds.
pub struct Round {
    pub elapsed_ms: u64,
    pub urls: Seq<Seq<char>>,
    pub reply: Option<Reply>,
    pub exit: Option<Seq<char>>,
}

/// The last step of a round on the engine on `port`, where `captured` was announced before it.
pub open spec fn round_end(port: u16, captured: Seq<char>, r: Round) -> BootStepState {
    let probed = after_probe(latest(captured, r.urls), r.reply);
    if round_step(port, r.elapsed_ms) is Probe {
        if probed is CheckExit {
            after_exit_check(r.exit)
        } else {
            probed
        }
    } else {
        round_step(port, r.elapsed_ms)
    }
}

/// The last step of a boot that goes on round by round until a round does not end in waiting,
/// where `captured` was announced before.
pub open spec fn boot_end(port: u16, captured: Seq<char>, rounds: Seq<Round>) -> BootStepState
    decreases rounds.len(),
{
    if rounds.len() == 0 {
        BootStepState::Wait
    } else if round_end(port, captured, rounds[0]) is Wait {
        boot_end(port, latest(captured, rounds[0].urls), rounds.drop_first())
    } else {
        round_end(port, captured, rounds[0])
    }
}

/// The URLs that were announced in a series of rounds, in their order.
pub open spec fn urls_of(rounds: Seq<Round>) -> Seq<Seq<char>>
    decreases rounds.len(),
{
    if rounds.len() == 0 {
        Seq::empty()
    } else {
        rounds[0].urls + urls_of(rounds.drop_first())
    }
}

/// Whether nothing came of a round: in time, the server did not answer, and the process runs.
pub open spec fn quiet(r: Round) -> bool {
    r.elapsed_ms < BOOT_TIMEOUT_MS && !answers(r.reply) && r.exit is None
}

proof fn lemma_first_event(port: u16, captured: Seq<char>, rounds: Seq<Round>, k: int)
    requires
        0 <= k < rounds.len(),
        forall|i: int| 0 <= i < k ==> quiet(#[trigger] rounds[i]),
        !quiet(rounds[k]),
    ensures
        boot_end(port, captured, rounds) == (if rounds[k].elapsed_ms >= BOOT_TIMEOUT_MS {
            BootStepState::Failed { message: timeout_text(port) }
        } else if answers(rounds[k].reply) {
            BootStepState::Ready { token_url: latest(captured, urls_of(rounds.take(k + 1))) }
        } else {
            BootStepState::Failed { message: early_exit_text(rounds[k].exit->0) }
        }),
    decreases k,
{
    let upto = rounds.take(k + 1);
    let rest = rounds.drop_first();
    assert(upto[0] == rounds[0]);
    if k == 0 {
        assert(urls_of(upto.drop_first()) =~= Seq::<Seq<char>>::empty());
        assert(urls_of(upto) =~= rounds[0].urls);
    } else {
        assert(quiet(rounds[0]));
        assert forall|i: int| 0 <= i < k - 1 implies quiet(#[trigger] rest[i]) by {
            assert(rest[i] == rounds[i + 1]);
        }
        assert(rest[k - 1] == rounds[k]);
        assert(rest.take(k) =~= upto.drop_first());
        let next = latest(captured, rounds[0].urls);
        lemma_first_event(port, next, rest, k - 1);
        assert(latest(captured, urls_of(upto)) == latest(next, urls_of(rest.take(k))));
    }
}

/// The first round that is not quiet decides the boot. If it comes too late, the boot timed out.
/// Otherwise an answer makes the engine ready, with the last URL that was announced in this or
/// any earlier round; and without an answer the process has ended.
pub proof fn law_first_event_decides_the_boot(port: u16, rounds: Seq<Round>, k: int)
    requires
        0 <= k < rounds.len(),
        forall|i: int| 0 <= i < k ==> quiet(#[trigger] rounds[i]),
        !quiet(rounds[k]),
    ensures
        boot_end(port, Seq::empty(), rounds) == (if rounds[k].elapsed_ms >= BOOT_TIMEOUT_MS {
            BootStepState::Failed { message: timeout_text(port) }
        } else if answers(rounds[k].reply) {
            BootStepState::Ready { token_url: last_or_empty(urls_of(rounds.take(k + 1))) }
        } else {
            BootStepState::Failed { message: early_exit_text(rounds[k].exit->0) }
        }),
{
    lemma_first_event(port, Seq::empty(), rounds, k);
}

/// The boot waits on while every round is quiet.
pub proof fn law_quiet_boot_waits(port: u16, captured: Seq<char>, rounds: Seq<Round>)
    requires
        forall|i: int| 0 <= i < rounds.len() ==> quiet(#[trigger] rounds[i]),
    ensures
        boot_end(port, captured, rounds) is Wait,
    decreases rounds.len(),
{
    if rounds.len() > 0 {
        assert(quiet(rounds[0]));
        let rest = rounds.drop_first();
        assert forall|i: int| 0 <= i < rest.len() implies quiet(#[trigger] rest[i]) by {
            assert(rest[i] == rounds[i + 1]);
        }
        law_quiet_boot_waits(port, latest(captured, rounds[0].urls), rest);
    }
}

/// Whether a text is white space alone.
pub open spec fn blank(s: Seq<char>) -> bool {
    forall|i: int| 0 <= i < s.len() ==> white_space(#[trigger] s[i])
}

/// A URL that the engine announces is read back from its output line, whatever white space
/// stands before the mark, between the mark and the URL, and after the URL.
pub proof fn law_announcement_is_read_back(
    front: Seq<char>,
    gap: Seq<char>,
    url: Seq<char>,
    back: Seq<char>,
)
    requires
        web_url(url),
        !white_space(url.last()),
        blank(front),
        blank(gap),
        blank(back),
    ensures
        url_in_line(front + "dsh web:"@ + gap + url + back) == Some(url),
        url_in_line(front + "dsh:"@ + gap + url + back) == Some(url),
{
    reveal_strlit("dsh web:");
    reveal_strlit("dsh:");
    reveal_strlit("http://");
    reveal_strlit("https://");
    assert(url[0] == 'h') by {
        if starts_with(url, "http://"@) {
            assert(url.subrange(0, 7)[0] == url[0]);
        } else {
            assert(url.subrange(0, 8)[0] == url[0]);
        }
    }
    lemma_trimmed_strips(gap, url, Seq::empty());
    assert(gap + url + Seq::<char>::empty() =~= gap + url);
    let long = "dsh web:"@ + gap + url;
    lemma_trimmed_strips(front, long, back);
    assert(front + "dsh web:"@ + gap + url + back =~= front + long + back);
    assert(long.subrange(0, 8) =~= "dsh web:"@);
    assert(long.skip(8) =~= gap + url);
    let short = "dsh:"@ + gap + url;
    lemma_trimmed_strips(front, short, back);
    assert(front + "dsh:"@ + gap + url + back =~= front + short + back);
    assert(short.subrange(0, 4) =~= "dsh:"@);
    assert(!starts_with(short, "dsh web:"@)) by {
        assert(short[3] == ':');
        if starts_with(short, "dsh web:"@) {
            assert(short.subrange(0, 8)[3] == "dsh web:"@[3]);
        }
    }
    assert(short.skip(4) =~= gap + url);
}

/// The line by which an engine announces itself gives its URL, and that URL gives the token.
pub proof fn law_announced_token_is_captured(port: u16, token: Seq<char>)
    requires
        plain_token(token),
        !white_space(token.last()),
    ensures
        url_in_line("dsh web: "@ + announced_url(port, token)) == Some(announced_url(port, token)),
        token_in(announced_url(port, token)) == Some(token),
{
    let url = announced_url(port, token);
    reveal_strlit("http://127.0.0.1:");
    reveal_strlit("http://");
    assert(url.subrange(0, 7) =~= "http://"@);
    assert(url.last() == token.last());
    reveal_strlit("dsh web: ");
    reveal_strlit("dsh web:");
    let none = Seq::<char>::empty();
    assert(white_space(' '));
    law_announcement_is_read_back(none, seq![' '], url, none);
    assert(none + "dsh web:"@ + seq![' '] + url + none =~= "dsh web: "@ + url);
    law_announced_token_is_found(port, token);
}

/// A launch names the port that it was planned for: read as a number, the last of its four
/// arguments gives that port back, behind `--port`. So launches on two ports differ.
pub proof fn law_launch_names_its_port(port: u16, other: u16)
    ensures
        engine_args(port).len() == 4,
        engine_args(port)[0] == "web"@,
        engine_args(port)[1] == "--no-open"@,
        engine_args(port)[2] == "--port"@,
        parsed_u16(engine_args(port)[3]) == Some(port),
        port != other ==> engine_args(port)[3] != engine_args(other)[3],
{
    law_decimal_reads_back(port);
    law_decimal_reads_back(other);
}

/// There is a launch exactly if the workspace is a directory and the program was found. It is
/// that program, in that workspace, with that data directory, on that port. Without one, the
/// reason is the workspace, which is named, or else that the program is not installed.
pub proof fn law_launch_is_what_was_asked_for(
    program: Seq<u8>,
    port: u16,
    cwd: Seq<u8>,
    data_home: Option<Seq<u8>>,
    found: Option<Seq<u8>>,
)
    ensures
        planned(Some(program), port, cwd, true, data_home) matches Ok(launch) && {
            &&& launch.program == program
            &&& launch.cwd == cwd
            &&& launch.data_home == data_home
            &&& launch.args.len() == 4
            &&& launch.args[0] == "web"@
            &&& launch.args[1] == "--no-open"@
            &&& launch.args[2] == "--port"@
            &&& parsed_u16(launch.args[3]) == Some(port)
        },
        planned(found, port, cwd, false, data_home) == Err::<LaunchState, Seq<char>>(
            "workspace folder does not exist: "@ + text_in(cwd),
        ),
        planned(None, port, cwd, true, data_home) matches Err(message) && starts_with(
            message,
            "DeepSeek Harness (`dsh`) is not installed on this machine."@,
        ) && contains(message, "npm i -g @deepseek-ai/dsh"@),
{
    law_launch_names_its_port(port, port);
    let m = not_installed_text();
    reveal_strlit(
        "DeepSeek Harness (`dsh`) is not installed on this machine.\n\nInstall it once, then reopen this app:\n\n  npm i -g @deepseek-ai/dsh\n\n(requires Node.js 18+; this finds both global installs and the npm/npx cache)",
    );
    reveal_strlit("DeepSeek Harness (`dsh`) is not installed on this machine.");
    reveal_strlit("npm i -g @deepseek-ai/dsh");
    assert(m.subrange(0, 58) =~= "DeepSeek Harness (`dsh`) is not installed on this machine."@);
    assert(m.subrange(102, 127) =~= "npm i -g @deepseek-ai/dsh"@);
    assert(crate::text::occurs_at(m, "npm i -g @deepseek-ai/dsh"@, 102));
}

/// What is said of a launch names the reason or the port.
pub proof fn law_launch_is_told_with_its_port(error: Seq<char>, port: u16)
    ensures
        launch_failed_text(error) == "failed to launch the dsh engine: "@ + error,
        starting_state(port).status == "starting"@,
        starting_state(port).url is None,
        exists|d: Seq<char>| #[trigger]
            parsed_u16(d) == Some(port) && starting_state(port).detail == Some(
                "booting engine on port "@ + d + "…"@,
            ),
{
    law_decimal_reads_back(port);
    assert(parsed_u16(decimal(port as nat)) == Some(port));
}

/// A URL that is read from a line is a web URL, has no white space around it, and is what the
/// line ends with behind one of the two marks that it starts with.
pub proof fn law_url_is_read_behind_a_mark_only(line: Seq<char>)
    ensures
        url_in_line(line) matches Some(url) ==> {
            let t = trimmed(line);
            &&& (t.len() >= 8 && t.take(8) == "dsh web:"@ && url == trimmed(t.skip(8))) || (t.len()
                >= 4 && t.take(4) == "dsh:"@ && url == trimmed(t.skip(4)))
            &&& url.len() >= 7 && url.take(7) == "http://"@ || url.len() >= 8 && url.take(8)
                == "https://"@
            &&& trimmed(url) == url
        },
{
    reveal_strlit("dsh web:");
    reveal_strlit("dsh:");
    reveal_strlit("http://");
    reveal_strlit("https://");
    if let Some(url) = url_in_line(line) {
        let t = trimmed(line);
        if starts_with(t, "dsh web:"@) {
            assert(t.take(8) =~= t.subrange(0, 8));
        } else {
            assert(t.take(4) =~= t.subrange(0, 4));
        }
        if starts_with(url, "http://"@) {
            assert(url.take(7) =~= url.subrange(0, 7));
        } else {
            assert(url.take(8) =~= url.subrange(0, 8));
        }
        let rest = announced(t)->0;
        crate::text::lemma_trimmed_ends(rest);
        crate::text::lemma_trimmed_already(url);
    }
}

/// A line that is marked, and announces a web URL, gives exactly that URL, whatever white space
/// stands around; one that is marked and announces anything else gives none.
pub proof fn law_marked_line_gives_its_web_url(
    front: Seq<char>,
    gap: Seq<char>,
    url: Seq<char>,
    back: Seq<char>,
)
    requires
        url.len() > 0,
        !white_space(url[0]),
        !white_space(url.last()),
        forall|i: int| 0 <= i < front.len() ==> white_space(#[trigger] front[i]),
        forall|i: int| 0 <= i < gap.len() ==> white_space(#[trigger] gap[i]),
        forall|i: int| 0 <= i < back.len() ==> white_space(#[trigger] back[i]),
    ensures
        (url.len() >= 7 && url.take(7) == "http://"@) || (url.len() >= 8 && url.take(8)
            == "https://"@) ==> {
            &&& url_in_line(front + "dsh web:"@ + gap + url + back) == Some(url)
            &&& url_in_line(front + "dsh:"@ + gap + url + back) == Some(url)
        },
        !((url.len() >= 7 && url.take(7) == "http://"@) || (url.len() >= 8 && url.take(8)
            == "https://"@)) ==> url_in_line(front + "dsh web:"@ + gap + url + back) is None,
{
    reveal_strlit("dsh web:");
    reveal_strlit("http://");
    reveal_strlit("https://");
    if url.len() >= 7 {
        assert(url.take(7) =~= url.subrange(0, 7));
    }
    if url.len() >= 8 {
        assert(url.take(8) =~= url.subrange(0, 8));
    }
    if web_url(url) {
        law_announcement_is_read_back(front, gap, url, back);
    } else {
        lemma_trimmed_strips(gap, url, Seq::empty());
        assert(gap + url + Seq::<char>::empty() =~= gap + url);
        let long = "dsh web:"@ + gap + url;
        lemma_trimmed_strips(front, long, back);
        assert(front + "dsh web:"@ + gap + url + back =~= front + long + back);
        assert(long.subrange(0, 8) =~= "dsh web:"@);
        assert(long.skip(8) =~= gap + url);
    }
}

/// The URL that is kept is the last one announced: more URLs replace it, and none leave it.
pub proof fn law_last_announced_url_is_kept(
    captured: Seq<char>,
    a: Seq<Seq<char>>,
    b: Seq<Seq<char>>,
    url: Seq<char>,
)
    ensures
        latest(captured, a + b) == latest(latest(captured, a), b),
        latest(captured, a.push(url)) == url,
        latest(captured, Seq::empty()) == captured,
{
    if b.len() > 0 {
        assert((a + b).last() == b.last());
    } else {
        assert(a + b =~= a);
    }
}

/// The steps of a round: the engine is probed for 90 seconds; it is ready, with the URL that was
/// kept, exactly once it answers 200 or 401; and a process that has ended fails the boot, with
/// its status.
pub proof fn law_steps_of_a_round(
    port: u16,
    elapsed_ms: u64,
    captured: Seq<char>,
    reply: Option<Reply>,
    status: Seq<char>,
)
    ensures
        elapsed_ms < 90000 ==> round_step(port, elapsed_ms) is Probe,
        elapsed_ms >= 90000 ==> (round_step(port, elapsed_ms) matches BootStepState::Failed {
            message,
        } && exists|d: Seq<char>| #[trigger]
            parsed_u16(d) == Some(port) && message
                == "timed out after 90s waiting for the engine on port "@ + d
                + ". Check that `dsh web` works from a terminal."@),
        (reply matches Some(r) && (r.status == 200 || r.status == 401)) ==> after_probe(
            captured,
            reply,
        ) == (BootStepState::Ready { token_url: captured }),
        !(reply matches Some(r) && (r.status == 200 || r.status == 401)) ==> after_probe(
            captured,
            reply,
        ) is CheckExit,
        after_exit_check(None) is Wait,
        after_exit_check(Some(status)) == (BootStepState::Failed {
            message: "engine exited early with "@ + status,
        }),
{
    law_decimal_reads_back(port);
    assert(parsed_u16(decimal(port as nat)) == Some(port));
}

/// A whole boot: the first round that comes after 90 seconds, finds an answer or finds the process
/// ended decides it. On an answer in time, it is ready with the last URL that was announced up to
/// then, or with none.
pub proof fn law_boot_ends_with_the_last_url(port: u16, rounds: Seq<Round>, k: int)
    requires
        0 <= k < rounds.len(),
        forall|i: int|
            0 <= i < k ==> (#[trigger] rounds[i]).elapsed_ms < 90000 && !(rounds[i].reply matches Some(
                r,
            ) && (r.status == 200 || r.status == 401)) && rounds[i].exit is None,
        rounds[k].elapsed_ms < 90000,
        rounds[k].reply matches Some(r) && (r.status == 200 || r.status == 401),
    ensures
        boot_end(port, Seq::empty(), rounds) matches BootStepState::Ready { token_url } && {
            &&& urls_of(rounds.take(k + 1)).len() == 0 ==> token_url.len() == 0
            &&& urls_of(rounds.take(k + 1)).len() > 0 ==> token_url == urls_of(
                rounds.take(k + 1),
            ).last()
        },
{
    assert forall|i: int| 0 <= i < k implies quiet(#[trigger] rounds[i]) by {}
    law_first_event_decides_the_boot(port, rounds, k);
}

/// What is seen of a step and of a launch is what they carry.
pub proof fn law_boot_is_seen_as_it_is(step: BootStep, launch: Launch, message: String)
    ensures
        step is Probe <==> step@ is Probe,
        step is CheckExit <==> step@ is CheckExit,
        step is Wait <==> step@ is Wait,
        step matches BootStep::Ready { token_url } ==> step@ == (BootStepState::Ready {
            token_url: token_url@,
        }),
        step matches BootStep::Failed { message: m } ==> step@ == (BootStepState::Failed {
            message: m@,
        }),
        launch_state(Ok(launch)) matches Ok(l) && {
            &&& l.program == launch.program@
            &&& l.args == texts(launch.args@)
            &&& l.cwd == launch.cwd@
            &&& l.data_home == optional_path(launch.data_home)
        },
        launch_state(Err(message)) == Err::<LaunchState, Seq<char>>(message@),
{
}

} // verus!
