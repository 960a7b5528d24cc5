use dsh_desktop::boot::{
    boot_exit_checked, boot_probed, boot_round, launch_failed, parse_dsh_url, plan_launch,
    starting_event, BootStep,
};
use dsh_desktop::engine::{Engine, Mode, StatusEvent, Watch};
use dsh_desktop::http::{auth_token, Reply};
use dsh_desktop::path::FsPath;
use dsh_desktop::ports::{choose_port, next_free_port};
use dsh_desktop::settings::Settings;
use dsh_desktop::shutdown::{stop_child, StopStep};
use dsh_desktop::start::{
    action_start, attach_probed, canonical_probed, child_polled, engine_spawned, own_probed,
    port_picked, FollowUp, StartStep, Surroundings,
};
use std::cell::RefCell;

fn p(text: &str) -> FsPath {
    FsPath::from_text(text)
}

fn reply(status: u16, body: &str) -> Option<Reply> {
    Some(Reply { status, body: body.as_bytes().to_vec() })
}

fn event_is(event: &StatusEvent, status: &str, detail: Option<&str>, url: Option<&str>) -> bool {
    event.status == status && event.detail.as_deref() == detail && event.url.as_deref() == url
}

fn running() -> Engine {
    let mut e = Engine::default();
    e.take_over(77, 3480, "http://127.0.0.1:3480/?token=t".to_string());
    e
}

fn around(no_attach: bool) -> Surroundings {
    Surroundings {
        settings: Settings { workspace: Some(p("/w")), prefer_port: None },
        home: Some(p("/h")),
        port_variable: None,
        no_attach,
    }
}

// Engine ---------------------------------------------------------------------------------------

#[test]
fn engine_starts_out_idle() {
    let info = Engine::default().snapshot_info(&p("/w"));
    assert_eq!(info.status, "stopped");
    assert_eq!(info.mode, "");
    assert_eq!(info.url, None);
    assert_eq!(info.port, None);
    assert_eq!(info.pid, None);
    assert_eq!(info.workspace, "/w");
    assert_eq!(info.detail, None);
    assert_eq!(info.token_url, None);
    assert_eq!(Engine::default().engine_port(), 3480);
}

#[test]
fn own_engine_is_reported_ready() {
    let info = running().snapshot_info(&p("/w"));
    assert_eq!(info.status, "ready");
    assert_eq!(info.mode, "standalone");
    assert_eq!(info.url, Some("http://127.0.0.1:3480".to_string()));
    assert_eq!(info.port, Some(3480));
    assert_eq!(info.pid, Some(77));
    assert_eq!(info.token_url, Some("http://127.0.0.1:3480/?token=t".to_string()));
}

#[test]
fn attaching_forgets_the_child() {
    let mut e = running();
    let (forgotten, event) = e.action_attach(3080, &reply(200, "")).ok().unwrap();
    assert_eq!(forgotten, Some(77));
    assert!(event_is(
        &event,
        "attached",
        Some("attached to the running engine"),
        Some("http://127.0.0.1:3080")
    ));
    let info = e.snapshot_info(&p("/w"));
    assert_eq!(info.status, "attached");
    assert_eq!(info.mode, "attached");
    assert_eq!(info.port, Some(3080));
    assert_eq!(info.pid, None);
    assert_eq!(info.token_url, None);
    assert_eq!(e.action_attach(3080, &None).ok().unwrap().0, None);
}

#[test]
fn taking_over_hands_out_the_old_child() {
    let mut e = Engine::default();
    assert_eq!(e.take_over(7, 3480, String::new()), None);
    assert_eq!(e.take_over(8, 3481, String::new()), Some(7));
    assert_eq!(e.child, Some(8));
    assert_eq!(e.on_exit(), Some(8));
}

#[test]
fn engine_that_asks_for_authentication_is_refused() {
    let mut e = running();
    let message = e.action_attach(3080, &reply(401, "")).err().unwrap();
    assert_eq!(
        message,
        "a DSH engine is running on port 3080 but requires authentication. \
         Close it and reopen DSH Desktop to start a fresh engine with a token."
    );
    assert_eq!(e.child, Some(77));
    assert_eq!(e.port, Some(3480));
}

#[test]
fn stop_ends_the_child_only() {
    let mut e = running();
    let (pid, event) = e.action_stop_engine();
    assert_eq!(pid, Some(77));
    assert!(event_is(&event, "stopped", Some("engine stopped"), None));
    assert!(e.child.is_none() && e.port.is_none() && e.url.is_none() && e.token_url.is_none());
    assert!(e.manual_stop);
    assert_eq!(e.snapshot_info(&p("/")).mode, "stopped");
    assert_eq!(e.snapshot_info(&p("/")).status, "stopped");

    let mut e = Engine::default();
    e.action_attach(3080, &None).ok().unwrap();
    let (pid, _) = e.action_stop_engine();
    assert_eq!(pid, None);
    assert!(!e.manual_stop);
}

#[test]
fn quitting_ends_the_child() {
    let mut e = running();
    assert_eq!(e.on_exit(), Some(77));
    assert!(e.child.is_none() && e.manual_stop);
    assert_eq!(e.on_exit(), None);
    assert_eq!(Engine::default().on_exit(), None);
}

#[test]
fn watchdog_tells_crashes_only() {
    let mut e = running();
    assert!(e.watch(3480) == Watch::Poll);
    assert!(e.watch(3481) == Watch::Leave);
    let (message, event) = e.child_exited("exit status: 1").unwrap();
    assert_eq!(
        message,
        "The engine exited unexpectedly (exit status: 1). Restart it from the tray or menu."
    );
    assert!(event_is(&event, "error", Some(&message), None));
    assert!(e.watch(3480) == Watch::Leave);
    assert!(e.mode == Mode::Standalone);
    assert!(e.token_url.is_some());

    let mut e = running();
    e.action_stop_engine();
    assert!(e.watch(3480) == Watch::Leave);

    let mut e = running();
    e.manual_stop = true;
    assert!(e.child_exited("x").is_none());

    let mut e = Engine::default();
    e.action_attach(3080, &None).ok().unwrap();
    assert!(e.watch(3080) == Watch::Wait);
}

#[test]
fn browser_needs_an_engine() {
    assert_eq!(running().open_in_browser(), Ok("http://127.0.0.1:3480".to_string()));
    assert_eq!(
        Engine::default().open_in_browser(),
        Err("no engine is running yet".to_string())
    );
}

// Ports ----------------------------------------------------------------------------------------

#[test]
fn first_free_port_is_taken() {
    let tried = RefCell::new(Vec::new());
    let found = next_free_port(4000, |q: u16| {
        tried.borrow_mut().push(q);
        q < 4002
    });
    assert_eq!(found, Some(4002));
    assert_eq!(tried.into_inner(), vec![4000, 4001, 4002]);
    assert_eq!(next_free_port(4000, |_| true), None);
    assert_eq!(next_free_port(4000, |q: u16| q != 4255), Some(4255));
    assert_eq!(next_free_port(4000, |q: u16| q != 4256), None);
}

#[test]
fn preferred_port_is_taken_if_free() {
    assert_eq!(choose_port(3480, |_| false), Some(3480));
    assert_eq!(choose_port(3480, |q: u16| q <= 3482), Some(3483));
    assert_eq!(choose_port(3480, |q: u16| q != 3736), Some(3736));
    assert_eq!(choose_port(3480, |_| true), None);
    assert_eq!(choose_port(65535, |_| false), Some(65535));
    assert_eq!(choose_port(65278, |q: u16| q == 65278), Some(65279));
}

#[test]
fn ports_end_with_the_last_one() {
    assert_eq!(choose_port(65500, |q: u16| q == 65500), Some(65501));
    assert_eq!(choose_port(65500, |q: u16| q < 65535), Some(65535));
    assert_eq!(choose_port(65500, |_| true), None);
    assert_eq!(choose_port(65535, |q: u16| q == 65535), None);
    assert_eq!(next_free_port(65535, |_| false), Some(65535));
    assert_eq!(next_free_port(65535, |_| true), None);
    assert_eq!(next_free_port(65279, |q: u16| q != 65535), None);
    assert_eq!(next_free_port(65280, |q: u16| q != 65535), Some(65535));
}

// Boot -----------------------------------------------------------------------------------------

#[test]
fn launch_is_planned() {
    let l = plan_launch(Some(p("/bin/dsh")), 3480, &p("/w"), true, Some(p("/data"))).ok().unwrap();
    assert_eq!(l.program.display(), "/bin/dsh");
    assert_eq!(l.args, vec!["web", "--no-open", "--port", "3480"]);
    assert_eq!(l.cwd.display(), "/w");
    assert_eq!(l.data_home.map(|d| d.display()), Some("/data".to_string()));
}

#[test]
fn launch_is_refused_with_a_reason() {
    assert_eq!(
        plan_launch(Some(p("/bin/dsh")), 1, &p("/gone"), false, None).err(),
        Some("workspace folder does not exist: /gone".to_string())
    );
    assert_eq!(
        plan_launch(None, 1, &p("/gone"), false, None).err(),
        Some("workspace folder does not exist: /gone".to_string())
    );
    assert_eq!(
        plan_launch(None, 1, &p("/w"), true, None).err().unwrap(),
        "DeepSeek Harness (`dsh`) is not installed on this machine.\n\n\
         Install it once, then reopen this app:\n\
         \n  npm i -g @deepseek-ai/dsh\n\
         \n(requires Node.js 18+; this finds both global installs and the npm/npx cache)"
    );
    assert_eq!(launch_failed("denied"), "failed to launch the dsh engine: denied");
}

#[test]
fn starting_is_announced() {
    let event = starting_event(3480);
    assert!(event_is(&event, "starting", Some("booting engine on port 3480…"), None));
}

#[test]
fn announced_url_is_read() {
    let url = "http://127.0.0.1:3480/?token=abc";
    assert_eq!(parse_dsh_url(&format!("dsh web: {url}")), Some(url.to_string()));
    assert_eq!(parse_dsh_url(&format!("dsh: {url}")), Some(url.to_string()));
    assert_eq!(parse_dsh_url(&format!("  dsh web:{url}  \r\n")), Some(url.to_string()));
    assert_eq!(parse_dsh_url("dsh web: https://x"), Some("https://x".to_string()));
    assert_eq!(parse_dsh_url("dsh web: ftp://x"), None);
    assert_eq!(parse_dsh_url("dsh web:"), None);
    assert_eq!(parse_dsh_url(url), None);
    assert_eq!(parse_dsh_url(""), None);
    assert_eq!(
        auth_token(&parse_dsh_url(&format!("dsh web: {url}")).unwrap()),
        Some("abc".to_string())
    );
}

#[test]
fn boot_goes_on_until_the_time_is_up() {
    assert!(matches!(boot_round(3480, 0), BootStep::Probe));
    assert!(matches!(boot_round(3480, 89999), BootStep::Probe));
    match boot_round(3480, 90000) {
        BootStep::Failed { message } => assert_eq!(
            message,
            "timed out after 90s waiting for the engine on port 3480. \
             Check that `dsh web` works from a terminal."
        ),
        _ => panic!("the time is up"),
    }
}

#[test]
fn boot_is_ready_on_an_answer() {
    let urls = vec!["http://a".to_string(), "http://b".to_string()];
    for status in [200, 401] {
        match boot_probed(&mut String::new(), &urls, &reply(status, "")) {
            BootStep::Ready { token_url } => assert_eq!(token_url, "http://b"),
            _ => panic!("a server answered"),
        }
    }
    match boot_probed(&mut String::new(), &Vec::new(), &reply(200, "")) {
        BootStep::Ready { token_url } => assert_eq!(token_url, ""),
        _ => panic!("a server answered"),
    }
    let mut captured = String::new();
    assert!(matches!(
        boot_probed(&mut captured, &urls, &reply(500, "")),
        BootStep::CheckExit
    ));
    assert!(matches!(boot_probed(&mut captured, &urls, &None), BootStep::CheckExit));
    assert_eq!(captured, "http://b");
}

#[test]
fn url_announced_before_the_answer_is_kept() {
    let mut captured = String::new();
    let first = vec!["http://127.0.0.1:3480/?token=t".to_string()];
    assert!(matches!(boot_probed(&mut captured, &first, &None), BootStep::CheckExit));
    assert!(matches!(boot_probed(&mut captured, &Vec::new(), &None), BootStep::CheckExit));
    match boot_probed(&mut captured, &Vec::new(), &reply(401, "")) {
        BootStep::Ready { token_url } => assert_eq!(token_url, "http://127.0.0.1:3480/?token=t"),
        _ => panic!("a server answered"),
    }
    let later = vec!["http://127.0.0.1:3480/?token=u".to_string()];
    match boot_probed(&mut captured, &later, &reply(401, "")) {
        BootStep::Ready { token_url } => assert_eq!(token_url, "http://127.0.0.1:3480/?token=u"),
        _ => panic!("a server answered"),
    }
}

#[test]
fn boot_fails_on_an_early_exit() {
    assert!(matches!(boot_exit_checked(None), BootStep::Wait));
    match boot_exit_checked(Some("exit status: 1")) {
        BootStep::Failed { message } => {
            assert_eq!(message, "engine exited early with exit status: 1")
        }
        _ => panic!("the process has ended"),
    }
}

#[test]
fn process_is_killed_after_the_grace_period() {
    assert!(stop_child(true, 0) == StopStep::Done);
    assert!(stop_child(true, 6000) == StopStep::Done);
    assert!(stop_child(false, 0) == StopStep::Wait);
    assert!(stop_child(false, 5999) == StopStep::Wait);
    assert!(stop_child(false, 6000) == StopStep::Kill);
}

// Start ----------------------------------------------------------------------------------------

#[test]
fn healthy_engine_is_reused() {
    let e = running();
    let s = around(false);
    assert!(matches!(action_start(&e, &s), StartStep::PollChild));
    assert!(matches!(child_polled(&e, &s, true), StartStep::ProbeOwn { port: 3480 }));
    match own_probed(&e, &s, &reply(401, "")) {
        StartStep::Healthy { info } => {
            assert_eq!(info.status, "ready");
            assert_eq!(info.mode, "standalone");
            assert_eq!(info.url, Some("http://127.0.0.1:3480/?token=t".to_string()));
            assert_eq!(info.port, Some(3480));
            assert_eq!(info.pid, None);
            assert_eq!(info.workspace, "/w");
            assert_eq!(info.token_url, Some("http://127.0.0.1:3480/?token=t".to_string()));
        }
        _ => panic!("the engine answers"),
    }
}

#[test]
fn healthy_report_without_token_names_the_port() {
    let mut e = running();
    e.token_url = None;
    e.port = None;
    let info = e.healthy_snapshot(&p("/w"));
    assert_eq!(info.url, Some("http://127.0.0.1:3480".to_string()));
    assert_eq!(info.port, Some(3480));
}

#[test]
fn dead_or_silent_engine_is_passed_over() {
    let e = running();
    assert!(matches!(child_polled(&e, &around(false), false), StartStep::ProbeCanonical));
    assert!(matches!(own_probed(&e, &around(false), &None), StartStep::ProbeCanonical));
    assert!(matches!(
        own_probed(&e, &around(true), &reply(500, "")),
        StartStep::PickPort { prefer: 3480, refused: None }
    ));
    let idle = Engine::default();
    assert!(matches!(action_start(&idle, &around(false)), StartStep::ProbeCanonical));
    assert!(matches!(action_start(&idle, &around(true)), StartStep::PickPort { prefer: 3480, refused: None }));
}

#[test]
fn running_engine_is_attached_to() {
    let s = around(false);
    assert!(matches!(
        canonical_probed(&s, &reply(200, "DeepSeek Harness")),
        StartStep::ProbeAttach { port: 3080 }
    ));
    let mut e = Engine::default();
    match attach_probed(&mut e, &s, 3080, &reply(200, "DeepSeek Harness")) {
        StartStep::Attached { info, event, url, forgotten } => {
            assert_eq!(forgotten, None);
            assert_eq!(info.status, "attached");
            assert_eq!(info.workspace, "/w");
            assert_eq!(event.status, "attached");
            assert_eq!(url, "http://127.0.0.1:3080");
        }
        _ => panic!("the engine is open"),
    }
    assert!(e.mode == Mode::Attached);
}

#[test]
fn start_hands_out_the_child_it_forgets() {
    let s = around(false);
    let mut e = running();
    match attach_probed(&mut e, &s, 3080, &reply(200, "DeepSeek Harness")) {
        StartStep::Attached { forgotten, .. } => assert_eq!(forgotten, Some(77)),
        _ => panic!("the engine is open"),
    }
    assert_eq!(e.child, None);

    let mut e = running();
    match engine_spawned(&mut e, &s, 3481, Ok((78, String::new()))) {
        StartStep::Started { forgotten, .. } => assert_eq!(forgotten, Some(77)),
        _ => panic!("it was spawned"),
    }
    assert_eq!(e.child, Some(78));

    let mut e = running();
    assert!(matches!(
        engine_spawned(&mut e, &s, 3481, Err("no".to_string())),
        StartStep::Failed { .. }
    ));
    assert_eq!(e.child, Some(77));
}

#[test]
fn gated_or_missing_engine_leads_to_a_spawn() {
    let s = around(false);
    assert!(matches!(
        canonical_probed(&s, &reply(200, "other")),
        StartStep::PickPort { prefer: 3480, refused: None }
    ));
    assert!(matches!(canonical_probed(&s, &None), StartStep::PickPort { prefer: 3480, refused: None }));
    assert!(matches!(
        canonical_probed(&s, &reply(401, "")),
        StartStep::ProbeAttach { port: 3080 }
    ));
    let mut e = Engine::default();
    match attach_probed(&mut e, &s, 3080, &reply(401, "")) {
        StartStep::PickPort { prefer, refused } => {
            assert_eq!(prefer, 3480);
            assert_eq!(
                refused,
                Some(
                    "a DSH engine is running on port 3080 but requires authentication. \
                     Close it and reopen DSH Desktop to start a fresh engine with a token."
                        .to_string()
                )
            );
        }
        _ => panic!("the engine asks for authentication"),
    }
    assert!(e.mode == Mode::Unset);
}

#[test]
fn picked_port_is_spawned_on() {
    let mut s = around(true);
    s.port_variable = Some("3499".to_string());
    assert!(matches!(
        action_start(&Engine::default(), &s),
        StartStep::PickPort { prefer: 3499, refused: None }
    ));
    match port_picked(&s, Some(3500)) {
        StartStep::Spawn { port, cwd } => {
            assert_eq!(port, 3500);
            assert_eq!(cwd.display(), "/w");
        }
        _ => panic!("there is a port"),
    }
    match port_picked(&s, None) {
        StartStep::Failed { message } => assert_eq!(message, "no free port available"),
        _ => panic!("there is no port"),
    }
}

#[test]
fn spawned_engine_is_authenticated_or_shown() {
    let s = around(true);
    let mut e = Engine::default();
    let url = "http://127.0.0.1:3480/?token=t".to_string();
    match engine_spawned(&mut e, &s, 3480, Ok((9, url.clone()))) {
        StartStep::Started { info, port, follow_up, forgotten } => {
            assert_eq!(forgotten, None);
            assert_eq!(info.pid, Some(9));
            assert_eq!(info.status, "ready");
            assert_eq!(port, 3480);
            match follow_up {
                FollowUp::Authenticate { token_url } => assert_eq!(token_url, url),
                _ => panic!("there is a token"),
            }
        }
        _ => panic!("it was spawned"),
    }
    assert_eq!(e.child, Some(9));
    match engine_spawned(&mut e, &s, 3481, Ok((10, String::new()))) {
        StartStep::Started {
            follow_up: FollowUp::Navigate { event, url },
            forgotten,
            ..
        } => {
            assert_eq!(forgotten, Some(9));
            assert!(event_is(
                &event,
                "ready",
                Some("engine ready"),
                Some("http://127.0.0.1:3481")
            ));
            assert_eq!(url, "http://127.0.0.1:3481");
        }
        _ => panic!("there is no token"),
    }
    match engine_spawned(&mut e, &s, 3482, Err("no".to_string())) {
        StartStep::Failed { message } => assert_eq!(message, "no"),
        _ => panic!("it was not spawned"),
    }
    assert_eq!(e.child, Some(10));
}

#[test]
fn second_start_finds_the_first_engine() {
    let s = around(true);
    let mut e = Engine::default();
    engine_spawned(&mut e, &s, 3480, Ok((9, String::new())));
    assert!(matches!(action_start(&e, &s), StartStep::PollChild));
    assert!(matches!(child_polled(&e, &s, true), StartStep::ProbeOwn { port: 3480 }));
    assert!(matches!(own_probed(&e, &s, &reply(200, "")), StartStep::Healthy { .. }));
}
