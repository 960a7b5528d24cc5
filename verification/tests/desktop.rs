use dsh_desktop::auth::{auth_steps, cookie_script, escape, AuthStep};
use dsh_desktop::http::Reply;
use dsh_desktop::menu::{
    build_app_menu, build_tray, handle_menu_action, Item, MenuAction, MenuEntry,
};
use dsh_desktop::paste::{
    base_name_of, file_url, is_file_copy, is_paste_shortcut, join_paths, pasteboard_paths, rewrite,
};
use dsh_desktop::report::{
    attach_report, exchange_report, page_report, page_script, script_report,
};
use dsh_desktop::text::{chars_of, string_of};

fn strings(v: &[&str]) -> Vec<String> {
    v.iter().map(|s| s.to_string()).collect()
}

// Cookie hand-over -----------------------------------------------------------------------------

#[test]
fn escaping_agrees_with_replacing() {
    for text in ["", "a=b", "it's", "a\\b", "\\'", "''\\\\'", "x\\"] {
        let expected = text.replace('\\', "\\\\").replace('\'', "\\'");
        assert_eq!(escape(text), expected);
    }
}

#[test]
fn script_writes_the_cookie() {
    assert_eq!(cookie_script("a=b"), "document.cookie = 'a=b; path=/'; 'ok'");
    assert_eq!(cookie_script("a='"), "document.cookie = 'a=\\'; path=/'; 'ok'");
}

#[test]
fn hand_over_writes_waits_and_reloads() {
    let steps = auth_steps(&Some("a=b".to_string()));
    assert_eq!(steps.len(), 3);
    match &steps[0] {
        AuthStep::Run { label, script } => {
            assert_eq!(label, "cookie-write");
            assert_eq!(script, "document.cookie = 'a=b; path=/'; 'ok'");
        }
        _ => panic!("the cookie is written first"),
    }
    assert!(matches!(steps[1], AuthStep::Wait { ms: 700 }));
    match &steps[2] {
        AuthStep::Run { label, script } => {
            assert_eq!(label, "reload");
            assert_eq!(script, "location.reload(); 'ok'");
        }
        _ => panic!("the page is loaded last"),
    }
    assert!(auth_steps(&None).is_empty());
}

// Menus ----------------------------------------------------------------------------------------

const ITEMS: [Item; 8] = [
    Item::Show,
    Item::Hide,
    Item::OpenBrowser,
    Item::SetWorkspace,
    Item::Restart,
    Item::Stop,
    Item::RevealData,
    Item::Quit,
];

#[test]
fn tray_lists_its_entries() {
    let tray = build_tray();
    let labels: Vec<String> = tray
        .iter()
        .map(|e| match e {
            MenuEntry::Own(item) => item.label(),
            _ => "-".to_string(),
        })
        .collect();
    assert_eq!(
        labels,
        vec![
            "Show DSH Desktop",
            "Hide DSH Desktop",
            "-",
            "Open in Browser…",
            "Set Workspace Folder…",
            "-",
            "Restart Engine",
            "Stop Engine",
            "Reveal Data Folder (~/.dsh)",
            "-",
            "Quit DSH Desktop",
        ]
    );
    for item in ITEMS {
        assert!(tray.iter().any(|e| *e == MenuEntry::Own(item)));
    }
}

#[test]
fn menu_bar_lists_its_menus() {
    let menus = build_app_menu();
    let titles: Vec<&str> = menus.iter().map(|m| m.title.as_str()).collect();
    assert_eq!(titles, vec!["DSH Desktop", "Edit", "Engine"]);
    assert!(menus[0].entries == vec![
        MenuEntry::About,
        MenuEntry::Services,
        MenuEntry::Hide,
        MenuEntry::Own(Item::Quit),
    ]);
    assert!(menus[1].entries == vec![
        MenuEntry::Undo,
        MenuEntry::Redo,
        MenuEntry::Separator,
        MenuEntry::Cut,
        MenuEntry::Copy,
        MenuEntry::Paste,
        MenuEntry::SelectAll,
    ]);
    for item in ITEMS {
        let system = item == Item::Hide;
        assert!(menus.iter().any(|m| m.entries.iter().any(|e| *e == MenuEntry::Own(item)
            || system && *e == MenuEntry::Hide)));
    }
}

#[test]
fn items_do_what_they_are_for() {
    assert_eq!(
        ITEMS.iter().map(|i| i.id()).collect::<Vec<String>>(),
        vec![
            "show", "hide", "open-browser", "set-workspace", "restart", "stop", "open-appdata",
            "quit",
        ]
    );
    assert!(matches!(handle_menu_action("show", None), MenuAction::ShowWindow));
    assert!(matches!(handle_menu_action("hide", None), MenuAction::HideWindow));
    assert!(matches!(handle_menu_action("hide", Some(3480)), MenuAction::HideWindow));
    match handle_menu_action("open-browser", Some(3480)) {
        MenuAction::OpenUrl { url } => assert_eq!(url, "http://127.0.0.1:3480"),
        _ => panic!("there is an engine"),
    }
    assert!(matches!(handle_menu_action("open-browser", None), MenuAction::ShowWindow));
    assert!(matches!(handle_menu_action("set-workspace", None), MenuAction::PickWorkspace));
    assert!(matches!(handle_menu_action("restart", None), MenuAction::RestartEngine));
    assert!(matches!(handle_menu_action("stop", Some(1)), MenuAction::StopEngine));
    assert!(matches!(handle_menu_action("open-appdata", None), MenuAction::RevealData));
    assert!(matches!(handle_menu_action("quit", None), MenuAction::Exit));
    assert!(matches!(handle_menu_action("Quit", None), MenuAction::Nothing));
    assert!(matches!(handle_menu_action("", None), MenuAction::Nothing));
}

// Pasting --------------------------------------------------------------------------------------

#[test]
fn shortcut_is_command_v() {
    assert!(is_paste_shortcut(9, true));
    assert!(!is_paste_shortcut(9, false));
    assert!(!is_paste_shortcut(8, true));
}

#[test]
fn name_is_what_follows_the_last_slash() {
    for path in ["/a/b.txt", "b", "/a/", "", "/", "//x"] {
        let chars = chars_of(path);
        assert_eq!(string_of(base_name_of(&chars)), path.rsplit('/').next().unwrap_or(""));
    }
}

#[test]
fn items_that_resolve_are_kept_in_order() {
    let items = vec![None, Some("/a".to_string()), None, Some("/b".to_string())];
    assert_eq!(pasteboard_paths(&items), strings(&["/a", "/b"]));
    assert!(pasteboard_paths(&Vec::new()).is_empty());
    assert_eq!(file_url("  file:///a%20b \n"), "file:///a%20b");
}

#[test]
fn file_managers_copy_is_recognised() {
    let paths = strings(&["/u/a.txt", "/u/dir"]);
    assert!(is_file_copy(&paths, None));
    assert!(is_file_copy(&paths, Some("")));
    assert!(is_file_copy(&paths, Some("a.txt\ndir")));
    assert!(is_file_copy(&paths, Some(" dir \r\n\r\na.txt\n")));
    assert!(is_file_copy(&paths, Some("a.txt")));
}

#[test]
fn names_with_white_space_at_their_ends_are_recognised() {
    let paths = strings(&["/u/ a.txt", "/u/dir ", "/u/ "]);
    assert!(is_file_copy(&paths, Some(" a.txt\ndir \n ")));
    assert!(is_file_copy(&paths, Some(" a.txt\r\ndir \r\n")));
    assert!(!is_file_copy(&paths, Some("a.txt")));
    assert!(!is_file_copy(&paths, Some("  a.txt")));
    assert!(!is_file_copy(&paths, Some("dir")));
    assert_eq!(
        rewrite(&strings(&["/u/ a.txt"]), Some(" a.txt")),
        Some("/u/ a.txt".to_string())
    );
}

#[test]
fn other_text_is_untouched() {
    let paths = strings(&["/u/a.txt"]);
    assert!(!is_file_copy(&paths, Some("hello")));
    assert!(!is_file_copy(&paths, Some("a.txt\nhello")));
    assert!(!is_file_copy(&paths, Some("/u/a.txt")));
    assert!(!is_file_copy(&Vec::new(), Some("a.txt")));
    assert!(!is_file_copy(&Vec::new(), None));
    assert_eq!(rewrite(&paths, Some("hello")), None);
    assert_eq!(rewrite(&Vec::new(), None), None);
}

#[test]
fn files_paste_as_paths() {
    assert_eq!(rewrite(&strings(&["/u/a b"]), Some("a b")), Some("/u/a b".to_string()));
    let paths = strings(&["/a", "/b", "/c"]);
    assert_eq!(rewrite(&paths, None), Some("/a\n/b\n/c".to_string()));
    let pasted = join_paths(&paths);
    assert_eq!(pasted.lines().map(|l| l.to_string()).collect::<Vec<String>>(), paths);
    assert_eq!(join_paths(&Vec::new()), "");
}

// Log lines ------------------------------------------------------------------------------------

#[test]
fn log_lines_tell_what_happened() {
    assert_eq!(page_report(true, None), "[diag] evaluateJavaScript error");
    assert_eq!(page_report(true, Some("x")), "[diag] evaluateJavaScript error");
    assert_eq!(page_report(false, None), "[diag] empty result");
    assert_eq!(page_report(false, Some("DSH|hi")), "[diag] page: DSH|hi");
    assert_eq!(script_report("reload", true), "[eval] reload: THREW");
    assert_eq!(script_report("reload", false), "[eval] reload: ran");
    assert_eq!(
        page_script(),
        "(document.title||'')+'|'+(document.body&&document.body.innerText||'').replace(/\\n/g,' ').slice(0,160)"
    );
}

#[test]
fn refusals_and_failed_exchanges_are_logged() {
    assert_eq!(attach_report("why"), "attach failed (why), falling back to standalone");
    let reply = |status: u16| Some(Reply { status, body: Vec::new() });
    assert_eq!(
        exchange_report(&reply(401)),
        Some("auth exchange: unexpected status 401".to_string())
    );
    assert_eq!(exchange_report(&reply(303)), None);
    assert_eq!(exchange_report(&None), None);
}
