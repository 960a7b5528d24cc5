use dsh_desktop::discovery::{
    cache_dir, cached_program, find_dsh, scan_npx_root, CacheEntry,
};
use dsh_desktop::path::FsPath;
use dsh_desktop::settings::{
    data_folder, engine_home, home_dir, load_settings, settings_path, Settings, DESKTOP_PORT,
};
use std::cell::RefCell;

fn p(text: &str) -> FsPath {
    FsPath::from_text(text)
}

fn shown(path: Option<FsPath>) -> Option<String> {
    path.map(|p| p.display())
}

#[test]
fn joining_agrees_with_std() {
    for base in ["", "/", "/a", "/a/", "a", "a//"] {
        for part in ["", "b", "/b", "b/c", ".npm", "/"] {
            let expected = std::path::PathBuf::from(base).join(part).display().to_string();
            assert_eq!(p(base).join(part).display(), expected, "{:?} {:?}", base, part);
        }
    }
    assert_eq!(FsPath::root().display(), "/");
    assert_eq!(p("/x").clone().bytes, b"/x".to_vec());
}

#[test]
fn paths_that_are_not_text_are_shown_with_replacements() {
    let odd = FsPath { bytes: vec![b'/', 0xff, b'a'] };
    assert_eq!(odd.display(), "/\u{fffd}a");
    assert_eq!(odd.join("b").bytes, vec![b'/', 0xff, b'a', b'/', b'b']);
}

#[test]
fn workspace_falls_back_to_home_and_root() {
    let set = Settings { workspace: Some(p("/work")), prefer_port: None };
    let unset = Settings::default();
    assert_eq!(set.workspace_dir(&Some(p("/home/u"))).display(), "/work");
    assert_eq!(unset.workspace_dir(&Some(p("/home/u"))).display(), "/home/u");
    assert_eq!(unset.workspace_dir(&None).display(), "/");
}

#[test]
fn named_port_is_preferred() {
    let unset = Settings::default();
    let set = Settings { workspace: None, prefer_port: Some(4000) };
    assert_eq!(unset.preferred_port(None), DESKTOP_PORT);
    assert_eq!(unset.preferred_port(None), 3480);
    assert_eq!(set.preferred_port(None), 4000);
    assert_eq!(set.preferred_port(Some("3499")), 3499);
    assert_eq!(set.preferred_port(Some("port")), 4000);
    assert_eq!(unset.preferred_port(Some("70000")), 3480);
}

#[test]
fn chosen_workspace_is_kept() {
    let mut s = Settings { workspace: None, prefer_port: Some(1) };
    s.choose_workspace(p("/w"));
    assert_eq!(shown(s.workspace), Some("/w".to_string()));
    assert_eq!(s.prefer_port, Some(1));
}

#[test]
fn unreadable_settings_are_the_default() {
    let s = load_settings(None);
    assert!(s.workspace.is_none() && s.prefer_port.is_none());
    let s = load_settings(Some(Settings { workspace: Some(p("/w")), prefer_port: Some(7) }));
    assert_eq!(s.prefer_port, Some(7));
    assert_eq!(shown(s.workspace), Some("/w".to_string()));
}

#[test]
fn home_is_the_first_variable_that_is_set() {
    assert_eq!(shown(home_dir(Some(p("/a")), Some(p("/b")))), Some("/a".to_string()));
    assert_eq!(shown(home_dir(None, Some(p("/b")))), Some("/b".to_string()));
    assert!(home_dir(None, None).is_none());
}

#[test]
fn data_home_is_absolute_or_below_home() {
    let home = Some(p("/home/u"));
    assert_eq!(shown(engine_home(Some("/tmp/t"), &home)), Some("/tmp/t".to_string()));
    assert_eq!(shown(engine_home(Some("t"), &home)), Some("/home/u/t".to_string()));
    assert_eq!(shown(engine_home(Some("t"), &None)), Some("/t".to_string()));
    assert!(engine_home(None, &home).is_none());
}

#[test]
fn well_known_files() {
    assert_eq!(shown(data_folder(&Some(p("/home/u")))), Some("/home/u/.dsh".to_string()));
    assert!(data_folder(&None).is_none());
    assert_eq!(shown(settings_path(&Some(p("/c")))), Some("/c/settings.json".to_string()));
    assert!(settings_path(&None).is_none());
    assert_eq!(cache_dir(&p("/h/.npm")).display(), "/h/.npm/_npx");
    assert_eq!(
        cached_program(&p("/h/.npm/_npx/1f")).display(),
        "/h/.npm/_npx/1f/node_modules/.bin/dsh"
    );
}

fn entry(path: &str, is_file: bool, modified: Option<i128>) -> CacheEntry {
    CacheEntry { program: p(path), is_file, modified }
}

#[test]
fn newest_program_wins_and_the_first_of_equals() {
    let entries = vec![
        entry("/a", true, Some(5)),
        entry("/gone", false, Some(99)),
        entry("/ageless", true, None),
        entry("/b", true, Some(9)),
        entry("/c", true, Some(9)),
        entry("/old", true, Some(-3)),
    ];
    assert_eq!(shown(scan_npx_root(&entries)), Some("/b".to_string()));
    assert!(scan_npx_root(&vec![entry("/gone", false, Some(1))]).is_none());
    assert!(scan_npx_root(&Vec::new()).is_none());
    let negative = vec![entry("/x", true, Some(-7)), entry("/y", true, Some(-6))];
    assert_eq!(shown(scan_npx_root(&negative)), Some("/y".to_string()));
}

#[test]
fn search_path_comes_before_the_cache() {
    let dirs = vec![p("/bin"), p("/opt/bin"), p("/usr/bin")];
    let tried = RefCell::new(Vec::new());
    let found = find_dsh(
        &dirs,
        &Some(p("/home/u")),
        |q: &FsPath| {
            tried.borrow_mut().push(q.display());
            q.display() == "/opt/bin/dsh"
        },
        |_: &FsPath| Some(p("/cache/dsh")),
    );
    assert_eq!(shown(found), Some("/opt/bin/dsh".to_string()));
    assert_eq!(tried.into_inner(), vec!["/bin/dsh".to_string(), "/opt/bin/dsh".to_string()]);
}

#[test]
fn cache_below_home_is_the_second_place() {
    let dirs = vec![p("/bin")];
    let found = find_dsh(
        &dirs,
        &Some(p("/home/u")),
        |_: &FsPath| false,
        |root: &FsPath| Some(root.join("found")),
    );
    assert_eq!(shown(found), Some("/home/u/.npm/found".to_string()));
    let none = find_dsh(&dirs, &Some(p("/home/u")), |_: &FsPath| false, |_: &FsPath| None);
    assert!(none.is_none());
    let homeless = find_dsh(&dirs, &None, |_: &FsPath| false, |_: &FsPath| Some(p("/x")));
    assert!(homeless.is_none());
}
