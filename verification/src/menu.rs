//! The tray and the application menu, and what choosing an item does.
use crate::http::{engine_url, engine_url_text};
use crate::text::same_text;
use vstd::prelude::*;

verus! {

/// An item of the app's own.
#[derive(Clone, Copy, PartialEq, Eq, Structural)]
pub enum Item {
    Show,
    Hide,
    OpenBrowser,
    SetWorkspace,
    Restart,
    Stop,
    RevealData,
    Quit,
}

/// An entry of a menu: an item of the app's own, a separator, or one that the system provides.
#[derive(Clone, Copy, PartialEq, Eq, Structural)]
pub enum MenuEntry {
    Own(Item),
    Separator,
    About,
    Services,
    Hide,
    Undo,
    Redo,
    Cut,
    Copy,
    Paste,
    SelectAll,
}

/// A menu of the menu bar.
pub struct Submenu {
    pub title: String,
    pub entries: Vec<MenuEntry>,
}

/// What to do for the user.
pub enum MenuAction {
    ShowWindow,
    HideWindow,
    OpenUrl { url: String },
    PickWorkspace,
    RestartEngine,
    StopEngine,
    RevealData,
    Exit,
    Nothing,
}

/// What to do for the user, with strings as sequences of characters.
pub enum ActionState {
    ShowWindow,
    HideWindow,
    OpenUrl { url: Seq<char> },
    PickWorkspace,
    RestartEngine,
    StopEngine,
    RevealData,
    Exit,
    Nothing,
}

impl View for MenuAction {
    type V = ActionState;

    open spec fn view(&self) -> ActionState {
        match self {
            MenuAction::ShowWindow => ActionState::ShowWindow,
            MenuAction::HideWindow => ActionState::HideWindow,
            MenuAction::OpenUrl { url } => ActionState::OpenUrl { url: url@ },
            MenuAction::PickWorkspace => ActionState::PickWorkspace,
            MenuAction::RestartEngine => ActionState::RestartEngine,
            MenuAction::StopEngine => ActionState::StopEngine,
            MenuAction::RevealData => ActionState::RevealData,
            MenuAction::Exit => ActionState::Exit,
            MenuAction::Nothing => ActionState::Nothing,
        }
    }
}

impl Item {
    /// The identifier of the item.
    pub open spec fn id_text(self) -> Seq<char> {
        match self {
            Item::Show => "show"@,
            Item::Hide => "hide"@,
            Item::OpenBrowser => "open-browser"@,
            Item::SetWorkspace => "set-workspace"@,
            Item::Restart => "restart"@,
            Item::Stop => "stop"@,
            Item::RevealData => "open-appdata"@,
            Item::Quit => "quit"@,
        }
    }

    /// What the item is called.
    pub open spec fn label_text(self) -> Seq<char> {
        match self {
            Item::Show => "Show DSH Desktop"@,
            Item::Hide => "Hide DSH Desktop"@,
            Item::OpenBrowser => "Open in Browser…"@,
            Item::SetWorkspace => "Set Workspace Folder…"@,
            Item::Restart => "Restart Engine"@,
            Item::Stop => "Stop Engine"@,
            Item::RevealData => "Reveal Data Folder (~/.dsh)"@,
            Item::Quit => "Quit DSH Desktop"@,
        }
    }

    /// What choosing the item does, while the engine has `port`. There is nothing to open in a
    /// browser while it has none; the window is shown instead.
    pub open spec fn action(self, port: Option<u16>) -> ActionState {
        match self {
            Item::Show => ActionState::ShowWindow,
            Item::Hide => ActionState::HideWindow,
            Item::OpenBrowser => match port {
                Some(port) => ActionState::OpenUrl { url: engine_url_text(port) },
                None => ActionState::ShowWindow,
            },
            Item::SetWorkspace => ActionState::PickWorkspace,
            Item::Restart => ActionState::RestartEngine,
            Item::Stop => ActionState::StopEngine,
            Item::RevealData => ActionState::RevealData,
            Item::Quit => ActionState::Exit,
        }
    }

    /// The identifier of the item.
    pub fn id(self) -> (s: String)
        ensures
            s@ == self.id_text(),
    {
        match self {
            Item::Show => "show".to_string(),
            Item::Hide => "hide".to_string(),
            Item::OpenBrowser => "open-browser".to_string(),
            Item::SetWorkspace => "set-workspace".to_string(),
            Item::Restart => "restart".to_string(),
            Item::Stop => "stop".to_string(),
            Item::RevealData => "open-appdata".to_string(),
            Item::Quit => "quit".to_string(),
        }
    }

    /// What the item is called.
    pub fn label(self) -> (s: String)
        ensures
            s@ == self.label_text(),
    {
        match self {
            Item::Show => "Show DSH Desktop".to_string(),
            Item::Hide => "Hide DSH Desktop".to_string(),
            Item::OpenBrowser => "Open in Browser…".to_string(),
            Item::SetWorkspace => "Set Workspace Folder…".to_string(),
            Item::Restart => "Restart Engine".to_string(),
            Item::Stop => "Stop Engine".to_string(),
            Item::RevealData => "Reveal Data Folder (~/.dsh)".to_string(),
            Item::Quit => "Quit DSH Desktop".to_string(),
        }
    }
}

/// What choosing the item with the identifier `id` does, while the engine has `port`. An
/// identifier that is none of the app's own does nothing.
pub open spec fn action_of(id: Seq<char>, port: Option<u16>) -> ActionState {
    if exists|item: Item| #[trigger] item.id_text() == id {
        (choose|item: Item| #[trigger] item.id_text() == id).action(port)
    } else {
        ActionState::Nothing
    }
}

/// The entries of the tray menu.
pub open spec fn tray_entries() -> Seq<MenuEntry> {
    seq![
        MenuEntry::Own(Item::Show),
        MenuEntry::Own(Item::Hide),
        MenuEntry::Separator,
        MenuEntry::Own(Item::OpenBrowser),
        MenuEntry::Own(Item::SetWorkspace),
        MenuEntry::Separator,
        MenuEntry::Own(Item::Restart),
        MenuEntry::Own(Item::Stop),
        MenuEntry::Own(Item::RevealData),
        MenuEntry::Separator,
        MenuEntry::Own(Item::Quit),
    ]
}

/// The entries of the menu with the app's name.
pub open spec fn app_entries() -> Seq<MenuEntry> {
    seq![MenuEntry::About, MenuEntry::Services, MenuEntry::Hide, MenuEntry::Own(Item::Quit)]
}

/// The entries of the menu for editing. The page's text fields take the usual shortcuts only
/// where these are there.
pub open spec fn edit_entries() -> Seq<MenuEntry> {
    seq![
        MenuEntry::Undo,
        MenuEntry::Redo,
        MenuEntry::Separator,
        MenuEntry::Cut,
        MenuEntry::Copy,
        MenuEntry::Paste,
        MenuEntry::SelectAll,
    ]
}

/// The entries of the menu for the engine.
pub open spec fn engine_entries() -> Seq<MenuEntry> {
    seq![
        MenuEntry::Own(Item::Show),
        MenuEntry::Own(Item::OpenBrowser),
        MenuEntry::Own(Item::SetWorkspace),
        MenuEntry::Own(Item::Restart),
        MenuEntry::Own(Item::Stop),
        MenuEntry::Own(Item::RevealData),
    ]
}

/// The menus of the menu bar: the title and the entries of each.
pub open spec fn menu_bar() -> Seq<(Seq<char>, Seq<MenuEntry>)> {
    seq![
        ("DSH Desktop"@, app_entries()),
        ("Edit"@, edit_entries()),
        ("Engine"@, engine_entries()),
    ]
}

proof fn lemma_ids_differ(a: Item, b: Item)
    requires
        a.id_text() == b.id_text(),
    ensures
        a == b,
{
    reveal_strlit("show");
    reveal_strlit("hide");
    reveal_strlit("open-browser");
    reveal_strlit("set-workspace");
    reveal_strlit("restart");
    reveal_strlit("stop");
    reveal_strlit("open-appdata");
    reveal_strlit("quit");
    let s = a.id_text();
    let t = b.id_text();
    assert(s.len() == t.len() && s[0] == t[0] && s[3] == t[3] && s[5] == t[5]);
}

/// Choosing an item does what the item is for: no two items share an identifier.
pub proof fn law_items_do_what_they_are_for(item: Item, port: Option<u16>)
    ensures
        action_of(item.id_text(), port) == item.action(port),
        !(item.action(port) is Nothing),
{
    let other = choose|other: Item| #[trigger] other.id_text() == item.id_text();
    assert(item.id_text() == item.id_text());
    lemma_ids_differ(other, item);
}

/// Whether a menu offers what `item` is for: by the item itself or, for hiding, by the entry that
/// the system provides.
pub open spec fn offers(entries: Seq<MenuEntry>, item: Item) -> bool {
    ||| entries.contains(MenuEntry::Own(item))
    ||| item == Item::Hide && entries.contains(MenuEntry::Hide)
}

/// The tray has every item of the app's own, and the menu bar offers the same.
pub proof fn law_tray_and_menu_bar_offer_the_same(item: Item)
    ensures
        tray_entries().contains(MenuEntry::Own(item)),
        offers(app_entries(), item) || offers(engine_entries(), item),
{
    let t = tray_entries();
    let e = engine_entries();
    let a = app_entries();
    match item {
        Item::Show => {
            assert(t[0] == MenuEntry::Own(item) && e[0] == MenuEntry::Own(item));
        },
        Item::Hide => {
            assert(t[1] == MenuEntry::Own(item) && a[2] == MenuEntry::Hide);
        },
        Item::OpenBrowser => {
            assert(t[3] == MenuEntry::Own(item) && e[1] == MenuEntry::Own(item));
        },
        Item::SetWorkspace => {
            assert(t[4] == MenuEntry::Own(item) && e[2] == MenuEntry::Own(item));
        },
        Item::Restart => {
            assert(t[6] == MenuEntry::Own(item) && e[3] == MenuEntry::Own(item));
        },
        Item::Stop => {
            assert(t[7] == MenuEntry::Own(item) && e[4] == MenuEntry::Own(item));
        },
        Item::RevealData => {
            assert(t[8] == MenuEntry::Own(item) && e[5] == MenuEntry::Own(item));
        },
        Item::Quit => {
            assert(t[10] == MenuEntry::Own(item) && a[3] == MenuEntry::Own(item));
        },
    }
}

/// The entries of the tray menu.
pub fn build_tray() -> (entries: Vec<MenuEntry>)
    ensures
        entries@ == tray_entries(),
{
    let mut v: Vec<MenuEntry> = Vec::new();
    v.push(MenuEntry::Own(Item::Show));
    v.push(MenuEntry::Own(Item::Hide));
    v.push(MenuEntry::Separator);
    v.push(MenuEntry::Own(Item::OpenBrowser));
    v.push(MenuEntry::Own(Item::SetWorkspace));
    v.push(MenuEntry::Separator);
    v.push(MenuEntry::Own(Item::Restart));
    v.push(MenuEntry::Own(Item::Stop));
    v.push(MenuEntry::Own(Item::RevealData));
    v.push(MenuEntry::Separator);
    v.push(MenuEntry::Own(Item::Quit));
    assert(v@ =~= tray_entries());
    v
}

/// The menus of the menu bar, in their order.
pub fn build_app_menu() -> (menus: Vec<Submenu>)
    ensures
        menus@.len() == 3,
        menus@[0].title@ == "DSH Desktop"@ && menus@[0].entries@ == app_entries(),
        menus@[1].title@ == "Edit"@ && menus@[1].entries@ == edit_entries(),
        menus@[2].title@ == "Engine"@ && menus@[2].entries@ == engine_entries(),
        menus@.map_values(|m: Submenu| (m.title@, m.entries@)) == menu_bar(),
{
    let mut app: Vec<MenuEntry> = Vec::new();
    app.push(MenuEntry::About);
    app.push(MenuEntry::Services);
    app.push(MenuEntry::Hide);
    app.push(MenuEntry::Own(Item::Quit));
    assert(app@ =~= app_entries());
    let mut edit: Vec<MenuEntry> = Vec::new();
    edit.push(MenuEntry::Undo);
    edit.push(MenuEntry::Redo);
    edit.push(MenuEntry::Separator);
    edit.push(MenuEntry::Cut);
    edit.push(MenuEntry::Copy);
    edit.push(MenuEntry::Paste);
    edit.push(MenuEntry::SelectAll);
    assert(edit@ =~= edit_entries());
    let mut engine: Vec<MenuEntry> = Vec::new();
    engine.push(MenuEntry::Own(Item::Show));
    engine.push(MenuEntry::Own(Item::OpenBrowser));
    engine.push(MenuEntry::Own(Item::SetWorkspace));
    engine.push(MenuEntry::Own(Item::Restart));
    engine.push(MenuEntry::Own(Item::Stop));
    engine.push(MenuEntry::Own(Item::RevealData));
    assert(engine@ =~= engine_entries());
    let mut menus: Vec<Submenu> = Vec::new();
    menus.push(Submenu { title: "DSH Desktop".to_string(), entries: app });
    menus.push(Submenu { title: "Edit".to_string(), entries: edit });
    menus.push(Submenu { title: "Engine".to_string(), entries: engine });
    assert(menus@.map_values(|m: Submenu| (m.title@, m.entries@)) =~= menu_bar());
    menus
}

/// The item with the identifier `id`.
fn item_with_id(id: &str) -> (r: Option<Item>)
    ensures
        match r {
            Some(item) => item.id_text() == id@,
            None => forall|item: Item| #[trigger] item.id_text() != id@,
        },
{
    if same_text(id, "show") {
        Some(Item::Show)
    } else if same_text(id, "hide") {
        Some(Item::Hide)
    } else if same_text(id, "open-browser") {
        Some(Item::OpenBrowser)
    } else if same_text(id, "set-workspace") {
        Some(Item::SetWorkspace)
    } else if same_text(id, "restart") {
        Some(Item::Restart)
    } else if same_text(id, "stop") {
        Some(Item::Stop)
    } else if same_text(id, "open-appdata") {
        Some(Item::RevealData)
    } else if same_text(id, "quit") {
        Some(Item::Quit)
    } else {
        None
    }
}

/// What choosing the item with the identifier `id` does, while the engine has `port`.
pub fn handle_menu_action(id: &str, port: Option<u16>) -> (action: MenuAction)
    ensures
        action@ == action_of(id@, port),
{
    match item_with_id(id) {
        Some(item) => {
            proof {
                law_items_do_what_they_are_for(item, port);
            }
            match item {
                Item::Show => MenuAction::ShowWindow,
                Item::Hide => MenuAction::HideWindow,
                Item::OpenBrowser => match port {
                    Some(port) => MenuAction::OpenUrl { url: engine_url(port) },
                    None => MenuAction::ShowWindow,
                },
                Item::SetWorkspace => MenuAction::PickWorkspace,
                Item::Restart => MenuAction::RestartEngine,
                Item::Stop => MenuAction::StopEngine,
                Item::RevealData => MenuAction::RevealData,
                Item::Quit => MenuAction::Exit,
            }
        },
        None => MenuAction::Nothing,
    }
}

/// What each identifier does, while the engine has `port`. Every other identifier does nothing.
pub proof fn law_identifiers_do_what_they_say(id: Seq<char>, port: Option<u16>)
    ensures
        action_of("show"@, port) is ShowWindow,
        action_of("hide"@, port) is HideWindow,
        port matches Some(p) ==> action_of("open-browser"@, port) == (ActionState::OpenUrl {
            url: "http://127.0.0.1:"@ + crate::text::decimal(p as nat),
        }),
        port is None ==> action_of("open-browser"@, port) is ShowWindow,
        action_of("set-workspace"@, port) is PickWorkspace,
        action_of("restart"@, port) is RestartEngine,
        action_of("stop"@, port) is StopEngine,
        action_of("open-appdata"@, port) is RevealData,
        action_of("quit"@, port) is Exit,
        id != "show"@ && id != "hide"@ && id != "open-browser"@ && id != "set-workspace"@ && id
            != "restart"@ && id != "stop"@ && id != "open-appdata"@ && id != "quit"@
            ==> action_of(id, port) is Nothing,
{
    law_items_do_what_they_are_for(Item::Show, port);
    law_items_do_what_they_are_for(Item::Hide, port);
    law_items_do_what_they_are_for(Item::OpenBrowser, port);
    law_items_do_what_they_are_for(Item::SetWorkspace, port);
    law_items_do_what_they_are_for(Item::Restart, port);
    law_items_do_what_they_are_for(Item::Stop, port);
    law_items_do_what_they_are_for(Item::RevealData, port);
    law_items_do_what_they_are_for(Item::Quit, port);
}

/// An item is called by what choosing it does, and no two items are called the same.
pub proof fn law_items_are_called_by_what_they_do(a: Item, b: Item, port: Option<u16>)
    ensures
        a.action(port) is HideWindow ==> a.label_text() == "Hide DSH Desktop"@,
        a.action(port) is OpenUrl ==> a.label_text() == "Open in Browser…"@,
        a.action(port) is PickWorkspace ==> a.label_text() == "Set Workspace Folder…"@,
        a.action(port) is RestartEngine ==> a.label_text() == "Restart Engine"@,
        a.action(port) is StopEngine ==> a.label_text() == "Stop Engine"@,
        a.action(port) is RevealData ==> a.label_text() == "Reveal Data Folder (~/.dsh)"@,
        a.action(port) is Exit ==> a.label_text() == "Quit DSH Desktop"@,
        a.action(port) is ShowWindow && port is Some ==> a.label_text() == "Show DSH Desktop"@,
        a.label_text() == b.label_text() ==> a == b,
{
    reveal_strlit("Show DSH Desktop");
    reveal_strlit("Hide DSH Desktop");
    reveal_strlit("Open in Browser…");
    reveal_strlit("Set Workspace Folder…");
    reveal_strlit("Restart Engine");
    reveal_strlit("Stop Engine");
    reveal_strlit("Reveal Data Folder (~/.dsh)");
    reveal_strlit("Quit DSH Desktop");
    let s = a.label_text();
    let t = b.label_text();
    if s == t {
        assert(s.len() == t.len() && s[0] == t[0] && s[2] == t[2]);
    }
}

/// The tray is made of the app's own items and separators. It has each item once, showing the
/// window first and quitting last, and separators stand between items only.
pub proof fn law_tray_has_each_item_once(i: int, j: int)
    requires
        0 <= i < j < tray_entries().len(),
    ensures
        tray_entries()[i] is Own || tray_entries()[i] == MenuEntry::Separator,
        tray_entries()[j] is Own || tray_entries()[j] == MenuEntry::Separator,
        tray_entries()[i] is Own ==> tray_entries()[i] != tray_entries()[j],
        j == i + 1 ==> tray_entries()[i] is Own || tray_entries()[j] is Own,
        tray_entries()[0] == MenuEntry::Own(Item::Show),
        tray_entries().last() == MenuEntry::Own(Item::Quit),
{
}

/// The menu bar has each of its entries once: no entry but a separator stands twice in one menu
/// or in two. The menu for editing has the six usual commands, and the one for the engine holds
/// items of the app's own alone.
pub proof fn law_menu_bar_has_each_entry_once(entry: MenuEntry, i: int, j: int)
    requires
        entry != MenuEntry::Separator,
    ensures
        0 <= i < j < app_entries().len() ==> app_entries()[i] != app_entries()[j],
        0 <= i < j < engine_entries().len() ==> engine_entries()[i] != engine_entries()[j],
        0 <= i < j < edit_entries().len() && edit_entries()[i] == entry ==> edit_entries()[j]
            != entry,
        !(app_entries().contains(entry) && engine_entries().contains(entry)),
        edit_entries().contains(entry) <==> {
            ||| entry == MenuEntry::Undo
            ||| entry == MenuEntry::Redo
            ||| entry == MenuEntry::Cut
            ||| entry == MenuEntry::Copy
            ||| entry == MenuEntry::Paste
            ||| entry == MenuEntry::SelectAll
        },
        engine_entries().contains(entry) ==> entry is Own,
        app_entries().contains(entry) <==> {
            ||| entry == MenuEntry::About
            ||| entry == MenuEntry::Services
            ||| entry == MenuEntry::Hide
            ||| entry == MenuEntry::Own(Item::Quit)
        },
{
    let e = edit_entries();
    let a = app_entries();
    assert(e[0] == MenuEntry::Undo && e[1] == MenuEntry::Redo && e[3] == MenuEntry::Cut && e[4]
        == MenuEntry::Copy && e[5] == MenuEntry::Paste && e[6] == MenuEntry::SelectAll);
    assert(a[0] == MenuEntry::About && a[1] == MenuEntry::Services && a[2] == MenuEntry::Hide
        && a[3] == MenuEntry::Own(Item::Quit));
}

/// A menu of the menu bar is called by what it holds: the one that quits has the app's name, the
/// one that pastes is for editing, and the one that restarts is the engine's. There is no other.
pub proof fn law_menus_are_called_by_what_they_hold(k: int)
    requires
        0 <= k < menu_bar().len(),
    ensures
        menu_bar().len() == 3,
        menu_bar()[k].1.contains(MenuEntry::Own(Item::Quit)) <==> menu_bar()[k].0
            == "DSH Desktop"@,
        menu_bar()[k].1.contains(MenuEntry::Paste) <==> menu_bar()[k].0 == "Edit"@,
        menu_bar()[k].1.contains(MenuEntry::Own(Item::Restart)) <==> menu_bar()[k].0 == "Engine"@,
{
    reveal_strlit("DSH Desktop");
    reveal_strlit("Edit");
    reveal_strlit("Engine");
    assert("DSH Desktop"@.len() == 11 && "Edit"@.len() == 4 && "Engine"@.len() == 6);
    assert(app_entries()[3] == MenuEntry::Own(Item::Quit));
    assert(edit_entries()[5] == MenuEntry::Paste);
    assert(engine_entries()[3] == MenuEntry::Own(Item::Restart));
}

/// What is seen of an action is what it does.
pub proof fn law_actions_are_seen_as_they_are(action: MenuAction)
    ensures
        action is ShowWindow <==> action@ is ShowWindow,
        action is HideWindow <==> action@ is HideWindow,
        action matches MenuAction::OpenUrl { url } ==> action@ == (ActionState::OpenUrl {
            url: url@,
        }),
        action is PickWorkspace <==> action@ is PickWorkspace,
        action is RestartEngine <==> action@ is RestartEngine,
        action is StopEngine <==> action@ is StopEngine,
        action is RevealData <==> action@ is RevealData,
        action is Exit <==> action@ is Exit,
        action is Nothing <==> action@ is Nothing,
{
}

} // verus!
