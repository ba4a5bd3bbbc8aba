//! The native menu: its layout, and what each of its items does.

use vstd::prelude::*;

use crate::text::{has_prefix, remove_all, remove_all_exec, starts_with, str_eq};

verus! {

/// One clickable menu item.
#[derive(Debug)]
pub struct MenuItem {
    pub id: String,
    pub label: String,
    pub accelerator: Option<String>,
}

/// The mathematical value of a menu item: id, label and accelerator.
pub struct MenuItemView {
    pub id: Seq<char>,
    pub label: Seq<char>,
    pub accelerator: Option<Seq<char>>,
}

impl View for MenuItem {
    type V = MenuItemView;

    open spec fn view(&self) -> MenuItemView {
        MenuItemView {
            id: self.id@,
            label: self.label@,
            accelerator: crate::state::opt_view(self.accelerator),
        }
    }
}

/// The views of a list of menu items.
pub open spec fn item_views(items: Seq<MenuItem>) -> Seq<MenuItemView> {
    items.map_values(|i: MenuItem| i@)
}

/// A menu item with no accelerator.
pub open spec fn plain_item(id: Seq<char>, label: Seq<char>) -> MenuItemView {
    MenuItemView { id, label, accelerator: None }
}

/// The items of the Theme submenu.
pub open spec fn theme_items() -> Seq<MenuItemView> {
    seq![
        plain_item("theme_light"@, "Light"@),
        plain_item("theme_dracula"@, "Dracula (Default)"@),
        plain_item("theme_nord"@, "Nord"@),
    ]
}

/// The items of the Language submenu.
pub open spec fn language_items() -> Seq<MenuItemView> {
    seq![
        plain_item("lang_en_US"@, "English"@),
        plain_item("lang_fr_FR"@, "Fran\u{e7}ais"@),
        plain_item("lang_es_ES"@, "Espa\u{f1}ol"@),
        plain_item("lang_de_DE"@, "Deutsch"@),
        plain_item("lang_ja_JP"@, "\u{65e5}\u{672c}\u{8a9e}"@),
        plain_item("lang_zh_CN"@, "\u{4e2d}\u{6587}"@),
    ]
}

/// An entry of the View menu.
#[derive(Debug)]
pub enum ViewMenuEntry {
    Item(MenuItem),
    Separator,
    Submenu(String, Vec<MenuItem>),
}

/// The mathematical value of a View menu entry.
pub enum ViewMenuEntryView {
    Item(MenuItemView),
    Separator,
    Submenu(Seq<char>, Seq<MenuItemView>),
}

impl View for ViewMenuEntry {
    type V = ViewMenuEntryView;

    open spec fn view(&self) -> ViewMenuEntryView {
        match self {
            ViewMenuEntry::Item(i) => ViewMenuEntryView::Item(i@),
            ViewMenuEntry::Separator => ViewMenuEntryView::Separator,
            ViewMenuEntry::Submenu(t, items) => ViewMenuEntryView::Submenu(t@, item_views(items@)),
        }
    }
}

/// The View menu: reload and full screen, the Theme and Language submenus, and
/// the developer tools.
pub open spec fn view_menu_entries() -> Seq<ViewMenuEntryView> {
    seq![
        ViewMenuEntryView::Item(MenuItemView { id: "reload"@, label: "Reload"@, accelerator: Some("CmdOrCtrl+R"@) }),
        ViewMenuEntryView::Item(MenuItemView { id: "toggle_fullscreen"@, label: "Toggle Fullscreen"@, accelerator: Some("F11"@) }),
        ViewMenuEntryView::Separator,
        ViewMenuEntryView::Submenu("Theme"@, theme_items()),
        ViewMenuEntryView::Submenu("Language"@, language_items()),
        ViewMenuEntryView::Separator,
        ViewMenuEntryView::Item(MenuItemView { id: "toggle_dev_tools"@, label: "Developer Tools"@, accelerator: Some("F12"@) }),
    ]
}

fn item(id: &str, label: &str, accelerator: Option<&str>) -> (m: MenuItem)
    ensures
        m@ == (MenuItemView {
            id: id@,
            label: label@,
            accelerator: match accelerator {
                Some(a) => Some(a@),
                None => None,
            },
        }),
{
    MenuItem {
        id: id.to_owned(),
        label: label.to_owned(),
        accelerator: match accelerator {
            Some(a) => Some(a.to_owned()),
            None => None,
        },
    }
}

/// The items of the Theme submenu.
pub fn theme_menu_items() -> (items: Vec<MenuItem>)
    ensures
        item_views(items@) == theme_items(),
{
    let mut v: Vec<MenuItem> = Vec::new();
    v.push(item("theme_light", "Light", None));
    v.push(item("theme_dracula", "Dracula (Default)", None));
    v.push(item("theme_nord", "Nord", None));
    assert(item_views(v@) =~= theme_items());
    v
}

/// The items of the Language submenu.
pub fn language_menu_items() -> (items: Vec<MenuItem>)
    ensures
        item_views(items@) == language_items(),
{
    let mut v: Vec<MenuItem> = Vec::new();
    v.push(item("lang_en_US", "English", None));
    v.push(item("lang_fr_FR", "Fran\u{e7}ais", None));
    v.push(item("lang_es_ES", "Espa\u{f1}ol", None));
    v.push(item("lang_de_DE", "Deutsch", None));
    v.push(item("lang_ja_JP", "\u{65e5}\u{672c}\u{8a9e}", None));
    v.push(item("lang_zh_CN", "\u{4e2d}\u{6587}", None));
    assert(item_views(v@) =~= language_items());
    v
}

/// The View menu (see `view_menu_entries`).
pub fn view_menu() -> (entries: Vec<ViewMenuEntry>)
    ensures
        entries@.map_values(|e: ViewMenuEntry| e@) == view_menu_entries(),
{
    let mut v: Vec<ViewMenuEntry> = Vec::new();
    v.push(ViewMenuEntry::Item(item("reload", "Reload", Some("CmdOrCtrl+R"))));
    v.push(ViewMenuEntry::Item(item("toggle_fullscreen", "Toggle Fullscreen", Some("F11"))));
    v.push(ViewMenuEntry::Separator);
    v.push(ViewMenuEntry::Submenu("Theme".to_owned(), theme_menu_items()));
    v.push(ViewMenuEntry::Submenu("Language".to_owned(), language_menu_items()));
    v.push(ViewMenuEntry::Separator);
    v.push(ViewMenuEntry::Item(item("toggle_dev_tools", "Developer Tools", Some("F12"))));
    assert(v@.map_values(|e: ViewMenuEntry| e@) =~= view_menu_entries());
    v
}

/// What a click on a menu item does.
#[derive(Debug)]
pub enum MenuAction {
    /// Reload the main window's page.
    Reload,
    /// Toggle full screen on the main window.
    ToggleFullscreen,
    /// Open or close the developer tools of the main window.
    ToggleDevTools,
    /// Switch to the named theme.
    SetTheme(String),
    /// Switch to the named language.
    SwitchLanguage(String),
    /// Nothing.
    Ignore,
}

/// The mathematical value of a menu action.
pub enum MenuActionView {
    Reload,
    ToggleFullscreen,
    ToggleDevTools,
    SetTheme(Seq<char>),
    SwitchLanguage(Seq<char>),
    Ignore,
}

impl View for MenuAction {
    type V = MenuActionView;

    open spec fn view(&self) -> MenuActionView {
        match self {
            MenuAction::Reload => MenuActionView::Reload,
            MenuAction::ToggleFullscreen => MenuActionView::ToggleFullscreen,
            MenuAction::ToggleDevTools => MenuActionView::ToggleDevTools,
            MenuAction::SetTheme(t) => MenuActionView::SetTheme(t@),
            MenuAction::SwitchLanguage(l) => MenuActionView::SwitchLanguage(l@),
            MenuAction::Ignore => MenuActionView::Ignore,
        }
    }
}

/// The action of the menu item `id`: the three fixed commands by their ids; an id
/// starting with `theme_` names a theme and one starting with `lang_` a language
/// (the name being the id with every `theme_`, resp. `lang_`, removed); any other
/// id does nothing.
pub open spec fn action_of(id: Seq<char>) -> MenuActionView {
    if id == "reload"@ {
        MenuActionView::Reload
    } else if id == "toggle_fullscreen"@ {
        MenuActionView::ToggleFullscreen
    } else if id == "toggle_dev_tools"@ {
        MenuActionView::ToggleDevTools
    } else if has_prefix(id, "theme_"@) {
        MenuActionView::SetTheme(remove_all(id, "theme_"@))
    } else if has_prefix(id, "lang_"@) {
        MenuActionView::SwitchLanguage(remove_all(id, "lang_"@))
    } else {
        MenuActionView::Ignore
    }
}

/// The action of the menu item `id` (see `action_of`).
pub fn menu_action(id: &str) -> (a: MenuAction)
    ensures
        a@ == action_of(id@),
{
    if str_eq(id, "reload") {
        MenuAction::Reload
    } else if str_eq(id, "toggle_fullscreen") {
        MenuAction::ToggleFullscreen
    } else if str_eq(id, "toggle_dev_tools") {
        MenuAction::ToggleDevTools
    } else if starts_with(id, "theme_") {
        MenuAction::SetTheme(remove_all_exec(id, "theme_"))
    } else if starts_with(id, "lang_") {
        MenuAction::SwitchLanguage(remove_all_exec(id, "lang_"))
    } else {
        MenuAction::Ignore
    }
}

} // verus!

verus! {

/// Each Theme item switches to the theme it names.
pub proof fn law_theme_items_set_their_theme()
    ensures
        action_of(theme_items()[0].id) == MenuActionView::SetTheme("light"@),
        action_of(theme_items()[1].id) == MenuActionView::SetTheme("dracula"@),
        action_of(theme_items()[2].id) == MenuActionView::SetTheme("nord"@),
{
    reveal_strlit("theme_light");
    reveal_strlit("theme_dracula");
    reveal_strlit("theme_nord");
    reveal_strlit("theme_");
    reveal_strlit("light");
    reveal_strlit("dracula");
    reveal_strlit("nord");
    reveal_strlit("reload");
    reveal_strlit("toggle_fullscreen");
    reveal_strlit("toggle_dev_tools");
    let p = "theme_"@;
    assert("theme_light"@.take(6) =~= p);
    assert("theme_dracula"@.take(6) =~= p);
    assert("theme_nord"@.take(6) =~= p);
    assert("theme_light"@.skip(6) =~= "light"@);
    assert("theme_dracula"@.skip(6) =~= "dracula"@);
    assert("theme_nord"@.skip(6) =~= "nord"@);
    assert(remove_all("light"@, p) == "light"@);
    crate::text::lemma_remove_all_absent("dracula"@, p);
    crate::text::lemma_remove_all_absent("nord"@, p);
}

/// Each Language item switches to the language it names.
pub proof fn law_language_items_switch_their_language()
    ensures
        action_of(language_items()[0].id) == MenuActionView::SwitchLanguage("en_US"@),
        action_of(language_items()[1].id) == MenuActionView::SwitchLanguage("fr_FR"@),
        action_of(language_items()[2].id) == MenuActionView::SwitchLanguage("es_ES"@),
        action_of(language_items()[3].id) == MenuActionView::SwitchLanguage("de_DE"@),
        action_of(language_items()[4].id) == MenuActionView::SwitchLanguage("ja_JP"@),
        action_of(language_items()[5].id) == MenuActionView::SwitchLanguage("zh_CN"@),
{
    reveal_strlit("lang_en_US");
    reveal_strlit("lang_fr_FR");
    reveal_strlit("lang_es_ES");
    reveal_strlit("lang_de_DE");
    reveal_strlit("lang_ja_JP");
    reveal_strlit("lang_zh_CN");
    reveal_strlit("en_US");
    reveal_strlit("fr_FR");
    reveal_strlit("es_ES");
    reveal_strlit("de_DE");
    reveal_strlit("ja_JP");
    reveal_strlit("zh_CN");
    reveal_strlit("lang_");
    reveal_strlit("theme_");
    reveal_strlit("reload");
    reveal_strlit("toggle_fullscreen");
    reveal_strlit("toggle_dev_tools");
    let p = "lang_"@;
    assert("lang_en_US"@.take(5) =~= p);
    assert("lang_fr_FR"@.take(5) =~= p);
    assert("lang_es_ES"@.take(5) =~= p);
    assert("lang_de_DE"@.take(5) =~= p);
    assert("lang_ja_JP"@.take(5) =~= p);
    assert("lang_zh_CN"@.take(5) =~= p);
    assert("lang_en_US"@.skip(5) =~= "en_US"@);
    assert("lang_fr_FR"@.skip(5) =~= "fr_FR"@);
    assert("lang_es_ES"@.skip(5) =~= "es_ES"@);
    assert("lang_de_DE"@.skip(5) =~= "de_DE"@);
    assert("lang_ja_JP"@.skip(5) =~= "ja_JP"@);
    assert("lang_zh_CN"@.skip(5) =~= "zh_CN"@);
    assert("lang_en_US"@.take(6)[0] != "theme_"@[0]);
    assert("lang_fr_FR"@.take(6)[0] != "theme_"@[0]);
    assert("lang_es_ES"@.take(6)[0] != "theme_"@[0]);
    assert("lang_de_DE"@.take(6)[0] != "theme_"@[0]);
    assert("lang_ja_JP"@.take(6)[0] != "theme_"@[0]);
    assert("lang_zh_CN"@.take(6)[0] != "theme_"@[0]);
    crate::text::lemma_remove_all_absent("en_US"@, p);
    crate::text::lemma_remove_all_absent("fr_FR"@, p);
    crate::text::lemma_remove_all_absent("es_ES"@, p);
    crate::text::lemma_remove_all_absent("de_DE"@, p);
    crate::text::lemma_remove_all_absent("ja_JP"@, p);
    crate::text::lemma_remove_all_absent("zh_CN"@, p);
}

/// The command that a View menu item's label names.
pub open spec fn command_labelled(label: Seq<char>) -> MenuActionView {
    if label == "Reload"@ {
        MenuActionView::Reload
    } else if label == "Toggle Fullscreen"@ {
        MenuActionView::ToggleFullscreen
    } else if label == "Developer Tools"@ {
        MenuActionView::ToggleDevTools
    } else {
        MenuActionView::Ignore
    }
}

/// A click on each plain item of the View menu does what the item's label says:
/// Reload (Ctrl+R) reloads, Toggle Fullscreen (F11) toggles full screen, Developer
/// Tools (F12) toggles the developer tools.
pub proof fn law_view_items_do_what_their_labels_say()
    ensures
        forall|i: int|
            0 <= i < view_menu_entries().len() ==> (#[trigger] view_menu_entries()[i] matches ViewMenuEntryView::Item(m)
                ==> action_of(m.id) == command_labelled(m.label)),
        view_menu_entries()[0] matches ViewMenuEntryView::Item(m) && m.label == "Reload"@ && action_of(
            m.id,
        ) == MenuActionView::Reload,
        view_menu_entries()[1] matches ViewMenuEntryView::Item(m) && m.label == "Toggle Fullscreen"@
            && m.accelerator == Some("F11"@) && action_of(m.id) == MenuActionView::ToggleFullscreen,
        view_menu_entries()[6] matches ViewMenuEntryView::Item(m) && m.label == "Developer Tools"@
            && m.accelerator == Some("F12"@) && action_of(m.id) == MenuActionView::ToggleDevTools,
{
    reveal_strlit("reload");
    reveal_strlit("toggle_fullscreen");
    reveal_strlit("toggle_dev_tools");
    reveal_strlit("Reload");
    reveal_strlit("Toggle Fullscreen");
    reveal_strlit("Developer Tools");
    assert("toggle_fullscreen"@.len() != "reload"@.len());
    assert("toggle_dev_tools"@.len() != "reload"@.len());
    assert("toggle_dev_tools"@.len() != "toggle_fullscreen"@.len());
    assert("Toggle Fullscreen"@.len() != "Reload"@.len());
    assert("Developer Tools"@.len() != "Reload"@.len());
    assert("Developer Tools"@.len() != "Toggle Fullscreen"@.len());
    assert(action_of("toggle_fullscreen"@) == MenuActionView::ToggleFullscreen);
    assert(action_of("toggle_dev_tools"@) == MenuActionView::ToggleDevTools);
    let e = view_menu_entries();
    assert(e.len() == 7);
    assert forall|i: int|
        0 <= i < e.len() implies (#[trigger] e[i] matches ViewMenuEntryView::Item(m) ==> action_of(m.id)
            == command_labelled(m.label)) by {
        if i == 0 {
        } else if i == 1 {
        } else if i == 6 {
        } else {
            assert(!(e[i] is Item));
        }
    }
}

} // verus!
