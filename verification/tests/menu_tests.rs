use lotion_rs::menu::{
    language_menu_items, menu_action, theme_menu_items, view_menu, MenuAction, ViewMenuEntry,
};

#[test]
fn fixed_commands_are_recognised() {
    assert!(matches!(menu_action("reload"), MenuAction::Reload));
    assert!(matches!(menu_action("toggle_fullscreen"), MenuAction::ToggleFullscreen));
    assert!(matches!(menu_action("toggle_dev_tools"), MenuAction::ToggleDevTools));
    assert!(matches!(menu_action("quit"), MenuAction::Ignore));
    assert!(matches!(menu_action(""), MenuAction::Ignore));
}

#[test]
fn theme_and_language_ids_carry_their_name() {
    match menu_action("theme_nord") {
        MenuAction::SetTheme(t) => assert_eq!(t, "nord"),
        _ => panic!(),
    }
    match menu_action("lang_fr_FR") {
        MenuAction::SwitchLanguage(l) => assert_eq!(l, "fr_FR"),
        _ => panic!(),
    }
    match menu_action("theme_theme_x") {
        MenuAction::SetTheme(t) => assert_eq!(t, "x"),
        _ => panic!(),
    }
    match menu_action("lang_a_lang_b") {
        MenuAction::SwitchLanguage(l) => assert_eq!(l, "a_b"),
        _ => panic!(),
    }
}

#[test]
fn every_layout_item_has_an_action() {
    for item in theme_menu_items() {
        assert!(matches!(menu_action(&item.id), MenuAction::SetTheme(_)));
    }
    for item in language_menu_items() {
        assert!(matches!(menu_action(&item.id), MenuAction::SwitchLanguage(_)));
    }
    for entry in view_menu() {
        if let ViewMenuEntry::Item(item) = entry {
            assert!(!matches!(menu_action(&item.id), MenuAction::Ignore));
        }
    }
}

#[test]
fn layout_matches_the_menu() {
    let themes: Vec<(String, String)> =
        theme_menu_items().into_iter().map(|i| (i.id, i.label)).collect();
    assert_eq!(
        themes,
        vec![
            ("theme_light".to_string(), "Light".to_string()),
            ("theme_dracula".to_string(), "Dracula (Default)".to_string()),
            ("theme_nord".to_string(), "Nord".to_string()),
        ]
    );
    let langs: Vec<String> = language_menu_items().into_iter().map(|i| i.label).collect();
    assert_eq!(langs, vec!["English", "Français", "Español", "Deutsch", "日本語", "中文"]);
    let view = view_menu();
    assert_eq!(view.len(), 7);
    match &view[0] {
        ViewMenuEntry::Item(i) => {
            assert_eq!(i.id, "reload");
            assert_eq!(i.accelerator.as_deref(), Some("CmdOrCtrl+R"));
        }
        _ => panic!(),
    }
    assert!(matches!(view[2], ViewMenuEntry::Separator));
    match &view[3] {
        ViewMenuEntry::Submenu(title, items) => {
            assert_eq!(title, "Theme");
            assert_eq!(items.len(), 3);
        }
        _ => panic!(),
    }
    match &view[6] {
        ViewMenuEntry::Item(i) => assert_eq!(i.accelerator.as_deref(), Some("F12")),
        _ => panic!(),
    }
}
