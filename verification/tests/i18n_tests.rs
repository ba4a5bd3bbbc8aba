use lotion_rs::i18n::{validate_locale, I18nManager};

#[test]
fn test_validate_locale() {
    assert!(validate_locale("en-US"));
    assert!(validate_locale("pt_BR"));
    assert!(validate_locale("fr"));

    assert!(!validate_locale(""));
    assert!(!validate_locale("this-locale-is-too-long-for-sanitization"));
    assert!(!validate_locale("../../../tmp"));
    assert!(!validate_locale("en/US"));
    assert!(!validate_locale("en\\US"));
    assert!(!validate_locale("en;rm -rf /"));
}

#[test]
fn locale_length_limit_is_sixteen_bytes() {
    assert!(validate_locale("abcdefghijklmnop"));
    assert!(!validate_locale("abcdefghijklmnopq"));
    assert!(!validate_locale("fr\u{e9}"));
}

#[test]
fn new_manager_has_english_locale_and_no_translations() {
    let m = I18nManager::new();
    assert_eq!(m.locale(), "en_US");
    assert_eq!(m.get("menu.reload"), "menu.reload");
    let d = I18nManager::default();
    assert_eq!(d.locale(), "en_US");
}

#[test]
fn invalid_locale_is_refused_and_changes_nothing() {
    let mut m = I18nManager::new();
    assert!(!m.load_locale("../etc"));
    assert_eq!(m.locale(), "en_US");
    assert!(m.load_locale("fr_FR"));
    assert_eq!(m.locale(), "fr_FR");
}

#[test]
fn catalog_string_entries_become_translations() {
    let mut m = I18nManager::new();
    assert!(m.apply_catalog(r#"{"hello": "Bonjour", "count": 3, "bye": "Au revoir"}"#));
    assert_eq!(m.get("hello"), "Bonjour");
    assert_eq!(m.get("bye"), "Au revoir");
    assert_eq!(m.get("count"), "count");
    assert_eq!(m.get("missing"), "missing");
}

#[test]
fn catalog_replaces_previous_translations() {
    let mut m = I18nManager::new();
    assert!(m.apply_catalog(r#"{"a": "1", "b": "2"}"#));
    assert!(m.apply_catalog(r#"{"b": "3"}"#));
    assert_eq!(m.get("a"), "a");
    assert_eq!(m.get("b"), "3");
}

#[test]
fn non_object_catalog_changes_nothing() {
    let mut m = I18nManager::new();
    assert!(m.apply_catalog(r#"{"a": "1"}"#));
    assert!(!m.apply_catalog("[1, 2]"));
    assert!(!m.apply_catalog("not json"));
    assert_eq!(m.get("a"), "1");
}

#[test]
fn repeated_catalog_key_keeps_last_value() {
    let mut m = I18nManager::new();
    assert!(m.apply_catalog(r#"{"a": "first", "a": "second"}"#));
    assert_eq!(m.get("a"), "second");
}

#[test]
fn replacing_translations_keeps_string_entries_in_order() {
    let mut m = I18nManager::new();
    m.apply_catalog(r#"{"old": "x"}"#);
    let entries = vec![
        ("a".to_string(), Some("1".to_string())),
        ("b".to_string(), None),
        ("a".to_string(), Some("2".to_string())),
    ];
    m.replace_translations(&entries);
    assert_eq!(m.get("a"), "2");
    assert_eq!(m.get("b"), "b");
    assert_eq!(m.get("old"), "old");
    assert_eq!(m.locale(), "en_US");
}
