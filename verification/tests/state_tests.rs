use lotion_rs::state::{AppState, Bounds, TabState, WindowState};

fn window(id: &str, tabs: &[&str], active: Option<&str>) -> WindowState {
    WindowState {
        id: id.to_string(),
        bounds: Bounds { x: None, y: None, width: 800f64.to_bits(), height: 600f64.to_bits() },
        is_focused: false,
        is_maximized: false,
        is_minimized: false,
        is_full_screen: false,
        tab_ids: tabs.iter().map(|s| s.to_string()).collect(),
        active_tab_id: active.map(|s| s.to_string()),
    }
}

fn tab(id: &str, title: &str, url: &str) -> TabState {
    TabState {
        id: id.to_string(),
        title: title.to_string(),
        url: url.to_string(),
        is_active: false,
        is_pinned: false,
    }
}

#[test]
fn new_state_is_empty() {
    let s = AppState::new();
    assert!(s.window_entries().is_empty());
    assert!(s.tab_entries().is_empty());
    assert_eq!(s.focused_window_id(), None);
    assert!(AppState::default().window_entries().is_empty());
}

#[test]
fn main_window_is_created_once() {
    let mut s = AppState::new();
    assert!(s.ensure_main_window());
    let w = s.window("main").unwrap();
    assert_eq!(w.id, "main");
    assert_eq!(f64::from_bits(w.bounds.width), 1200.0);
    assert_eq!(f64::from_bits(w.bounds.height), 768.0);
    assert_eq!((w.bounds.x, w.bounds.y), (None, None));
    assert!(w.is_focused);
    assert!(!w.is_maximized && !w.is_minimized && !w.is_full_screen);
    assert!(w.tab_ids.is_empty());
    assert_eq!(w.active_tab_id, None);
    assert!(!s.ensure_main_window());
    assert_eq!(s.window_entries().len(), 1);
}

#[test]
fn insert_replaces_records_by_key() {
    let mut s = AppState::new();
    s.insert_window("w".to_string(), window("w", &["a"], None));
    s.insert_window("w".to_string(), window("w", &["b"], None));
    assert_eq!(s.window_entries().len(), 1);
    assert_eq!(s.window("w").unwrap().tab_ids, vec!["b".to_string()]);
    s.insert_tab("a".to_string(), tab("a", "A", "https://a"));
    assert_eq!(s.tab("a").unwrap().title, "A");
    assert!(s.tab("b").is_none());
}

#[test]
fn window_tabs_lists_known_tabs_in_order() {
    let mut s = AppState::new();
    s.insert_window("w".to_string(), window("w", &["b", "x", "a"], None));
    s.insert_tab("a".to_string(), tab("a", "A", "https://a"));
    s.insert_tab("b".to_string(), tab("b", "B", "https://b"));
    let tabs = s.window_tabs("w");
    let ids: Vec<String> = tabs.iter().map(|t| t.id.clone()).collect();
    assert_eq!(ids, vec!["b".to_string(), "a".to_string()]);
    assert!(s.window_tabs("nope").is_empty());
}

#[test]
fn closing_the_active_tab_activates_the_last_remaining() {
    let mut s = AppState::new();
    s.insert_window("w1".to_string(), window("w1", &["a", "b", "c"], Some("b")));
    s.insert_window("w2".to_string(), window("w2", &["b"], Some("b")));
    s.insert_window("w3".to_string(), window("w3", &["d", "b"], Some("d")));
    s.insert_tab("b".to_string(), tab("b", "B", "https://b"));
    let mut shown = s.close_tab("b");
    shown.sort();
    assert_eq!(shown, vec!["c".to_string()]);
    assert!(s.tab("b").is_none());
    let w1 = s.window("w1").unwrap();
    assert_eq!(w1.tab_ids, vec!["a".to_string(), "c".to_string()]);
    assert_eq!(w1.active_tab_id, Some("c".to_string()));
    let w2 = s.window("w2").unwrap();
    assert!(w2.tab_ids.is_empty());
    assert_eq!(w2.active_tab_id, None);
    let w3 = s.window("w3").unwrap();
    assert_eq!(w3.tab_ids, vec!["d".to_string()]);
    assert_eq!(w3.active_tab_id, Some("d".to_string()));
}

#[test]
fn adding_a_tab_appends_to_existing_window_only() {
    let mut s = AppState::new();
    s.ensure_main_window();
    assert!(s.add_tab_to_window("main", "t1".to_string()));
    assert!(s.add_tab_to_window("main", "t2".to_string()));
    assert_eq!(s.window("main").unwrap().tab_ids, vec!["t1".to_string(), "t2".to_string()]);
    assert!(!s.add_tab_to_window("other", "t3".to_string()));
    assert!(s.window("other").is_none());
}

#[test]
fn tab_update_records_and_activates_only_on_change() {
    let mut s = AppState::new();
    s.insert_window("w1".to_string(), window("w1", &["t", "u"], Some("u")));
    s.insert_window("w2".to_string(), window("w2", &["u"], Some("u")));
    assert!(s.update_tab("t".to_string(), "Title".to_string(), "https://x".to_string()));
    let t = s.tab("t").unwrap();
    assert_eq!((t.id.as_str(), t.title.as_str(), t.url.as_str()), ("t", "Title", "https://x"));
    assert!(t.is_active && !t.is_pinned);
    assert_eq!(s.window("w1").unwrap().active_tab_id, Some("t".to_string()));
    assert_eq!(s.window("w2").unwrap().active_tab_id, Some("u".to_string()));
    assert!(!s.update_tab("t".to_string(), "Title".to_string(), "https://x".to_string()));
    assert!(s.update_tab("t".to_string(), "Other".to_string(), "https://x".to_string()));
    assert_eq!(s.tab("t").unwrap().title, "Other");
}

#[test]
fn window_events_update_the_window_record() {
    let mut s = AppState::new();
    s.ensure_main_window();
    s.record_focus("main", false);
    assert!(!s.window("main").unwrap().is_focused);
    assert_eq!(s.focused_window_id(), None);
    s.record_focus("main", true);
    assert_eq!(s.focused_window_id(), Some("main".to_string()));
    s.record_resize("main", 640.0f64.to_bits(), 480.5f64.to_bits());
    s.record_move("main", (-10.0f64).to_bits(), 20.25f64.to_bits());
    let w = s.window("main").unwrap();
    assert_eq!(
        w.bounds,
        Bounds {
            x: Some((-10.0f64).to_bits()),
            y: Some(20.25f64.to_bits()),
            width: 640.0f64.to_bits(),
            height: 480.5f64.to_bits(),
        }
    );
    assert_eq!(f64::from_bits(w.bounds.height), 480.5);
    s.record_focus("ghost", true);
    assert_eq!(s.focused_window_id(), Some("ghost".to_string()));
    assert!(s.window("ghost").is_none());
}

#[test]
fn startup_url_follows_the_main_window() {
    let mut s = AppState::new();
    assert_eq!(s.startup_tab_url(), None);
    s.ensure_main_window();
    assert_eq!(s.startup_tab_url(), Some("https://www.notion.so".to_string()));
    s.insert_window("main".to_string(), window("main", &["t"], Some("t")));
    assert_eq!(s.startup_tab_url(), None);
    s.insert_tab("t".to_string(), tab("t", "T", "https://www.notion.so/page"));
    assert_eq!(s.startup_tab_url(), Some("https://www.notion.so/page".to_string()));
}

#[test]
fn clones_keep_every_field() {
    let w = window("w", &["a", "b"], Some("a"));
    let c = w.clone();
    assert_eq!(c.tab_ids, w.tab_ids);
    assert_eq!(c.active_tab_id, w.active_tab_id);
    let t = tab("a", "A", "u");
    assert_eq!(t.clone().url, "u");
}

#[test]
fn state_rebuilt_from_its_entries_is_the_same() {
    let mut s = AppState::new();
    s.ensure_main_window();
    s.insert_window("w2".to_string(), window("w2", &["a"], Some("a")));
    s.insert_tab("a".to_string(), tab("a", "A", "https://a"));
    s.set_focused_window_id(Some("w2".to_string()));
    let mut r = AppState::new();
    for (k, w) in s.window_entries() {
        r.insert_window(k, w);
    }
    for (k, t) in s.tab_entries() {
        r.insert_tab(k, t);
    }
    r.set_focused_window_id(s.focused_window_id());
    assert_eq!(r.window_entries().len(), 2);
    assert_eq!(r.window("w2").unwrap().tab_ids, vec!["a".to_string()]);
    assert_eq!(r.window("main").unwrap().bounds, s.window("main").unwrap().bounds);
    assert_eq!(r.tab("a").unwrap().url, "https://a");
    assert_eq!(r.focused_window_id(), Some("w2".to_string()));
}

#[test]
fn closing_an_unlisted_tab_leaves_windows_alone() {
    let mut s = AppState::new();
    s.insert_window("w".to_string(), window("w", &["a", "b"], Some("b")));
    s.insert_tab("zz".to_string(), tab("zz", "Z", "https://z"));
    assert!(s.close_tab("zz").is_empty());
    let w = s.window("w").unwrap();
    assert_eq!(w.tab_ids, vec!["a".to_string(), "b".to_string()]);
    assert_eq!(w.active_tab_id, Some("b".to_string()));
    assert!(s.tab("zz").is_none());
}

#[test]
fn closed_tab_successors_come_in_window_order() {
    let mut s = AppState::new();
    s.insert_window("zeta".to_string(), window("zeta", &["x", "t"], Some("t")));
    s.insert_window("alpha".to_string(), window("alpha", &["t"], Some("t")));
    s.insert_window("mid".to_string(), window("mid", &["t", "m"], Some("m")));
    s.insert_window("beta".to_string(), window("beta", &["y", "t", "z"], Some("t")));
    s.insert_window("zeta".to_string(), window("zeta", &["w", "x", "t"], Some("t")));
    let shown = s.close_tab("t");
    assert_eq!(shown, vec!["x".to_string(), "z".to_string()]);
    let keys: Vec<String> = s.window_entries().into_iter().map(|(k, _)| k).collect();
    assert_eq!(
        keys,
        vec!["zeta".to_string(), "alpha".to_string(), "mid".to_string(), "beta".to_string()]
    );
    assert_eq!(s.window("mid").unwrap().active_tab_id, Some("m".to_string()));
    assert_eq!(s.window("alpha").unwrap().active_tab_id, None);
}
