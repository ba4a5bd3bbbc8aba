use lotion_rs::commands::{
    check_command_origin, check_reported_url, command_origin, home_url, is_trusted_origin,
    truncate_network_event,
};

#[test]
fn origin_is_scheme_and_host() {
    assert_eq!(command_origin("https", Some("www.notion.so")), "https://www.notion.so");
    assert_eq!(command_origin("tauri", Some("localhost")), "tauri://localhost");
    assert_eq!(command_origin("about", None), "about://");
}

#[test]
fn trusted_origins_are_the_configured_ones() {
    let trusted = vec!["https://www.notion.so".to_string(), "https://notion.so".to_string()];
    assert!(is_trusted_origin(Some("https://www.notion.so"), &trusted, false));
    assert!(!is_trusted_origin(Some("https://evil.example"), &trusted, false));
    assert!(!is_trusted_origin(None, &trusted, true));
    assert!(!is_trusted_origin(Some("tauri://localhost"), &trusted, false));
    assert!(is_trusted_origin(Some("tauri://localhost"), &trusted, true));
    assert!(is_trusted_origin(Some("wry://localhost"), &trusted, true));
    assert!(!is_trusted_origin(Some("http://localhost"), &trusted, true));
}

#[test]
fn untrusted_command_is_refused() {
    let trusted = vec!["https://www.notion.so".to_string()];
    assert_eq!(check_command_origin(Some("https://www.notion.so"), &trusted, false), Ok(()));
    assert_eq!(
        check_command_origin(Some("https://x"), &trusted, false),
        Err("Untrusted origin".to_string())
    );
}

#[test]
fn reported_url_must_match_the_page() {
    assert_eq!(check_reported_url(Some("https://a/"), "https://a/"), Ok(()));
    assert_eq!(check_reported_url(None, "https://a/"), Ok(()));
    assert_eq!(check_reported_url(Some("https://b/"), "https://a/"), Err("Mismatched URL".to_string()));
}

#[test]
fn long_network_events_are_cut() {
    let short = "GET https://www.notion.so";
    assert_eq!(truncate_network_event(short), short);
    let exact = "a".repeat(512);
    assert_eq!(truncate_network_event(&exact), exact);
    let long = "b".repeat(600);
    assert_eq!(truncate_network_event(&long), format!("{}...", "b".repeat(512)));
}

#[test]
fn new_tabs_open_notion() {
    assert_eq!(home_url(), "https://www.notion.so");
}
