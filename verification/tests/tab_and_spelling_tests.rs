use lotion_rs::litebox::TargetOs;
use lotion_rs::spellcheck::{default_dictionary_paths, spelling_accepted, CheckResult};
use lotion_rs::tab_controller::{check_navigation, title_observer_script};

#[test]
fn observer_script_reports_its_tab() {
    let js = title_observer_script("tab-42");
    assert!(js.starts_with("(function() {\n                const tabId = 'tab-42';"));
    assert!(js.contains("window.__TAURI__.invoke('update_tab_state'"));
    assert!(js.contains("style.textContent = `#lotion-custom-titlebar { display: none !important; }`;"));
    assert!(js.ends_with("})();"));
}

#[test]
fn dictionaries_are_looked_for_per_platform() {
    assert_eq!(
        default_dictionary_paths(TargetOs::Linux),
        ("/usr/share/hunspell/en_US.aff".to_string(), "/usr/share/hunspell/en_US.dic".to_string())
    );
    assert_eq!(
        default_dictionary_paths(TargetOs::MacOs),
        ("/Library/Spelling/en_US.aff".to_string(), "/Library/Spelling/en_US.dic".to_string())
    );
    assert_eq!(
        default_dictionary_paths(TargetOs::Other),
        ("/usr/share/hunspell/en_US.aff".to_string(), "/usr/share/hunspell/en_US.dic".to_string())
    );
    assert_eq!(
        default_dictionary_paths(TargetOs::Windows).0,
        "C:\\Program Files\\Hunspell\\en_US.aff"
    );
}

#[test]
fn words_pass_unless_the_dictionary_misses_them() {
    assert!(spelling_accepted(None));
    assert!(spelling_accepted(Some(CheckResult::FoundInDictionary)));
    assert!(!spelling_accepted(Some(CheckResult::MissingInDictionary)));
}

#[test]
fn blocked_navigation_names_the_url() {
    assert_eq!(check_navigation(true, "https://www.notion.so"), Ok(()));
    assert_eq!(
        check_navigation(false, "https://evil.example"),
        Err("Zero-Trust Policy Blocked: https://evil.example".to_string())
    );
}
