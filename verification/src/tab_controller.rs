//! What a tab injects into its page: an observer that reports title changes back
//! to the application, and the style that hides the page's own title bar.

use vstd::prelude::*;

verus! {

/// The style injected into every tab.
pub open spec fn platform_css() -> Seq<char> {
    "#lotion-custom-titlebar { display: none !important; }"@
}

/// The script text before the tab id.
pub open spec fn script_head() -> Seq<char> {
    "(function() {\n                const tabId = '"@
}

/// The script text between the tab id and the style.
pub open spec fn script_middle() -> Seq<char> {
    "';\n                let lastTitle = document.title;\n                const observer = new MutationObserver(function() {\n                    if (document.title !== lastTitle) {\n                        lastTitle = document.title;\n                        const currentUrl = window.location.href;\n                        if (window.__TAURI__) {\n                            window.__TAURI__.invoke('update_tab_state', {\n                                tabId: tabId,\n                                title: lastTitle,\n                                url: currentUrl\n                            });\n                        }\n                    }\n                });\n                observer.observe(document.querySelector('title') || document.documentElement, {\n                    subtree: true,\n                    characterData: true,\n                    childList: true\n                });\n                const style = document.createElement('style');\n                style.textContent = `"@
}

/// The script text after the style.
pub open spec fn script_tail() -> Seq<char> {
    "`;\n                document.head.appendChild(style);\n            })();"@
}

/// The script injected into tab `tab_id`: it watches the page title and, when it
/// changes, reports the tab id, the new title and the current URL through the
/// `update_tab_state` command; it also injects `platform_css`.
pub fn title_observer_script(tab_id: &str) -> (js: String)
    ensures
        js@ == script_head() + tab_id@ + script_middle() + platform_css() + script_tail(),
{
    let mut js = "(function() {\n                const tabId = '".to_owned();
    js.append(tab_id);
    js.append("';\n                let lastTitle = document.title;\n                const observer = new MutationObserver(function() {\n                    if (document.title !== lastTitle) {\n                        lastTitle = document.title;\n                        const currentUrl = window.location.href;\n                        if (window.__TAURI__) {\n                            window.__TAURI__.invoke('update_tab_state', {\n                                tabId: tabId,\n                                title: lastTitle,\n                                url: currentUrl\n                            });\n                        }\n                    }\n                });\n                observer.observe(document.querySelector('title') || document.documentElement, {\n                    subtree: true,\n                    characterData: true,\n                    childList: true\n                });\n                const style = document.createElement('style');\n                style.textContent = `");
    js.append("#lotion-custom-titlebar { display: none !important; }");
    js.append("`;\n                document.head.appendChild(style);\n            })();");
    js
}

/// Refuses navigation to `url` when the policy does not allow it, with the error
/// `Zero-Trust Policy Blocked: ` followed by the URL.
pub fn check_navigation(allowed: bool, url: &str) -> (r: Result<(), String>)
    ensures
        r is Ok == allowed,
        r matches Err(m) ==> m@ == "Zero-Trust Policy Blocked: "@ + url@,
{
    if allowed {
        Ok(())
    } else {
        let mut m = "Zero-Trust Policy Blocked: ".to_owned();
        m.append(url);
        Err(m)
    }
}

/// Whether `needle` occurs in `text` at some position.
pub open spec fn occurs_in(needle: Seq<char>, text: Seq<char>) -> bool {
    exists|i: int| 0 <= i && i + needle.len() <= text.len() && #[trigger] text.subrange(i, i + needle.len()) == needle
}

/// The script of every tab reports only when the page title differs from the last
/// one seen: its observer tests `document.title !== lastTitle`, whatever the tab id;
/// the report goes through `update_tab_state` with the tab id, the new title and
/// the current URL.
pub proof fn law_observer_fires_on_title_change(tab_id: Seq<char>)
    ensures
        occurs_in(
            "if (document.title !== lastTitle) {"@,
            script_head() + tab_id + script_middle() + platform_css() + script_tail(),
        ),
        occurs_in(
            "window.__TAURI__.invoke('update_tab_state', {\n                                tabId: tabId,\n                                title: lastTitle,\n                                url: currentUrl\n                            });"@,
            script_head() + tab_id + script_middle() + platform_css() + script_tail(),
        ),
{
    let cond = "if (document.title !== lastTitle) {"@;
    reveal_strlit("if (document.title !== lastTitle) {");
    reveal_strlit("(function() {\n                const tabId = '");
    reveal_strlit("';\n                let lastTitle = document.title;\n                const observer = new MutationObserver(function() {\n                    if (document.title !== lastTitle) {\n                        lastTitle = document.title;\n                        const currentUrl = window.location.href;\n                        if (window.__TAURI__) {\n                            window.__TAURI__.invoke('update_tab_state', {\n                                tabId: tabId,\n                                title: lastTitle,\n                                url: currentUrl\n                            });\n                        }\n                    }\n                });\n                observer.observe(document.querySelector('title') || document.documentElement, {\n                    subtree: true,\n                    characterData: true,\n                    childList: true\n                });\n                const style = document.createElement('style');\n                style.textContent = `");
    let mid = script_middle();
    assert(cond.len() == 35);
    assert(mid.subrange(138, 173) =~= cond);
    let pre = script_head() + tab_id;
    let text = script_head() + tab_id + script_middle() + platform_css() + script_tail();
    let i: int = pre.len() as int + 138;
    assert(text.subrange(i, i + 35) =~= mid.subrange(138, 173));
    assert(text.subrange(i, i + cond.len()) == cond);
    let call = "window.__TAURI__.invoke('update_tab_state', {\n                                tabId: tabId,\n                                title: lastTitle,\n                                url: currentUrl\n                            });"@;
    reveal_strlit("window.__TAURI__.invoke('update_tab_state', {\n                                tabId: tabId,\n                                title: lastTitle,\n                                url: currentUrl\n                            });");
    assert(call.len() == 221);
    assert(mid.subrange(367, 588) =~= call);
    let j: int = pre.len() as int + 367;
    assert(text.subrange(j, j + 221) =~= mid.subrange(367, 588));
    assert(text.subrange(j, j + call.len()) == call);
}

} // verus!
