//! The persisted application state: windows, their tabs, and which window has focus.
//!
//! Window geometry is kept as IEEE-754 binary64 bit patterns: the library only
//! stores and copies these numbers, so it holds each one exactly as given.

use vstd::prelude::*;

use crate::table::Table;

pub use crate::vault::{decrypt_data, encrypt_data, get_encryption_key, EncryptedState};

verus! {

/// The window geometry: position and size in pixels, each number given by the bit
/// pattern of its binary64 value (`f64::to_bits`).
#[derive(Clone, Copy, Debug, PartialEq, Eq, Structural)]
pub struct Bounds {
    pub x: Option<u64>,
    pub y: Option<u64>,
    pub width: u64,
    pub height: u64,
}

/// The width of a new main window, 1200.0, as a binary64 bit pattern.
pub const MAIN_WINDOW_WIDTH_BITS: u64 = 0x4092_c000_0000_0000;

/// The height of a new main window, 768.0, as a binary64 bit pattern.
pub const MAIN_WINDOW_HEIGHT_BITS: u64 = 0x4088_0000_0000_0000;

/// One browser tab.
#[derive(Debug)]
pub struct TabState {
    pub id: String,
    pub title: String,
    pub url: String,
    pub is_active: bool,
    pub is_pinned: bool,
}

/// The mathematical value of a tab.
pub struct TabView {
    pub id: Seq<char>,
    pub title: Seq<char>,
    pub url: Seq<char>,
    pub is_active: bool,
    pub is_pinned: bool,
}

impl View for TabState {
    type V = TabView;

    open spec fn view(&self) -> TabView {
        TabView {
            id: self.id@,
            title: self.title@,
            url: self.url@,
            is_active: self.is_active,
            is_pinned: self.is_pinned,
        }
    }
}

impl Clone for TabState {
    fn clone(&self) -> (r: Self)
        ensures
            r@ == self@,
    {
        TabState {
            id: self.id.clone(),
            title: self.title.clone(),
            url: self.url.clone(),
            is_active: self.is_active,
            is_pinned: self.is_pinned,
        }
    }
}

/// One top-level window and the tabs it holds.
#[derive(Debug)]
pub struct WindowState {
    pub id: String,
    pub bounds: Bounds,
    pub is_focused: bool,
    pub is_maximized: bool,
    pub is_minimized: bool,
    pub is_full_screen: bool,
    pub tab_ids: Vec<String>,
    pub active_tab_id: Option<String>,
}

/// The mathematical value of a window.
pub struct WindowView {
    pub id: Seq<char>,
    pub bounds: Bounds,
    pub is_focused: bool,
    pub is_maximized: bool,
    pub is_minimized: bool,
    pub is_full_screen: bool,
    pub tab_ids: Seq<Seq<char>>,
    pub active_tab_id: Option<Seq<char>>,
}

/// The views of a sequence of strings.
pub open spec fn string_views(s: Seq<String>) -> Seq<Seq<char>> {
    s.map_values(|x: String| x@)
}

/// The view of an optional string.
pub open spec fn opt_view(o: Option<String>) -> Option<Seq<char>> {
    match o {
        Some(s) => Some(s@),
        None => None,
    }
}

impl View for WindowState {
    type V = WindowView;

    open spec fn view(&self) -> WindowView {
        WindowView {
            id: self.id@,
            bounds: self.bounds,
            is_focused: self.is_focused,
            is_maximized: self.is_maximized,
            is_minimized: self.is_minimized,
            is_full_screen: self.is_full_screen,
            tab_ids: string_views(self.tab_ids@),
            active_tab_id: opt_view(self.active_tab_id),
        }
    }
}

/// A copy of an optional string.
fn clone_opt_string(o: &Option<String>) -> (r: Option<String>)
    ensures
        opt_view(r) == opt_view(*o),
{
    match o {
        Some(s) => Some(s.clone()),
        None => None,
    }
}

/// A copy of a list of strings.
fn clone_strings(v: &Vec<String>) -> (r: Vec<String>)
    ensures
        string_views(r@) == string_views(v@),
{
    let mut r: Vec<String> = Vec::new();
    let n = v.len();
    let mut i: usize = 0;
    while i < n
        invariant
            n == v@.len(),
            i <= n,
            r@.len() == i,
            forall|j: int| 0 <= j < i ==> r@[j]@ == v@[j]@,
        decreases n - i,
    {
        let s = v[i].clone();
        r.push(s);
        i = i + 1;
    }
    assert(string_views(r@) =~= string_views(v@));
    r
}

impl Clone for WindowState {
    fn clone(&self) -> (r: Self)
        ensures
            r@ == self@,
    {
        WindowState {
            id: self.id.clone(),
            bounds: self.bounds,
            is_focused: self.is_focused,
            is_maximized: self.is_maximized,
            is_minimized: self.is_minimized,
            is_full_screen: self.is_full_screen,
            tab_ids: clone_strings(&self.tab_ids),
            active_tab_id: clone_opt_string(&self.active_tab_id),
        }
    }
}

/// The ids of `ids` other than `t`, in their order.
pub open spec fn without_id(ids: Seq<Seq<char>>, t: Seq<char>) -> Seq<Seq<char>>
    decreases ids.len(),
{
    if ids.len() == 0 {
        Seq::empty()
    } else if ids.last() == t {
        without_id(ids.drop_last(), t)
    } else {
        without_id(ids.drop_last(), t).push(ids.last())
    }
}

/// The last id of a list, if it has one.
pub open spec fn last_of(ids: Seq<Seq<char>>) -> Option<Seq<char>> {
    if ids.len() == 0 {
        None
    } else {
        Some(ids.last())
    }
}

/// A window once tab `t` is closed: `t` leaves its list, and if `t` was the
/// active tab the last remaining tab becomes active.
pub open spec fn window_without_tab(w: WindowView, t: Seq<char>) -> WindowView {
    let ids = without_id(w.tab_ids, t);
    WindowView {
        id: w.id,
        bounds: w.bounds,
        is_focused: w.is_focused,
        is_maximized: w.is_maximized,
        is_minimized: w.is_minimized,
        is_full_screen: w.is_full_screen,
        tab_ids: ids,
        active_tab_id: if w.active_tab_id == Some(t) {
            last_of(ids)
        } else {
            w.active_tab_id
        },
    }
}

/// `without_id` never keeps `t`, and keeps every other id of the list.
pub proof fn lemma_without_id(ids: Seq<Seq<char>>, t: Seq<char>)
    ensures
        !without_id(ids, t).contains(t),
        forall|x: Seq<char>| x != t && ids.contains(x) ==> #[trigger] without_id(ids, t).contains(x),
        forall|x: Seq<char>| #[trigger] without_id(ids, t).contains(x) ==> ids.contains(x),
        !ids.contains(t) ==> without_id(ids, t) == ids,
    decreases ids.len(),
{
    if ids.len() > 0 {
        let p = ids.drop_last();
        lemma_without_id(p, t);
        let r = without_id(ids, t);
        let q = without_id(p, t);
        assert forall|x: Seq<char>| x != t && ids.contains(x) implies #[trigger] r.contains(x) by {
            let i = choose|i: int| 0 <= i < ids.len() && ids[i] == x;
            if i < ids.len() - 1 {
                assert(p[i] == x);
                assert(p.contains(x));
                assert(q.contains(x));
                let k = choose|k: int| 0 <= k < q.len() && q[k] == x;
                if ids.last() != t {
                    assert(r[k] == x);
                }
            } else {
                assert(r.last() == x);
                assert(r[r.len() - 1] == x);
            }
        }
        assert forall|x: Seq<char>| #[trigger] r.contains(x) implies ids.contains(x) by {
            let i = choose|i: int| 0 <= i < r.len() && r[i] == x;
            if ids.last() != t && i == r.len() - 1 {
                assert(ids[ids.len() - 1] == x);
            } else {
                assert(q[i] == x);
                assert(q.contains(x));
                assert(p.contains(x));
                let j = choose|j: int| 0 <= j < p.len() && p[j] == x;
                assert(ids[j] == x);
            }
        }
        assert(!r.contains(t)) by {
            if r.contains(t) {
                let i = choose|i: int| 0 <= i < r.len() && r[i] == t;
                if ids.last() != t && i == r.len() - 1 {
                } else {
                    assert(q[i] == t);
                    assert(q.contains(t));
                }
            }
        }
        if !ids.contains(t) {
            assert(!p.contains(t)) by {
                if p.contains(t) {
                    let j = choose|j: int| 0 <= j < p.len() && p[j] == t;
                    assert(ids[j] == t);
                }
            }
            assert(ids.last() != t) by {
                assert(ids[ids.len() - 1] == ids.last());
            }
            assert(ids =~= p.push(ids.last()));
        }
    } else {
        assert(without_id(ids, t) =~= ids);
    }
}

/// A window's active tab, when it has one, is one of its tabs.
pub open spec fn active_tab_listed(w: WindowView) -> bool {
    w.active_tab_id matches Some(a) ==> w.tab_ids.contains(a)
}

/// The state once tab `t` is closed.
pub open spec fn after_close_tab(s: AppStateView, t: Seq<char>) -> AppStateView {
    AppStateView {
        windows: s.windows.map_values(|w: WindowView| window_without_tab(w, t)),
        tabs: s.tabs.remove(t),
        focused_window_id: s.focused_window_id,
    }
}

/// The tabs to bring to front once tab `t` is closed, one for each window, taken
/// in the order `keys` gives the windows of `ws`: the new active tab of each window
/// whose active tab was `t` and that keeps a tab.
pub open spec fn shown_in_order(
    keys: Seq<Seq<char>>,
    ws: Map<Seq<char>, WindowView>,
    t: Seq<char>,
) -> Seq<Seq<char>>
    decreases keys.len(),
{
    if keys.len() == 0 {
        Seq::empty()
    } else {
        let earlier = shown_in_order(keys.drop_last(), ws, t);
        let w = ws[keys.last()];
        let next = window_without_tab(w, t).active_tab_id;
        if w.active_tab_id == Some(t) && next is Some {
            earlier.push(next->Some_0)
        } else {
            earlier
        }
    }
}

/// The window once tab `t` is closed.
pub fn close_tab_in_window(w: &WindowState, t: &String) -> (r: WindowState)
    ensures
        r@ == window_without_tab(w@, t@),
{
    let mut ids: Vec<String> = Vec::new();
    let n = w.tab_ids.len();
    let ghost src = string_views(w.tab_ids@);
    let mut i: usize = 0;
    while i < n
        invariant
            n == w.tab_ids@.len(),
            src == string_views(w.tab_ids@),
            i <= n,
            string_views(ids@) == without_id(src.take(i as int), t@),
        decreases n - i,
    {
        assert(src.take(i + 1).drop_last() =~= src.take(i as int));
        assert(src.take(i + 1).last() == w.tab_ids@[i as int]@);
        if w.tab_ids[i] != *t {
            let x = w.tab_ids[i].clone();
            ids.push(x);
            assert(string_views(ids@) =~= without_id(src.take(i as int), t@).push(
                w.tab_ids@[i as int]@,
            ));
        }
        i = i + 1;
    }
    assert(src.take(n as int) =~= src);
    let active = match &w.active_tab_id {
        Some(a) => {
            if *a == *t {
                if ids.len() > 0 {
                    Some(ids[ids.len() - 1].clone())
                } else {
                    None
                }
            } else {
                Some(a.clone())
            }
        },
        None => None,
    };
    WindowState {
        id: w.id.clone(),
        bounds: w.bounds,
        is_focused: w.is_focused,
        is_maximized: w.is_maximized,
        is_minimized: w.is_minimized,
        is_full_screen: w.is_full_screen,
        tab_ids: ids,
        active_tab_id: active,
    }
}

/// A window with tab `t` appended to its tab list.
pub open spec fn window_with_tab(w: WindowView, t: Seq<char>) -> WindowView {
    WindowView { tab_ids: w.tab_ids.push(t), ..w }
}

/// A window where tab `t` becomes active, if the window holds it.
pub open spec fn activate_tab(w: WindowView, t: Seq<char>) -> WindowView {
    if w.tab_ids.contains(t) {
        WindowView { active_tab_id: Some(t), ..w }
    } else {
        w
    }
}

/// Whether a reported title and URL differ from what is recorded for tab `t`
/// (a tab not recorded yet always differs).
pub open spec fn tab_changed(s: AppStateView, t: Seq<char>, title: Seq<char>, url: Seq<char>) -> bool {
    !s.tabs.contains_key(t) || s.tabs[t].title != title || s.tabs[t].url != url
}

/// The record of a tab that just reported its title and URL.
pub open spec fn reported_tab(t: Seq<char>, title: Seq<char>, url: Seq<char>) -> TabView {
    TabView { id: t, title, url, is_active: true, is_pinned: false }
}

/// The state once tab `t` reports `title` and `url`: unchanged if nothing changed;
/// otherwise the tab is recorded and becomes active in every window that holds it.
pub open spec fn after_update_tab(
    s: AppStateView,
    t: Seq<char>,
    title: Seq<char>,
    url: Seq<char>,
) -> AppStateView {
    if !tab_changed(s, t, title, url) {
        s
    } else {
        AppStateView {
            windows: s.windows.map_values(|w: WindowView| activate_tab(w, t)),
            tabs: s.tabs.insert(t, reported_tab(t, title, url)),
            focused_window_id: s.focused_window_id,
        }
    }
}

/// The state once tab `t` is opened in window `w`; unchanged if there is no such window.
pub open spec fn after_add_tab(s: AppStateView, w: Seq<char>, t: Seq<char>) -> AppStateView {
    if s.windows.contains_key(w) {
        AppStateView { windows: s.windows.insert(w, window_with_tab(s.windows[w], t)), ..s }
    } else {
        s
    }
}

/// The label of the main window.
pub open spec fn main_label() -> Seq<char> {
    "main"@
}

/// The record of the main window when it is first created.
pub open spec fn initial_main_window() -> WindowView {
    WindowView {
        id: main_label(),
        bounds: Bounds {
            x: None,
            y: None,
            width: MAIN_WINDOW_WIDTH_BITS,
            height: MAIN_WINDOW_HEIGHT_BITS,
        },
        is_focused: true,
        is_maximized: false,
        is_minimized: false,
        is_full_screen: false,
        tab_ids: Seq::empty(),
        active_tab_id: None,
    }
}

/// The state once the main window is known to exist.
pub open spec fn after_ensure_main(s: AppStateView) -> AppStateView {
    if s.windows.contains_key(main_label()) {
        s
    } else {
        AppStateView { windows: s.windows.insert(main_label(), initial_main_window()), ..s }
    }
}

/// The windows map once window `label`, if recorded, is changed by `f`.
pub open spec fn update_window(
    ws: Map<Seq<char>, WindowView>,
    label: Seq<char>,
    f: spec_fn(WindowView) -> WindowView,
) -> Map<Seq<char>, WindowView> {
    if ws.contains_key(label) {
        ws.insert(label, f(ws[label]))
    } else {
        ws
    }
}

/// The state once window `label` gains (`focused`) or loses focus.
pub open spec fn after_focus(s: AppStateView, label: Seq<char>, focused: bool) -> AppStateView {
    AppStateView {
        windows: update_window(s.windows, label, |w: WindowView| WindowView { is_focused: focused, ..w }),
        tabs: s.tabs,
        focused_window_id: if focused {
            Some(label)
        } else {
            s.focused_window_id
        },
    }
}

/// The state once window `label` is resized to `width` x `height`.
pub open spec fn after_resize(s: AppStateView, label: Seq<char>, width: u64, height: u64) -> AppStateView {
    AppStateView {
        windows: update_window(
            s.windows,
            label,
            |w: WindowView| WindowView { bounds: Bounds { width, height, ..w.bounds }, ..w },
        ),
        ..s
    }
}

/// The state once window `label` is moved to `(x, y)`.
pub open spec fn after_move(s: AppStateView, label: Seq<char>, x: u64, y: u64) -> AppStateView {
    AppStateView {
        windows: update_window(
            s.windows,
            label,
            |w: WindowView| WindowView { bounds: Bounds { x: Some(x), y: Some(y), ..w.bounds }, ..w },
        ),
        ..s
    }
}

/// The recorded tabs among `ids`, in the order of `ids`; ids with no record are skipped.
pub open spec fn listed_tabs(ids: Seq<Seq<char>>, tabs: Map<Seq<char>, TabView>) -> Seq<TabView>
    decreases ids.len(),
{
    if ids.len() == 0 {
        Seq::empty()
    } else if tabs.contains_key(ids.last()) {
        listed_tabs(ids.drop_last(), tabs).push(tabs[ids.last()])
    } else {
        listed_tabs(ids.drop_last(), tabs)
    }
}

/// The views of a sequence of tabs.
pub open spec fn tab_views(s: Seq<TabState>) -> Seq<TabView> {
    s.map_values(|t: TabState| t@)
}

/// The tabs of window `w`, or none if there is no such window.
pub open spec fn window_tabs_of(s: AppStateView, w: Seq<char>) -> Seq<TabView> {
    if s.windows.contains_key(w) {
        listed_tabs(s.windows[w].tab_ids, s.tabs)
    } else {
        Seq::empty()
    }
}

/// The page opened at start-up: the recorded URL of the main window's active tab,
/// or the Notion home page when the main window has no active tab; nothing when
/// there is no main window or its active tab has no record.
pub open spec fn startup_url(s: AppStateView) -> Option<Seq<char>> {
    if s.windows.contains_key(main_label()) {
        match s.windows[main_label()].active_tab_id {
            Some(a) => if s.tabs.contains_key(a) {
                Some(s.tabs[a].url)
            } else {
                None
            },
            None => Some("https://www.notion.so"@),
        }
    } else {
        None
    }
}

/// Whether `t` occurs in `ids`.
pub fn contains_id(ids: &Vec<String>, t: &String) -> (b: bool)
    ensures
        b == string_views(ids@).contains(t@),
{
    let n = ids.len();
    let mut i: usize = 0;
    while i < n
        invariant
            n == ids@.len(),
            i <= n,
            forall|j: int| 0 <= j < i ==> ids@[j]@ != t@,
        decreases n - i,
    {
        if ids[i] == *t {
            assert(string_views(ids@)[i as int] == t@);
            return true;
        }
        i = i + 1;
    }
    assert(!string_views(ids@).contains(t@)) by {
        if string_views(ids@).contains(t@) {
            let j = choose|j: int| 0 <= j < n && string_views(ids@)[j] == t@;
            assert(ids@[j]@ == t@);
        }
    }
    false
}

/// The state of the whole application: windows and tabs keyed by id, and the focused window.
pub struct AppState {
    windows: Table<WindowState>,
    tabs: Table<TabState>,
    focused_window_id: Option<String>,
}

/// The mathematical value of the application state.
pub struct AppStateView {
    pub windows: Map<Seq<char>, WindowView>,
    pub tabs: Map<Seq<char>, TabView>,
    pub focused_window_id: Option<Seq<char>>,
}

impl View for AppState {
    type V = AppStateView;

    closed spec fn view(&self) -> AppStateView {
        AppStateView {
            windows: self.windows@,
            tabs: self.tabs@,
            focused_window_id: opt_view(self.focused_window_id),
        }
    }
}

impl AppState {
    /// Well-formedness: neither registry holds a key twice.
    pub closed spec fn wf(&self) -> bool {
        self.windows.wf() && self.tabs.wf()
    }

    /// An empty state: no windows, no tabs, no focused window.
    pub fn new() -> (s: Self)
        ensures
            s.wf(),
            s@.windows == Map::<Seq<char>, WindowView>::empty(),
            s@.tabs == Map::<Seq<char>, TabView>::empty(),
            s@.focused_window_id is None,
            s.window_keys() == Seq::<Seq<char>>::empty(),
    {
        AppState { windows: Table::new(), tabs: Table::new(), focused_window_id: None }
    }

    /// The keys of the windows, in the order the registry keeps them.
    pub closed spec fn window_keys(&self) -> Seq<Seq<char>> {
        self.windows.keys()
    }

    /// Closes tab `tab_id`: forgets it, drops it from every window's tab list, and
    /// where it was a window's active tab makes that window's last remaining tab
    /// active. Returns the tabs that thereby became active, to be brought to front,
    /// one for each such window, in the order the windows are kept.
    pub fn close_tab(&mut self, tab_id: &str) -> (shown: Vec<String>)
        requires
            old(self).wf(),
        ensures
            final(self).wf(),
            final(self)@ == after_close_tab(old(self)@, tab_id@),
            !final(self)@.tabs.contains_key(tab_id@),
            forall|k: Seq<char>|
                k != tab_id@ ==> (#[trigger] final(self)@.tabs.contains_key(k)
                    <==> old(self)@.tabs.contains_key(k)),
            forall|k: Seq<char>|
                k != tab_id@ && old(self)@.tabs.contains_key(k) ==> #[trigger] final(self)@.tabs[k]
                    == old(self)@.tabs[k],
            final(self).window_keys() == old(self).window_keys(),
            string_views(shown@) == shown_in_order(
                old(self).window_keys(),
                old(self)@.windows,
                tab_id@,
            ),
    {
        self.tabs.remove(tab_id);
        let t: String = tab_id.to_owned();
        let ghost old_windows = self.windows;
        let ghost keys = old(self).window_keys();
        let ghost ws = old(self)@.windows;
        let ghost f = |w: WindowView| window_without_tab(w, t@);
        let n = self.windows.len();
        let mut shown: Vec<String> = Vec::new();
        let mut i: usize = 0;
        proof {
            old_windows.lemma_entries();
            old_windows.lemma_keys();
            assert(shown_in_order(keys.take(0), ws, t@) =~= Seq::<Seq<char>>::empty());
            assert(string_views(shown@) =~= Seq::<Seq<char>>::empty());
        }
        while i < n
            invariant
                n == old_windows.entry_seq().len(),
                n == self.windows.entry_seq().len(),
                i <= n,
                old_windows.wf(),
                self.windows.wf(),
                self.tabs.wf(),
                self.tabs@ == old(self)@.tabs.remove(tab_id@),
                self.focused_window_id == old(self).focused_window_id,
                t@ == tab_id@,
                f == (|w: WindowView| window_without_tab(w, t@)),
                keys == old_windows.keys(),
                ws == old_windows@,
                forall|j: int|
                    0 <= j < n ==> (#[trigger] self.windows.entry_seq()[j]).0@
                        == old_windows.entry_seq()[j].0@,
                forall|j: int|
                    0 <= j < i ==> (#[trigger] self.windows.entry_seq()[j]).1@ == f(
                        old_windows.entry_seq()[j].1@,
                    ),
                forall|j: int|
                    i <= j < n ==> #[trigger] self.windows.entry_seq()[j]
                        == old_windows.entry_seq()[j],
                string_views(shown@) == shown_in_order(keys.take(i as int), ws, t@),
            decreases n - i,
        {
            let w = self.windows.value_at(i);
            let was_active = match &w.active_tab_id {
                Some(a) => *a == t,
                None => false,
            };
            let nw = close_tab_in_window(w, &t);
            let ghost old_shown = string_views(shown@);
            if was_active {
                match &nw.active_tab_id {
                    Some(next) => {
                        let x = next.clone();
                        shown.push(x);
                    },
                    None => {},
                }
            }
            proof {
                old_windows.lemma_entries();
                old_windows.lemma_keys();
                let ki = old_windows.entry_seq()[i as int].0@;
                assert(keys.take(i + 1).drop_last() =~= keys.take(i as int));
                assert(keys.take(i + 1).last() == ki);
                assert(self.windows.entry_seq()[i as int] == old_windows.entry_seq()[i as int]);
                assert(old_windows@.contains_key(ki));
                assert(ws[ki] == w@);
                assert(was_active <==> w@.active_tab_id == Some(t@));
                if was_active && nw.active_tab_id is Some {
                    assert(string_views(shown@) =~= old_shown.push(nw.active_tab_id->Some_0@));
                } else {
                    assert(string_views(shown@) =~= old_shown);
                }
            }
            self.windows.set_value_at(i, nw);
            i = i + 1;
        }
        proof {
            crate::table::lemma_pointwise(&old_windows, &self.windows, f);
            assert(keys.take(n as int) =~= keys);
            old_windows.lemma_keys();
            self.windows.lemma_keys();
            assert(self.window_keys() =~= keys);
            assert(self@.windows == old(self)@.windows.map_values(f));
            assert(self@.windows =~= after_close_tab(old(self)@, tab_id@).windows);
        }
        shown
    }

    /// Opens tab `tab_id` in window `window_id`: the tab is appended to the window's
    /// list. Returns whether the window exists; if not, nothing changes.
    pub fn add_tab_to_window(&mut self, window_id: &str, tab_id: String) -> (found: bool)
        requires
            old(self).wf(),
        ensures
            final(self).wf(),
            found == old(self)@.windows.contains_key(window_id@),
            final(self)@ == after_add_tab(old(self)@, window_id@, tab_id@),
            final(self).window_keys() == old(self).window_keys(),
    {
        match self.windows.find(window_id) {
            None => false,
            Some(i) => {
                proof {
                    self.windows.lemma_entries();
                }
                let mut w = self.windows.value_at(i).clone();
                let ghost t = tab_id@;
                w.tab_ids.push(tab_id);
                assert(string_views(w.tab_ids@) =~= old(self)@.windows[window_id@].tab_ids.push(
                    t,
                ));
                self.windows.set_value_at(i, w);
                assert(self@.windows =~= after_add_tab(old(self)@, window_id@, t).windows);
                true
            },
        }
    }

    /// Records what tab `tab_id` reports of itself. When the title and URL are the
    /// ones already recorded, nothing changes and `false` is returned (nothing to
    /// save). Otherwise the tab is recorded as active, becomes the active tab of
    /// every window that holds it, and `true` is returned.
    pub fn update_tab(&mut self, tab_id: String, title: String, url: String) -> (changed: bool)
        requires
            old(self).wf(),
        ensures
            final(self).wf(),
            changed == tab_changed(old(self)@, tab_id@, title@, url@),
            final(self)@ == after_update_tab(old(self)@, tab_id@, title@, url@),
            changed <==> !(old(self)@.tabs.contains_key(tab_id@) && old(self)@.tabs[tab_id@].title
                == title@ && old(self)@.tabs[tab_id@].url == url@),
            !changed ==> final(self)@ == old(self)@,
            final(self)@.tabs.contains_key(tab_id@),
            final(self)@.tabs[tab_id@].title == title@,
            final(self)@.tabs[tab_id@].url == url@,
            final(self).window_keys() == old(self).window_keys(),
    {
        let changed = match self.tabs.get(tab_id.as_str()) {
            Some(existing) => existing.title != title || existing.url != url,
            None => true,
        };
        if !changed {
            return false;
        }
        let ghost t = tab_id@;
        let record = TabState {
            id: tab_id.clone(),
            title: title,
            url: url,
            is_active: true,
            is_pinned: false,
        };
        self.tabs.insert(tab_id.clone(), record);
        let ghost old_windows = self.windows;
        let ghost f = |w: WindowView| activate_tab(w, t);
        let n = self.windows.len();
        let mut i: usize = 0;
        while i < n
            invariant
                n == old_windows.entry_seq().len(),
                n == self.windows.entry_seq().len(),
                i <= n,
                old_windows.wf(),
                self.windows.wf(),
                self.tabs.wf(),
                self.tabs@ == old(self)@.tabs.insert(t, reported_tab(t, title@, url@)),
                self.windows.keys() == old(self).windows.keys(),
                self.focused_window_id == old(self).focused_window_id,
                old_windows@ == old(self)@.windows,
                tab_id@ == t,
                f == (|w: WindowView| activate_tab(w, t)),
                forall|j: int|
                    0 <= j < n ==> (#[trigger] self.windows.entry_seq()[j]).0@
                        == old_windows.entry_seq()[j].0@,
                forall|j: int|
                    0 <= j < i ==> (#[trigger] self.windows.entry_seq()[j]).1@ == f(
                        old_windows.entry_seq()[j].1@,
                    ),
                forall|j: int|
                    i <= j < n ==> #[trigger] self.windows.entry_seq()[j]
                        == old_windows.entry_seq()[j],
            decreases n - i,
        {
            let w = self.windows.value_at(i);
            if contains_id(&w.tab_ids, &tab_id) {
                let mut nw = w.clone();
                nw.active_tab_id = Some(tab_id.clone());
                self.windows.set_value_at(i, nw);
            }
            i = i + 1;
        }
        proof {
            crate::table::lemma_pointwise(&old_windows, &self.windows, f);
            assert(self@.windows =~= after_update_tab(old(self)@, t, title@, url@).windows);
        }
        true
    }

    /// Makes sure the main window has a record; returns whether one was created
    /// (and the state thus needs saving).
    pub fn ensure_main_window(&mut self) -> (inserted: bool)
        requires
            old(self).wf(),
        ensures
            final(self).wf(),
            inserted == !old(self)@.windows.contains_key(main_label()),
            final(self)@ == after_ensure_main(old(self)@),
            inserted ==> final(self).window_keys() == old(self).window_keys().push(main_label()),
            !inserted ==> final(self).window_keys() == old(self).window_keys(),
    {
        if self.windows.contains_key("main") {
            return false;
        }
        let w = WindowState {
            id: "main".to_owned(),
            bounds: Bounds {
            x: None,
            y: None,
            width: MAIN_WINDOW_WIDTH_BITS,
            height: MAIN_WINDOW_HEIGHT_BITS,
        },
            is_focused: true,
            is_maximized: false,
            is_minimized: false,
            is_full_screen: false,
            tab_ids: Vec::new(),
            active_tab_id: None,
        };
        assert(w@.tab_ids =~= Seq::<Seq<char>>::empty());
        self.windows.insert("main".to_owned(), w);
        true
    }

    /// Replaces the record at position `i`, whose key is `label`, by `nw`.
    fn replace_window(&mut self, label: &str, i: usize, nw: WindowState)
        requires
            old(self).wf(),
            i < old(self).windows.entry_seq().len(),
            old(self).windows.entry_seq()[i as int].0@ == label@,
        ensures
            final(self).wf(),
            final(self)@ == (AppStateView {
                windows: old(self)@.windows.insert(label@, nw@),
                ..old(self)@
            }),
            final(self).window_keys() == old(self).window_keys(),
    {
        self.windows.set_value_at(i, nw);
    }

    /// Records that window `label` gained (`focused`) or lost focus.
    pub fn record_focus(&mut self, label: &str, focused: bool)
        requires
            old(self).wf(),
        ensures
            final(self).wf(),
            final(self)@ == after_focus(old(self)@, label@, focused),
            final(self).window_keys() == old(self).window_keys(),
    {
        if focused {
            self.focused_window_id = Some(label.to_owned());
        }
        match self.windows.find(label) {
            None => {},
            Some(i) => {
                proof {
                    self.windows.lemma_entries();
                }
                let mut nw = self.windows.value_at(i).clone();
                nw.is_focused = focused;
                self.replace_window(label, i, nw);
            },
        }
        assert(self@.windows =~= after_focus(old(self)@, label@, focused).windows);
    }

    /// Records that window `label` was resized to `width` x `height` pixels (bit
    /// patterns of the binary64 values).
    pub fn record_resize(&mut self, label: &str, width: u64, height: u64)
        requires
            old(self).wf(),
        ensures
            final(self).wf(),
            final(self)@ == after_resize(old(self)@, label@, width, height),
            final(self).window_keys() == old(self).window_keys(),
    {
        match self.windows.find(label) {
            None => {},
            Some(i) => {
                proof {
                    self.windows.lemma_entries();
                }
                let mut nw = self.windows.value_at(i).clone();
                nw.bounds.width = width;
                nw.bounds.height = height;
                self.replace_window(label, i, nw);
            },
        }
        assert(self@.windows =~= after_resize(old(self)@, label@, width, height).windows);
    }

    /// Records that window `label` was moved to `(x, y)`.
    pub fn record_move(&mut self, label: &str, x: u64, y: u64)
        requires
            old(self).wf(),
        ensures
            final(self).wf(),
            final(self)@ == after_move(old(self)@, label@, x, y),
            final(self).window_keys() == old(self).window_keys(),
    {
        match self.windows.find(label) {
            None => {},
            Some(i) => {
                proof {
                    self.windows.lemma_entries();
                }
                let mut nw = self.windows.value_at(i).clone();
                nw.bounds.x = Some(x);
                nw.bounds.y = Some(y);
                self.replace_window(label, i, nw);
            },
        }
        assert(self@.windows =~= after_move(old(self)@, label@, x, y).windows);
    }

    /// The recorded tabs of window `window_id`, in the window's order; empty if there
    /// is no such window.
    pub fn window_tabs(&self, window_id: &str) -> (r: Vec<TabState>)
        requires
            self.wf(),
        ensures
            tab_views(r@) == window_tabs_of(self@, window_id@),
            self@.windows.contains_key(window_id@) ==> tab_views(r@)
                == self@.windows[window_id@].tab_ids.filter(
                |id: Seq<char>| self@.tabs.contains_key(id),
            ).map_values(|id: Seq<char>| self@.tabs[id]),
            !self@.windows.contains_key(window_id@) ==> r@.len() == 0,
    {
        proof {
            law_window_tabs_are_its_recorded_tabs(self@, window_id@);
        }
        let mut r: Vec<TabState> = Vec::new();
        match self.windows.get(window_id) {
            None => {
                assert(tab_views(r@) =~= Seq::<TabView>::empty());
            },
            Some(w) => {
                let ghost ids = string_views(w.tab_ids@);
                let n = w.tab_ids.len();
                let mut i: usize = 0;
                while i < n
                    invariant
                        n == w.tab_ids@.len(),
                        ids == string_views(w.tab_ids@),
                        i <= n,
                        self.wf(),
                        tab_views(r@) == listed_tabs(ids.take(i as int), self@.tabs),
                    decreases n - i,
                {
                    assert(ids.take(i + 1).drop_last() =~= ids.take(i as int));
                    assert(ids.take(i + 1).last() == w.tab_ids@[i as int]@);
                    match self.tabs.get(w.tab_ids[i].as_str()) {
                        Some(t) => {
                            let c = t.clone();
                            r.push(c);
                            assert(tab_views(r@) =~= listed_tabs(ids.take(i as int), self@.tabs).push(
                                self@.tabs[ids[i as int]],
                            ));
                        },
                        None => {},
                    }
                    i = i + 1;
                }
                assert(ids.take(n as int) =~= ids);
            },
        }
        r
    }

    /// The page to open in the main window at start-up (see `startup_url`).
    pub fn startup_tab_url(&self) -> (r: Option<String>)
        requires
            self.wf(),
        ensures
            opt_view(r) == startup_url(self@),
    {
        match self.windows.get("main") {
            None => None,
            Some(w) => match &w.active_tab_id {
                Some(a) => match self.tabs.get(a.as_str()) {
                    Some(t) => Some(t.url.clone()),
                    None => None,
                },
                None => Some("https://www.notion.so".to_owned()),
            },
        }
    }

    /// The focused window, if one was recorded.
    pub fn focused_window_id(&self) -> (r: Option<String>)
        ensures
            opt_view(r) == self@.focused_window_id,
    {
        clone_opt_string(&self.focused_window_id)
    }

    /// Records `id` as the focused window (or none).
    pub fn set_focused_window_id(&mut self, id: Option<String>)
        requires
            old(self).wf(),
        ensures
            final(self).wf(),
            final(self)@ == (AppStateView { focused_window_id: opt_view(id), ..old(self)@ }),
    {
        self.focused_window_id = id;
    }

    /// Records window `w` under `key`, replacing any earlier record.
    pub fn insert_window(&mut self, key: String, w: WindowState)
        requires
            old(self).wf(),
        ensures
            final(self).wf(),
            final(self)@ == (AppStateView {
                windows: old(self)@.windows.insert(key@, w@),
                ..old(self)@
            }),
            old(self)@.windows.contains_key(key@) ==> final(self).window_keys() == old(
                self,
            ).window_keys(),
            !old(self)@.windows.contains_key(key@) ==> final(self).window_keys() == old(
                self,
            ).window_keys().push(key@),
    {
        self.windows.insert(key, w);
    }

    /// Records tab `t` under `key`, replacing any earlier record.
    pub fn insert_tab(&mut self, key: String, t: TabState)
        requires
            old(self).wf(),
        ensures
            final(self).wf(),
            final(self)@ == (AppStateView { tabs: old(self)@.tabs.insert(key@, t@), ..old(self)@ }),
    {
        self.tabs.insert(key, t);
    }

    /// The record of window `key`, if any.
    pub fn window(&self, key: &str) -> (r: Option<WindowState>)
        requires
            self.wf(),
        ensures
            r is Some <==> self@.windows.contains_key(key@),
            r matches Some(w) ==> w@ == self@.windows[key@],
    {
        match self.windows.get(key) {
            Some(w) => Some(w.clone()),
            None => None,
        }
    }

    /// The record of tab `key`, if any.
    pub fn tab(&self, key: &str) -> (r: Option<TabState>)
        requires
            self.wf(),
        ensures
            r is Some <==> self@.tabs.contains_key(key@),
            r matches Some(t) ==> t@ == self@.tabs[key@],
    {
        match self.tabs.get(key) {
            Some(t) => Some(t.clone()),
            None => None,
        }
    }

    /// Every window record with its key, each key once.
    pub fn window_entries(&self) -> (r: Vec<(String, WindowState)>)
        requires
            self.wf(),
        ensures
            crate::table::unique_keys(r@),
            crate::table::entries_map(r@) == self@.windows,
            r@.map_values(|e: (String, WindowState)| e.0@) == self.window_keys(),
    {
        let mut r: Vec<(String, WindowState)> = Vec::new();
        let n = self.windows.len();
        let mut i: usize = 0;
        while i < n
            invariant
                n == self.windows.entry_seq().len(),
                i <= n,
                r@.len() == i,
                forall|j: int|
                    0 <= j < i ==> (#[trigger] r@[j]).0@ == self.windows.entry_seq()[j].0@
                        && r@[j].1@ == self.windows.entry_seq()[j].1@,
            decreases n - i,
        {
            let k = self.windows.key_at(i).clone();
            let w = self.windows.value_at(i).clone();
            r.push((k, w));
            i = i + 1;
        }
        proof {
            self.windows.lemma_view();
            self.windows.lemma_entries();
            crate::table::lemma_entries_map_congruent(self.windows.entry_seq(), r@);
            self.windows.lemma_keys();
            assert(r@.map_values(|e: (String, WindowState)| e.0@) =~= self.window_keys());
        }
        r
    }

    /// Every tab record with its key, each key once.
    pub fn tab_entries(&self) -> (r: Vec<(String, TabState)>)
        requires
            self.wf(),
        ensures
            crate::table::unique_keys(r@),
            crate::table::entries_map(r@) == self@.tabs,
    {
        let mut r: Vec<(String, TabState)> = Vec::new();
        let n = self.tabs.len();
        let mut i: usize = 0;
        while i < n
            invariant
                n == self.tabs.entry_seq().len(),
                i <= n,
                r@.len() == i,
                forall|j: int|
                    0 <= j < i ==> (#[trigger] r@[j]).0@ == self.tabs.entry_seq()[j].0@
                        && r@[j].1@ == self.tabs.entry_seq()[j].1@,
            decreases n - i,
        {
            let k = self.tabs.key_at(i).clone();
            let t = self.tabs.value_at(i).clone();
            r.push((k, t));
            i = i + 1;
        }
        proof {
            self.tabs.lemma_view();
            self.tabs.lemma_entries();
            crate::table::lemma_entries_map_congruent(self.tabs.entry_seq(), r@);
        }
        r
    }
}

impl Default for AppState {
    fn default() -> (s: Self)
        ensures
            s.wf(),
            s@.windows == Map::<Seq<char>, WindowView>::empty(),
            s@.tabs == Map::<Seq<char>, TabView>::empty(),
            s@.focused_window_id is None,
            s.window_keys() == Seq::<Seq<char>>::empty(),
    {
        AppState::new()
    }
}

} // verus!

verus! {

/// Every window's active tab, where it has one, is among its tabs.
pub open spec fn all_active_listed(s: AppStateView) -> bool {
    forall|k: Seq<char>| #[trigger] s.windows.contains_key(k) ==> active_tab_listed(s.windows[k])
}

/// Closing a tab forgets it entirely: no record, no window lists it, and no
/// window keeps it as its active tab.
pub proof fn law_closed_tab_is_gone(s: AppStateView, t: Seq<char>)
    ensures
        !after_close_tab(s, t).tabs.contains_key(t),
        forall|k: Seq<char>|
            #[trigger] after_close_tab(s, t).windows.contains_key(k) ==> !after_close_tab(
                s,
                t,
            ).windows[k].tab_ids.contains(t) && after_close_tab(s, t).windows[k].active_tab_id
                != Some(t),
{
    assert forall|k: Seq<char>| #[trigger]
        after_close_tab(s, t).windows.contains_key(k) implies !after_close_tab(
        s,
        t,
    ).windows[k].tab_ids.contains(t) && after_close_tab(s, t).windows[k].active_tab_id != Some(
        t,
    ) by {
        let w = s.windows[k];
        let ids = without_id(w.tab_ids, t);
        lemma_without_id(w.tab_ids, t);
        if w.active_tab_id == Some(t) && ids.len() > 0 {
            assert(ids.contains(ids.last()));
        }
    }
}

/// Closing a tab keeps every window's active tab among its tabs.
pub proof fn law_close_tab_keeps_active_listed(s: AppStateView, t: Seq<char>)
    requires
        all_active_listed(s),
    ensures
        all_active_listed(after_close_tab(s, t)),
{
    assert forall|k: Seq<char>| #[trigger]
        after_close_tab(s, t).windows.contains_key(k) implies active_tab_listed(
        after_close_tab(s, t).windows[k],
    ) by {
        let w = s.windows[k];
        let ids = without_id(w.tab_ids, t);
        lemma_without_id(w.tab_ids, t);
        assert(active_tab_listed(w));
        if w.active_tab_id == Some(t) {
            if ids.len() > 0 {
                assert(ids[ids.len() - 1] == ids.last());
            }
        }
    }
}

/// Recording a tab report keeps every window's active tab among its tabs.
pub proof fn law_update_tab_keeps_active_listed(
    s: AppStateView,
    t: Seq<char>,
    title: Seq<char>,
    url: Seq<char>,
)
    requires
        all_active_listed(s),
    ensures
        all_active_listed(after_update_tab(s, t, title, url)),
{
    let s2 = after_update_tab(s, t, title, url);
    assert forall|k: Seq<char>| #[trigger] s2.windows.contains_key(k) implies active_tab_listed(
        s2.windows[k],
    ) by {
        assert(active_tab_listed(s.windows[k]));
    }
}

/// Opening a tab in a window keeps every window's active tab among its tabs.
pub proof fn law_add_tab_keeps_active_listed(s: AppStateView, w: Seq<char>, t: Seq<char>)
    requires
        all_active_listed(s),
    ensures
        all_active_listed(after_add_tab(s, w, t)),
{
    let s2 = after_add_tab(s, w, t);
    assert forall|k: Seq<char>| #[trigger] s2.windows.contains_key(k) implies active_tab_listed(
        s2.windows[k],
    ) by {
        let old_w = s.windows[k];
        assert(active_tab_listed(old_w));
        if k == w {
            if let Some(a) = old_w.active_tab_id {
                let i = choose|i: int| 0 <= i < old_w.tab_ids.len() && old_w.tab_ids[i] == a;
                assert(old_w.tab_ids.push(t)[i] == a);
            }
        }
    }
}

/// Creating the main window's record keeps every window's active tab among its tabs.
pub proof fn law_ensure_main_keeps_active_listed(s: AppStateView)
    requires
        all_active_listed(s),
    ensures
        all_active_listed(after_ensure_main(s)),
{
    let s2 = after_ensure_main(s);
    assert forall|k: Seq<char>| #[trigger] s2.windows.contains_key(k) implies active_tab_listed(
        s2.windows[k],
    ) by {
        if k != main_label() || s.windows.contains_key(main_label()) {
            assert(active_tab_listed(s.windows[k]));
        }
    }
}

/// Focus, resize and move events never touch tabs, and so keep every window's
/// active tab among its tabs.
pub proof fn law_window_events_keep_active_listed(
    s: AppStateView,
    label: Seq<char>,
    focused: bool,
    width: u64,
    height: u64,
    x: u64,
    y: u64,
)
    requires
        all_active_listed(s),
    ensures
        all_active_listed(after_focus(s, label, focused)),
        all_active_listed(after_resize(s, label, width, height)),
        all_active_listed(after_move(s, label, x, y)),
{
    let s1 = after_focus(s, label, focused);
    let s2 = after_resize(s, label, width, height);
    let s3 = after_move(s, label, x, y);
    assert forall|k: Seq<char>| #[trigger] s1.windows.contains_key(k) implies active_tab_listed(
        s1.windows[k],
    ) by {
        assert(active_tab_listed(s.windows[k]));
    }
    assert forall|k: Seq<char>| #[trigger] s2.windows.contains_key(k) implies active_tab_listed(
        s2.windows[k],
    ) by {
        assert(active_tab_listed(s.windows[k]));
    }
    assert forall|k: Seq<char>| #[trigger] s3.windows.contains_key(k) implies active_tab_listed(
        s3.windows[k],
    ) by {
        assert(active_tab_listed(s.windows[k]));
    }
}

/// Reporting the same title and URL a second time changes nothing, so nothing
/// needs saving.
pub proof fn law_repeated_update_is_no_change(
    s: AppStateView,
    t: Seq<char>,
    title: Seq<char>,
    url: Seq<char>,
)
    ensures
        !tab_changed(after_update_tab(s, t, title, url), t, title, url),
        after_update_tab(after_update_tab(s, t, title, url), t, title, url) == after_update_tab(
            s,
            t,
            title,
            url,
        ),
{
}

/// Closing a tab that no window holds, and that is no window's active tab, leaves
/// every window as it was.
pub proof fn law_close_unlisted_tab_keeps_windows(s: AppStateView, t: Seq<char>)
    requires
        forall|k: Seq<char>| #[trigger]
            s.windows.contains_key(k) ==> !s.windows[k].tab_ids.contains(t)
                && s.windows[k].active_tab_id != Some(t),
    ensures
        after_close_tab(s, t).windows == s.windows,
{
    let w2 = after_close_tab(s, t).windows;
    assert forall|k: Seq<char>| #[trigger] w2.contains_key(k) implies w2[k] == s.windows[k] by {
        lemma_without_id(s.windows[k].tab_ids, t);
    }
    assert(w2 =~= s.windows);
}

/// Creating the main window's record a second time changes nothing.
pub proof fn law_ensure_main_idempotent(s: AppStateView)
    ensures
        after_ensure_main(s).windows.contains_key(main_label()),
        after_ensure_main(after_ensure_main(s)) == after_ensure_main(s),
{
}

/// Closing tab `t` forgets exactly `t`: every other tab is still recorded exactly
/// when it was before, with the same record.
pub proof fn law_close_tab_forgets_only_that_tab(s: AppStateView, t: Seq<char>, k: Seq<char>)
    ensures
        !after_close_tab(s, t).tabs.contains_key(t),
        k != t ==> (after_close_tab(s, t).tabs.contains_key(k) <==> s.tabs.contains_key(k)),
        k != t && s.tabs.contains_key(k) ==> after_close_tab(s, t).tabs[k] == s.tabs[k],
{
}

/// A tab's report is a change exactly when the tab has no record or its recorded
/// title or URL differs from the reported one. After the report the tab is recorded
/// with the reported title and URL; a report that is no change leaves the state as
/// it was, and no other tab's record is touched.
pub proof fn law_update_tab_records_the_reported_page(
    s: AppStateView,
    t: Seq<char>,
    title: Seq<char>,
    url: Seq<char>,
    k: Seq<char>,
)
    ensures
        !s.tabs.contains_key(t) ==> tab_changed(s, t, title, url),
        s.tabs.contains_key(t) && s.tabs[t].url != url ==> tab_changed(s, t, title, url),
        s.tabs.contains_key(t) && s.tabs[t].title != title ==> tab_changed(s, t, title, url),
        s.tabs.contains_key(t) && s.tabs[t].title == title && s.tabs[t].url == url ==> !tab_changed(
            s,
            t,
            title,
            url,
        ) && after_update_tab(s, t, title, url) == s,
        after_update_tab(s, t, title, url).tabs.contains_key(t),
        after_update_tab(s, t, title, url).tabs[t].title == title,
        after_update_tab(s, t, title, url).tabs[t].url == url,
        k != t ==> (after_update_tab(s, t, title, url).tabs.contains_key(k) <==> s.tabs.contains_key(
            k,
        )),
        k != t && s.tabs.contains_key(k) ==> after_update_tab(s, t, title, url).tabs[k] == s.tabs[k],
{
}

/// The tabs listed for a list of ids are the records of exactly those ids that have
/// one, in the order of the list, whatever the records hold.
pub proof fn law_listed_tabs_are_the_recorded_ids(
    ids: Seq<Seq<char>>,
    tabs: Map<Seq<char>, TabView>,
)
    ensures
        listed_tabs(ids, tabs) == ids.filter(|id: Seq<char>| tabs.contains_key(id)).map_values(
            |id: Seq<char>| tabs[id],
        ),
    decreases ids.len(),
{
    reveal_with_fuel(Seq::<_>::filter, 1);
    let pred = |id: Seq<char>| tabs.contains_key(id);
    let rec = |id: Seq<char>| tabs[id];
    if ids.len() == 0 {
        assert(ids.filter(pred) =~= Seq::<Seq<char>>::empty());
        assert(listed_tabs(ids, tabs) =~= ids.filter(pred).map_values(rec));
    } else {
        law_listed_tabs_are_the_recorded_ids(ids.drop_last(), tabs);
        let sub = ids.drop_last().filter(pred);
        if tabs.contains_key(ids.last()) {
            assert(ids.filter(pred) == sub.push(ids.last()));
            assert(sub.push(ids.last()).map_values(rec) =~= sub.map_values(rec).push(
                tabs[ids.last()],
            ));
        } else {
            assert(ids.filter(pred) == sub);
        }
    }
}

/// The tabs of a window are the records of those of its tab ids that have one, in
/// the window's order; a window with no record has none.
pub proof fn law_window_tabs_are_its_recorded_tabs(s: AppStateView, w: Seq<char>)
    ensures
        s.windows.contains_key(w) ==> window_tabs_of(s, w) == s.windows[w].tab_ids.filter(
            |id: Seq<char>| s.tabs.contains_key(id),
        ).map_values(|id: Seq<char>| s.tabs[id]),
        !s.windows.contains_key(w) ==> window_tabs_of(s, w).len() == 0,
{
    if s.windows.contains_key(w) {
        law_listed_tabs_are_the_recorded_ids(s.windows[w].tab_ids, s.tabs);
    }
}

/// `without_id` keeps, in order, exactly the ids other than `t`.
pub proof fn lemma_without_id_filters(ids: Seq<Seq<char>>, t: Seq<char>)
    ensures
        without_id(ids, t) == ids.filter(|x: Seq<char>| x != t),
    decreases ids.len(),
{
    reveal_with_fuel(Seq::<_>::filter, 1);
    if ids.len() > 0 {
        lemma_without_id_filters(ids.drop_last(), t);
    } else {
        assert(ids.filter(|x: Seq<char>| x != t) =~= ids);
        assert(without_id(ids, t) =~= ids);
    }
}

/// Closing tab `t` changes each window only by dropping `t` from its tab list
/// (keeping the other tabs in order) and, where `t` was the active tab, making the
/// last remaining tab active (none if no tab remains); no window appears or goes.
pub proof fn law_close_tab_window_effect(s: AppStateView, t: Seq<char>, k: Seq<char>)
    ensures
        after_close_tab(s, t).windows.contains_key(k) <==> s.windows.contains_key(k),
        after_close_tab(s, t).focused_window_id == s.focused_window_id,
        s.windows.contains_key(k) ==> ({
            let before = s.windows[k];
            let after = after_close_tab(s, t).windows[k];
            let rest = before.tab_ids.filter(|x: Seq<char>| x != t);
            &&& after.tab_ids == rest
            &&& after.id == before.id
            &&& after.bounds == before.bounds
            &&& after.is_focused == before.is_focused
            &&& after.is_maximized == before.is_maximized
            &&& after.is_minimized == before.is_minimized
            &&& after.is_full_screen == before.is_full_screen
            &&& before.active_tab_id != Some(t) ==> after.active_tab_id == before.active_tab_id
            &&& before.active_tab_id == Some(t) && rest.len() > 0 ==> after.active_tab_id == Some(
                rest[rest.len() - 1],
            )
            &&& before.active_tab_id == Some(t) && rest.len() == 0 ==> after.active_tab_id is None
        }),
{
    if s.windows.contains_key(k) {
        lemma_without_id_filters(s.windows[k].tab_ids, t);
    }
}

/// A report that is a change records the tab as active, with the reported title
/// and URL and not pinned, and makes it the active tab of exactly the windows that
/// hold it; every other window, and every window's tab list, is left as it was.
pub proof fn law_update_tab_window_effect(
    s: AppStateView,
    t: Seq<char>,
    title: Seq<char>,
    url: Seq<char>,
    k: Seq<char>,
)
    requires
        tab_changed(s, t, title, url),
    ensures
        ({
            let r = after_update_tab(s, t, title, url).tabs[t];
            r.id == t && r.title == title && r.url == url && r.is_active && !r.is_pinned
        }),
        after_update_tab(s, t, title, url).windows.contains_key(k) <==> s.windows.contains_key(k),
        after_update_tab(s, t, title, url).focused_window_id == s.focused_window_id,
        s.windows.contains_key(k) ==> after_update_tab(s, t, title, url).windows[k].tab_ids
            == s.windows[k].tab_ids,
        s.windows.contains_key(k) && s.windows[k].tab_ids.contains(t) ==> after_update_tab(
            s,
            t,
            title,
            url,
        ).windows[k].active_tab_id == Some(t),
        s.windows.contains_key(k) && !s.windows[k].tab_ids.contains(t) ==> after_update_tab(
            s,
            t,
            title,
            url,
        ).windows[k] == s.windows[k],
{
}

/// Opening tab `t` in an existing window appends it to that window's list and
/// changes nothing else; opening it in a missing window changes nothing.
pub proof fn law_add_tab_appends(s: AppStateView, w: Seq<char>, t: Seq<char>, k: Seq<char>)
    ensures
        after_add_tab(s, w, t).tabs == s.tabs,
        after_add_tab(s, w, t).focused_window_id == s.focused_window_id,
        after_add_tab(s, w, t).windows.contains_key(k) <==> s.windows.contains_key(k),
        s.windows.contains_key(w) ==> after_add_tab(s, w, t).windows[w].tab_ids
            == s.windows[w].tab_ids.push(t),
        s.windows.contains_key(w) ==> after_add_tab(s, w, t).windows[w].active_tab_id
            == s.windows[w].active_tab_id,
        k != w && s.windows.contains_key(k) ==> after_add_tab(s, w, t).windows[k] == s.windows[k],
        !s.windows.contains_key(w) ==> after_add_tab(s, w, t) == s,
{
}

} // verus!
