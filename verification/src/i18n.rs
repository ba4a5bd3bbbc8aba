//! Translations of interface strings, one locale at a time.

use vstd::prelude::*;
use vstd::hash_map::StringHashMap;
use vstd::string::StrSliceExecFns;
use vstd::utf8::encode_utf8;

verus! {

/// A character allowed in a locale name: ASCII letter or digit, `-` or `_`.
pub open spec fn is_locale_char(c: char) -> bool {
    ('a' <= c && c <= 'z') || ('A' <= c && c <= 'Z') || ('0' <= c && c <= '9') || c == '-' || c
        == '_'
}

/// The longest locale name accepted, in bytes.
pub const MAX_LOCALE_LEN: usize = 16;

/// A locale name is safe to use in a path: non-empty, at most 16 bytes, and made
/// only of ASCII letters, digits, `-` and `_` (so no separators or `..`).
pub open spec fn is_valid_locale(s: Seq<char>) -> bool {
    &&& s.len() > 0
    &&& encode_utf8(s).len() <= MAX_LOCALE_LEN
    &&& forall|i: int| 0 <= i < s.len() ==> #[trigger] is_locale_char(s[i])
}

/// A UTF-8 encoding has at least one byte per character.
pub proof fn lemma_encoding_at_least_chars(s: Seq<char>)
    ensures
        encode_utf8(s).len() >= s.len(),
    decreases s.len(),
{
    if s.len() > 0 {
        lemma_encoding_at_least_chars(s.drop_first());
        assert(vstd::utf8::encode_scalar(s[0] as u32).len() >= 1);
    }
}

/// Validates that a locale string is safe and well-formed.
pub fn validate_locale(locale: &str) -> (ok: bool)
    ensures
        ok == is_valid_locale(locale@),
{
    let n = locale.unicode_len();
    if n == 0 || n > MAX_LOCALE_LEN {
        proof {
            lemma_encoding_at_least_chars(locale@);
        }
        return false;
    }
    let mut i: usize = 0;
    while i < n
        invariant
            n == locale@.len(),
            i <= n,
            forall|j: int| 0 <= j < i ==> #[trigger] is_locale_char(locale@[j]),
        decreases n - i,
    {
        let c = locale.get_char(i);
        let allowed = ('a' <= c && c <= 'z') || ('A' <= c && c <= 'Z') || ('0' <= c && c <= '9')
            || c == '-' || c == '_';
        if !allowed {
            assert(!is_locale_char(locale@[i as int]));
            return false;
        }
        i = i + 1;
    }
    proof {
        assert(vstd::utf8::is_ascii_chars(locale@)) by {
            assert forall|j: int| 0 <= j < locale@.len() implies '\0' <= #[trigger] locale@[j]
                <= '\u{7f}' by {
                assert(is_locale_char(locale@[j]));
            }
        }
        vstd::utf8::is_ascii_chars_encode_utf8(locale@);
    }
    true
}

/// The entries of the JSON object in `text`, in key order, each with its value if
/// that value is a string; `None` if `text` is not a JSON object.
pub uninterp spec fn json_object_entries(text: Seq<char>) -> Option<Seq<(Seq<char>, Option<Seq<char>>)>>;

/// Calls `serde_json::from_str` into a `serde_json::Map` (a JSON object with its
/// keys in order, a repeated key keeping its last value) and keeps each value that
/// is a `Value::String`. Claimed: the result is a function of the text
/// (`json_object_entries`).
#[verifier::external_body]
fn parse_json_object(text: &str) -> (r: Option<Vec<(String, Option<String>)>>)
    ensures
        r.deep_view() == json_object_entries(text@),
{
    match serde_json::from_str::<serde_json::Map<String, serde_json::Value>>(text) {
        Ok(map) => Some(
            map.into_iter()
                .map(|(k, v)| match v {
                    serde_json::Value::String(s) => (k, Some(s)),
                    _ => (k, None),
                })
                .collect(),
        ),
        Err(_) => None,
    }
}

/// The translations a catalog's entries give: each string-valued entry, inserted
/// in order; entries with other values are skipped.
pub open spec fn catalog_map(entries: Seq<(Seq<char>, Option<Seq<char>>)>) -> Map<
    Seq<char>,
    Seq<char>,
>
    decreases entries.len(),
{
    if entries.len() == 0 {
        Map::empty()
    } else {
        let rest = catalog_map(entries.drop_last());
        match entries.last().1 {
            Some(v) => rest.insert(entries.last().0, v),
            None => rest,
        }
    }
}

/// The translations of the current locale and the locale's name.
pub struct I18nManager {
    translations: StringHashMap<String>,
    locale: String,
}

/// The mathematical value of a translation manager.
pub struct I18nView {
    pub translations: Map<Seq<char>, Seq<char>>,
    pub locale: Seq<char>,
}

impl View for I18nManager {
    type V = I18nView;

    closed spec fn view(&self) -> I18nView {
        I18nView {
            translations: self.translations@.map_values(|v: String| v@),
            locale: self.locale@,
        }
    }
}

impl I18nManager {
    /// No translations, locale `en_US`.
    pub fn new() -> (m: Self)
        ensures
            m@.translations == Map::<Seq<char>, Seq<char>>::empty(),
            m@.locale == "en_US"@,
    {
        let m = I18nManager { translations: StringHashMap::new(), locale: "en_US".to_owned() };
        assert(m@.translations =~= Map::<Seq<char>, Seq<char>>::empty());
        m
    }

    /// The translation of `key`, or `key` itself when there is none.
    pub fn get(&self, key: &str) -> (s: String)
        ensures
            s@ == if self@.translations.contains_key(key@) {
                self@.translations[key@]
            } else {
                key@
            },
    {
        match self.translations.get(key) {
            Some(v) => v.clone(),
            None => key.to_owned(),
        }
    }

    /// The current locale.
    pub fn locale(&self) -> (s: String)
        ensures
            s@ == self@.locale,
    {
        self.locale.clone()
    }

    /// Switches to `locale` if it is a valid locale name; an invalid name is
    /// refused and changes nothing. Returns whether the locale was accepted (and its
    /// catalog may then be read, see `apply_catalog`).
    pub fn load_locale(&mut self, locale: &str) -> (accepted: bool)
        ensures
            accepted == is_valid_locale(locale@),
            accepted ==> final(self)@ == (I18nView { locale: locale@, ..old(self)@ }),
            !accepted ==> final(self)@ == old(self)@,
    {
        if !validate_locale(locale) {
            return false;
        }
        self.locale = locale.to_owned();
        true
    }

    /// Replaces the translations by those of the JSON catalog `content`; when
    /// `content` is not a JSON object nothing changes. Returns whether it was one.
    pub fn apply_catalog(&mut self, content: &str) -> (applied: bool)
        ensures
            applied == json_object_entries(content@) is Some,
            applied ==> final(self)@ == (I18nView {
                translations: catalog_map(json_object_entries(content@)->Some_0),
                ..old(self)@
            }),
            !applied ==> final(self)@ == old(self)@,
    {
        match parse_json_object(content) {
            Some(entries) => {
                self.replace_translations(&entries);
                true
            },
            None => false,
        }
    }

    /// Replaces the translations by the string-valued entries of a catalog, in
    /// order (a later entry for a key overrides an earlier one); entries whose value
    /// is not a string are skipped. The locale is unchanged.
    pub fn replace_translations(&mut self, entries: &Vec<(String, Option<String>)>)
        ensures
            final(self)@ == (I18nView {
                translations: catalog_map(entries.deep_view()),
                ..old(self)@
            }),
    {
        let ghost ev = entries.deep_view();
        self.translations.clear();
        let n = entries.len();
        let mut i: usize = 0;
        while i < n
            invariant
                n == entries@.len(),
                ev == entries.deep_view(),
                i <= n,
                self.locale == old(self).locale,
                self.translations@.map_values(|v: String| v@) == catalog_map(ev.take(i as int)),
            decreases n - i,
        {
            assert(ev.take(i + 1).drop_last() =~= ev.take(i as int));
            assert(ev[i as int] == entries@[i as int].deep_view());
            let (k, v) = &entries[i];
            match v {
                Some(s) => {
                    let kc = k.clone();
                    let sc = s.clone();
                    self.translations.insert(kc, sc);
                    assert(self.translations@.map_values(|v: String| v@) =~= catalog_map(
                        ev.take(i as int),
                    ).insert(k@, s@));
                },
                None => {},
            }
            i = i + 1;
        }
        assert(ev.take(n as int) =~= ev);
    }
}

impl Default for I18nManager {
    fn default() -> (m: Self)
        ensures
            m@.translations == Map::<Seq<char>, Seq<char>>::empty(),
            m@.locale == "en_US"@,
    {
        I18nManager::new()
    }
}

} // verus!

verus! {

/// A valid locale name is safe to join to a directory: it holds no path separator
/// (`/` or `\`), no `.` (so no parent reference), and at most 16 bytes.
pub proof fn law_valid_locale_is_path_safe(s: Seq<char>)
    requires
        is_valid_locale(s),
    ensures
        !s.contains('/'),
        !s.contains('\\'),
        !s.contains('.'),
        encode_utf8(s).len() <= MAX_LOCALE_LEN,
        s.len() > 0,
{
    assert forall|c: char| #![auto] c == '/' || c == '\\' || c == '.' implies !s.contains(c) by {
        if s.contains(c) {
            let i = choose|i: int| 0 <= i < s.len() && s[i] == c;
            assert(is_locale_char(s[i]));
        }
    }
}

} // verus!
