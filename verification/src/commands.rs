//! The checks that guard the privileged commands the web view may invoke.

use vstd::prelude::*;
use vstd::utf8::*;

use crate::text::str_eq;

verus! {

broadcast use encode_utf8_decode_utf8;

/// The origin `scheme://host` of a page (an absent host reads as empty).
pub open spec fn origin_text(scheme: Seq<char>, host: Option<Seq<char>>) -> Seq<char> {
    scheme + "://"@ + match host {
        Some(h) => h,
        None => Seq::empty(),
    }
}

/// The origins allowed in development builds besides the configured ones.
pub open spec fn is_dev_origin(origin: Seq<char>) -> bool {
    origin == "tauri://localhost"@ || origin == "wry://localhost"@
}

/// Whether a command from `origin` may run: the origin must be known and be one of
/// the trusted domains, or, where development origins are allowed, be a local
/// development origin.
pub open spec fn origin_trusted(
    origin: Option<Seq<char>>,
    trusted_domains: Seq<Seq<char>>,
    allow_dev_origins: bool,
) -> bool {
    match origin {
        None => false,
        Some(o) => trusted_domains.contains(o) || (allow_dev_origins && is_dev_origin(o)),
    }
}

/// The origin `scheme://host` of a page.
pub fn command_origin(scheme: &str, host: Option<&str>) -> (o: String)
    ensures
        o@ == origin_text(scheme@, match host {
            Some(h) => Some(h@),
            None => None,
        }),
{
    let mut o = scheme.to_owned();
    o.append("://");
    match host {
        Some(h) => {
            o.append(h);
        },
        None => {
            assert(o@ =~= o@ + Seq::<char>::empty());
        },
    }
    o
}

/// Whether a command from `origin` (`None`: the origin could not be determined)
/// may run, see `origin_trusted`.
pub fn is_trusted_origin(
    origin: Option<&str>,
    trusted_domains: &Vec<String>,
    allow_dev_origins: bool,
) -> (trusted: bool)
    ensures
        trusted == origin_trusted(
            match origin {
                Some(o) => Some(o@),
                None => None,
            },
            crate::state::string_views(trusted_domains@),
            allow_dev_origins,
        ),
{
    let o = match origin {
        Some(o) => o,
        None => {
            return false;
        },
    };
    let n = trusted_domains.len();
    let mut i: usize = 0;
    while i < n
        invariant
            n == trusted_domains@.len(),
            origin == Some(o),
            i <= n,
            forall|j: int| 0 <= j < i ==> trusted_domains@[j]@ != o@,
        decreases n - i,
    {
        if str_eq(trusted_domains[i].as_str(), o) {
            let ghost sv = crate::state::string_views(trusted_domains@);
            assert(sv.len() == n);
            assert(sv[i as int] == o@);
            assert(sv.contains(o@));
            return true;
        }
        i = i + 1;
    }
    assert(!crate::state::string_views(trusted_domains@).contains(o@)) by {
        if crate::state::string_views(trusted_domains@).contains(o@) {
            let j = choose|j: int|
                0 <= j < n && crate::state::string_views(trusted_domains@)[j] == o@;
            assert(trusted_domains@[j]@ == o@);
        }
    }
    if allow_dev_origins {
        str_eq(o, "tauri://localhost") || str_eq(o, "wry://localhost")
    } else {
        false
    }
}

/// Refuses a command from an untrusted origin with the error `Untrusted origin`.
pub fn check_command_origin(
    origin: Option<&str>,
    trusted_domains: &Vec<String>,
    allow_dev_origins: bool,
) -> (r: Result<(), String>)
    ensures
        r is Ok == origin_trusted(
            match origin {
                Some(o) => Some(o@),
                None => None,
            },
            crate::state::string_views(trusted_domains@),
            allow_dev_origins,
        ),
        r matches Err(m) ==> m@ == "Untrusted origin"@,
{
    if is_trusted_origin(origin, trusted_domains, allow_dev_origins) {
        Ok(())
    } else {
        Err("Untrusted origin".to_owned())
    }
}

/// Refuses a tab report whose URL differs from the URL of the page that sent it
/// (when that URL is known), with the error `Mismatched URL`.
pub fn check_reported_url(page_url: Option<&str>, reported_url: &str) -> (r: Result<(), String>)
    ensures
        r is Ok == match page_url {
            Some(u) => u@ == reported_url@,
            None => true,
        },
        r matches Err(m) ==> m@ == "Mismatched URL"@,
{
    match page_url {
        Some(u) => {
            if str_eq(u, reported_url) {
                Ok(())
            } else {
                Err("Mismatched URL".to_owned())
            }
        },
        None => Ok(()),
    }
}

/// The most bytes of a network event that are logged.
pub const MAX_LOGGED_EVENT: usize = 512;

/// What is logged of a network event: events over 512 bytes are cut to their first
/// 512 bytes and marked with `...`.
pub open spec fn logged_event(event: Seq<char>) -> Seq<char> {
    if encode_utf8(event).len() > MAX_LOGGED_EVENT {
        decode_utf8(encode_utf8(event).subrange(0, MAX_LOGGED_EVENT as int)) + "..."@
    } else {
        event
    }
}

/// Cuts a network event to what is logged (see `logged_event`). The cut must fall
/// between characters.
pub fn truncate_network_event(event: &str) -> (r: String)
    requires
        encode_utf8(event@).len() <= usize::MAX,
        encode_utf8(event@).len() > MAX_LOGGED_EVENT ==> is_char_boundary(
            encode_utf8(event@),
            MAX_LOGGED_EVENT as int,
        ),
    ensures
        r@ == logged_event(event@),
{
    if event.len() > MAX_LOGGED_EVENT {
        let (head, _tail) = event.split_at(MAX_LOGGED_EVENT);
        assert(head@ == decode_utf8(encode_utf8(head@)));
        let mut r = head.to_owned();
        r.append("...");
        r
    } else {
        event.to_owned()
    }
}

/// The page a new tab opens.
pub fn home_url() -> (u: String)
    ensures
        u@ == "https://www.notion.so"@,
{
    "https://www.notion.so".to_owned()
}

} // verus!
