//! Character-level text helpers with their meaning stated over `Seq<char>`.

use vstd::prelude::*;
use vstd::string::StrSliceExecFns;

verus! {

/// Whether `p` is a prefix of `s`.
pub open spec fn has_prefix(s: Seq<char>, p: Seq<char>) -> bool {
    p.len() <= s.len() && s.take(p.len() as int) == p
}

/// `s` with every occurrence of `pat` removed, scanning left to right without
/// overlap (what `str::replace(pat, "")` gives); a empty `pat` changes nothing.
pub open spec fn remove_all(s: Seq<char>, pat: Seq<char>) -> Seq<char>
    decreases s.len(),
{
    if pat.len() == 0 || s.len() < pat.len() {
        s
    } else if s.take(pat.len() as int) == pat {
        remove_all(s.skip(pat.len() as int), pat)
    } else {
        seq![s[0]] + remove_all(s.skip(1), pat)
    }
}

/// Removing a pattern whose first character never occurs leaves the text as is.
pub proof fn lemma_remove_all_absent(s: Seq<char>, pat: Seq<char>)
    requires
        pat.len() > 0,
        forall|i: int| 0 <= i < s.len() ==> s[i] != pat[0],
    ensures
        remove_all(s, pat) == s,
    decreases s.len(),
{
    if s.len() >= pat.len() {
        assert(s.take(pat.len() as int)[0] != pat[0]);
        lemma_remove_all_absent(s.skip(1), pat);
        assert(seq![s[0]] + s.skip(1) =~= s);
    }
}

/// Whether two strings are equal.
pub fn str_eq(a: &str, b: &str) -> (r: bool)
    ensures
        r == (a@ == b@),
{
    let x: String = a.to_owned();
    let y: String = b.to_owned();
    x == y
}

/// Whether `pat` occurs in `chars` at position `at`.
fn matches_at(chars: &Vec<char>, at: usize, pat: &Vec<char>) -> (r: bool)
    requires
        at + pat@.len() <= chars@.len(),
    ensures
        r == (chars@.subrange(at as int, at + pat@.len()) == pat@),
{
    let m = pat.len();
    let total = chars.len();
    let mut j: usize = 0;
    while j < m
        invariant
            m == pat@.len(),
            total == chars@.len(),
            at + m <= chars@.len(),
            j <= m,
            forall|k: int| 0 <= k < j ==> chars@[at + k] == pat@[k],
        decreases m - j,
    {
        if chars[at + j] != pat[j] {
            assert(chars@.subrange(at as int, at + m)[j as int] != pat@[j as int]);
            return false;
        }
        j = j + 1;
    }
    assert(chars@.subrange(at as int, at + m) =~= pat@);
    true
}

/// The characters of `s`.
pub fn chars_of(s: &str) -> (r: Vec<char>)
    ensures
        r@ == s@,
{
    let n = s.unicode_len();
    let mut r: Vec<char> = Vec::new();
    let mut i: usize = 0;
    while i < n
        invariant
            n == s@.len(),
            i <= n,
            r@ == s@.take(i as int),
        decreases n - i,
    {
        let c = s.get_char(i);
        r.push(c);
        assert(r@ =~= s@.take(i + 1));
        i = i + 1;
    }
    assert(s@.take(n as int) =~= s@);
    r
}

/// Whether `s` starts with `p`.
pub fn starts_with(s: &str, p: &str) -> (r: bool)
    ensures
        r == has_prefix(s@, p@),
{
    let sc = chars_of(s);
    let pc = chars_of(p);
    if pc.len() > sc.len() {
        return false;
    }
    let r = matches_at(&sc, 0, &pc);
    assert(sc@.subrange(0, pc@.len() as int) =~= sc@.take(pc@.len() as int));
    r
}

/// `s` with every occurrence of `pat` removed, as `remove_all` states.
pub fn remove_all_exec(s: &str, pat: &str) -> (r: String)
    ensures
        r@ == remove_all(s@, pat@),
{
    let sc = chars_of(s);
    let pc = chars_of(pat);
    let n = sc.len();
    let m = pc.len();
    if m == 0 {
        return s.to_owned();
    }
    let mut out: Vec<char> = Vec::new();
    let mut i: usize = 0;
    assert(sc@.skip(0) =~= s@);
    assert(out@ + remove_all(s@, pat@) =~= remove_all(s@, pat@));
    while i < n
        invariant
            n == sc@.len(),
            m == pc@.len(),
            m > 0,
            sc@ == s@,
            pc@ == pat@,
            i <= n,
            out@ + remove_all(sc@.skip(i as int), pc@) == remove_all(s@, pat@),
        decreases n - i,
    {
        let ghost rest = sc@.skip(i as int);
        if n - i >= m && matches_at(&sc, i, &pc) {
            assert(rest.take(m as int) =~= sc@.subrange(i as int, i + m));
            assert(rest.skip(m as int) =~= sc@.skip(i + m));
            i = i + m;
        } else {
            if n - i >= m {
                assert(rest.take(m as int) =~= sc@.subrange(i as int, i + m));
            }
            assert(rest.skip(1) =~= sc@.skip(i + 1));
            assert(rest[0] == sc@[i as int]);
            let c = sc[i];
            out.push(c);
            assert(out@ + remove_all(sc@.skip(i + 1), pc@) =~= (out@.drop_last() + (seq![c]
                + remove_all(rest.skip(1), pc@))));
            i = i + 1;
        }
    }
    assert(sc@.skip(n as int) =~= Seq::<char>::empty());
    assert(out@ + remove_all(sc@.skip(n as int), pc@) =~= out@);
    let mut r = String::new();
    let k = out.len();
    let mut j: usize = 0;
    while j < k
        invariant
            k == out@.len(),
            j <= k,
            r@ == out@.take(j as int),
        decreases k - j,
    {
        let c = out[j];
        let mut buf = String::new();
        push_char(&mut buf, c);
        r.append(buf.as_str());
        assert(r@ =~= out@.take(j + 1));
        j = j + 1;
    }
    assert(out@.take(k as int) =~= out@);
    r
}

/// Calls `String::push`. Claimed (std documentation): the character is appended.
#[verifier::external_body]
fn push_char(s: &mut String, c: char)
    ensures
        final(s)@ == old(s)@.push(c),
{
    s.push(c);
}

} // verus!
