//! A string-keyed table: the insertion-ordered association list that backs the
//! window and tab registries of the application state.

use vstd::prelude::*;

verus! {

/// Entries keyed by strings; no key occurs twice (see `wf`).
pub struct Table<V> {
    entries: Vec<(String, V)>,
}

/// No two entries share a key.
pub open spec fn unique_keys<V>(s: Seq<(String, V)>) -> bool {
    forall|i: int, j: int| 0 <= i < s.len() && 0 <= j < s.len() && i != j ==> s[i].0@ != s[j].0@
}

/// Whether some entry has key `k`.
pub open spec fn has_key<V>(s: Seq<(String, V)>, k: Seq<char>) -> bool {
    exists|i: int| 0 <= i < s.len() && s[i].0@ == k
}

/// The position of the entry with key `k` (meaningful where `has_key` holds).
pub open spec fn pos_of<V>(s: Seq<(String, V)>, k: Seq<char>) -> int {
    choose|i: int| 0 <= i < s.len() && s[i].0@ == k
}

/// The map that an entry sequence stands for: each key to the view of its value.
pub open spec fn entries_map<V: View>(s: Seq<(String, V)>) -> Map<Seq<char>, V::V> {
    Map::new(|k: Seq<char>| has_key(s, k), |k: Seq<char>| s[pos_of(s, k)].1@)
}

/// In a sequence with unique keys, the entry at `i` is the one that its key maps to.
pub proof fn lemma_pos_of<V>(s: Seq<(String, V)>, i: int)
    requires
        unique_keys(s),
        0 <= i < s.len(),
    ensures
        has_key(s, s[i].0@),
        pos_of(s, s[i].0@) == i,
{
    assert(has_key(s, s[i].0@));
}

/// Looking up any key of a sequence with unique keys finds its own entry.
pub proof fn lemma_entries_map_at<V: View>(s: Seq<(String, V)>, i: int)
    requires
        unique_keys(s),
        0 <= i < s.len(),
    ensures
        entries_map(s).contains_key(s[i].0@),
        entries_map(s)[s[i].0@] == s[i].1@,
{
    lemma_pos_of(s, i);
}

impl<V: View> View for Table<V> {
    type V = Map<Seq<char>, V::V>;

    closed spec fn view(&self) -> Map<Seq<char>, V::V> {
        entries_map(self.entries@)
    }
}

impl<V: View> Table<V> {
    /// The entries, in insertion order.
    pub closed spec fn entry_seq(&self) -> Seq<(String, V)> {
        self.entries@
    }

    /// The keys, in insertion order.
    pub closed spec fn keys(&self) -> Seq<Seq<char>> {
        self.entries@.map_values(|e: (String, V)| e.0@)
    }

    /// Well-formedness: no key occurs twice.
    pub closed spec fn wf(&self) -> bool {
        unique_keys(self.entries@)
    }

    /// The keys are those of the entry sequence, position by position.
    pub proof fn lemma_keys(&self)
        ensures
            self.keys().len() == self.entry_seq().len(),
            forall|i: int| 0 <= i < self.keys().len() ==> #[trigger] self.keys()[i] == self.entry_seq()[i].0@,
    {
    }

    /// The view is the map of the entry sequence.
    pub proof fn lemma_view(&self)
        ensures
            self@ == entries_map(self.entry_seq()),
    {
    }

    /// Every entry is reachable through the map, and each key of the map has an entry.
    pub proof fn lemma_entries(&self)
        requires
            self.wf(),
        ensures
            unique_keys(self.entry_seq()),
            forall|i: int|
                0 <= i < self.entry_seq().len() ==> #[trigger] self@.contains_key(
                    self.entry_seq()[i].0@,
                ) && self@[self.entry_seq()[i].0@] == self.entry_seq()[i].1@,
            forall|k: Seq<char>|
                #[trigger] self@.contains_key(k) ==> exists|i: int|
                    0 <= i < self.entry_seq().len() && self.entry_seq()[i].0@ == k,
    {
        assert forall|i: int| 0 <= i < self.entry_seq().len() implies #[trigger] self@.contains_key(
            self.entry_seq()[i].0@,
        ) && self@[self.entry_seq()[i].0@] == self.entry_seq()[i].1@ by {
            lemma_entries_map_at(self.entries@, i);
        }
        assert forall|k: Seq<char>| #[trigger] self@.contains_key(k) implies exists|i: int|
            0 <= i < self.entry_seq().len() && self.entry_seq()[i].0@ == k by {
            let i = pos_of(self.entries@, k);
            assert(0 <= i < self.entry_seq().len() && self.entry_seq()[i].0@ == k);
        }
    }

    /// An empty table.
    pub fn new() -> (t: Self)
        ensures
            t.wf(),
            t@ == Map::<Seq<char>, V::V>::empty(),
            t.entry_seq().len() == 0,
            t.keys() == Seq::<Seq<char>>::empty(),
    {
        let t = Table { entries: Vec::new() };
        assert(t@ =~= Map::<Seq<char>, V::V>::empty());
        assert(t.keys() =~= Seq::<Seq<char>>::empty());
        t
    }

    /// The number of entries.
    pub fn len(&self) -> (n: usize)
        ensures
            n == self.entry_seq().len(),
    {
        self.entries.len()
    }

    /// The key of the entry at position `i`.
    pub fn key_at(&self, i: usize) -> (k: &String)
        requires
            i < self.entry_seq().len(),
        ensures
            *k == self.entry_seq()[i as int].0,
    {
        &self.entries[i].0
    }

    /// The value of the entry at position `i`.
    pub fn value_at(&self, i: usize) -> (v: &V)
        requires
            i < self.entry_seq().len(),
        ensures
            *v == self.entry_seq()[i as int].1,
    {
        &self.entries[i].1
    }

    /// The position of the entry with key `key`, if there is one.
    pub fn find(&self, key: &str) -> (r: Option<usize>)
        requires
            self.wf(),
        ensures
            r is None <==> !self@.contains_key(key@),
            r matches Some(i) ==> i < self.entry_seq().len() && self.entry_seq()[i as int].0@
                == key@,
    {
        let k: String = key.to_owned();
        let n = self.entries.len();
        let mut i: usize = 0;
        while i < n
            invariant
                n == self.entries@.len(),
                i <= n,
                k@ == key@,
                forall|j: int| 0 <= j < i ==> self.entries@[j].0@ != key@,
            decreases n - i,
        {
            if self.entries[i].0 == k {
                return Some(i);
            }
            i = i + 1;
        }
        proof { lemma_absent_key(self.entries@, key@); }
        None
    }

    /// The value stored under `key`, if any.
    pub fn get(&self, key: &str) -> (r: Option<&V>)
        requires
            self.wf(),
        ensures
            r is None <==> !self@.contains_key(key@),
            r matches Some(v) ==> v@ == self@[key@],
    {
        match self.find(key) {
            None => None,
            Some(i) => {
                proof {
                    lemma_entries_map_at(self.entries@, i as int);
                }
                Some(&self.entries[i].1)
            },
        }
    }

    /// Whether `key` has an entry.
    pub fn contains_key(&self, key: &str) -> (b: bool)
        requires
            self.wf(),
        ensures
            b == self@.contains_key(key@),
    {
        self.find(key).is_some()
    }

    /// Replaces the value at position `i`, keeping its key.
    pub fn set_value_at(&mut self, i: usize, v: V)
        requires
            old(self).wf(),
            i < old(self).entry_seq().len(),
        ensures
            final(self).wf(),
            final(self).entry_seq() == old(self).entry_seq().update(
                i as int,
                (old(self).entry_seq()[i as int].0, v),
            ),
            final(self)@ == old(self)@.insert(old(self).entry_seq()[i as int].0@, v@),
            final(self).keys() == old(self).keys(),
    {
        let ghost old_s = self.entries@;
        let k = self.entries[i].0.clone();
        self.entries.set(i, (k, v));
        proof {
            let s = self.entries@;
            assert(s =~= old_s.update(i as int, (old_s[i as int].0, v)));
            assert(unique_keys(s));
            lemma_entries_map_at(s, i as int);
            assert forall|key: Seq<char>|
                #![auto]
                entries_map(s).contains_key(key) == old(self)@.insert(
                    old_s[i as int].0@,
                    v@,
                ).contains_key(key) by {
                if has_key(old_s, key) {
                    let p = pos_of(old_s, key);
                    assert(s[p].0@ == key);
                }
                if has_key(s, key) {
                    let p = pos_of(s, key);
                    assert(old_s[p].0@ == key);
                }
            }
            assert forall|key: Seq<char>| #[trigger]
                entries_map(s).contains_key(key) implies entries_map(s)[key] == old(self)@.insert(
                old_s[i as int].0@,
                v@,
            )[key] by {
                let p = pos_of(s, key);
                lemma_pos_of(s, p);
                if p != i as int {
                    lemma_pos_of(old_s, p);
                }
            }
            assert(entries_map(s) =~= old(self)@.insert(old_s[i as int].0@, v@));
            assert(self.keys() =~= old(self).keys());
        }
    }

    /// Inserts or replaces the value stored under `key`.
    pub fn insert(&mut self, key: String, v: V)
        requires
            old(self).wf(),
        ensures
            final(self).wf(),
            final(self)@ == old(self)@.insert(key@, v@),
            old(self)@.contains_key(key@) ==> final(self).keys() == old(self).keys(),
            !old(self)@.contains_key(key@) ==> final(self).keys() == old(self).keys().push(key@),
    {
        let key_view = key.as_str();
        match self.find(key_view) {
            Some(i) => {
                self.set_value_at(i, v);
            },
            None => {
                let ghost old_s = self.entries@;
                let ghost kv = key@;
                self.entries.push((key, v));
                proof {
                    let s = self.entries@;
                    assert(s =~= old_s.push((s.last().0, v)));
                    assert forall|a: int, b: int|
                        0 <= a < s.len() && 0 <= b < s.len() && a != b implies s[a].0@
                        != s[b].0@ by {
                        if a == s.len() - 1 {
                            assert(old_s[b].0@ != kv) by {
                                if old_s[b].0@ == kv {
                                    assert(has_key(old_s, kv));
                                }
                            }
                        } else if b == s.len() - 1 {
                            assert(old_s[a].0@ != kv) by {
                                if old_s[a].0@ == kv {
                                    assert(has_key(old_s, kv));
                                }
                            }
                        }
                    }
                    assert(unique_keys(s));
                    lemma_entries_map_at(s, s.len() - 1);
                    assert forall|key: Seq<char>|
                        #![auto]
                        entries_map(s).contains_key(key) == old(self)@.insert(
                            kv,
                            v@,
                        ).contains_key(key) by {
                        if has_key(old_s, key) {
                            let p = pos_of(old_s, key);
                            assert(s[p].0@ == key);
                        }
                        if has_key(s, key) && key != kv {
                            let p = pos_of(s, key);
                            assert(old_s[p].0@ == key);
                        }
                    }
                    assert forall|key: Seq<char>| #[trigger]
                        entries_map(s).contains_key(key) implies entries_map(s)[key]
                        == old(self)@.insert(kv, v@)[key] by {
                        let p = pos_of(s, key);
                        lemma_pos_of(s, p);
                        if p != s.len() - 1 {
                            lemma_pos_of(old_s, p);
                        }
                    }
                    assert(entries_map(s) =~= old(self)@.insert(kv, v@));
                    assert(self.keys() =~= old(self).keys().push(kv));
                }
            },
        }
    }

    /// Removes the entry stored under `key`, if any.
    pub fn remove(&mut self, key: &str)
        requires
            old(self).wf(),
        ensures
            final(self).wf(),
            final(self)@ == old(self)@.remove(key@),
    {
        match self.find(key) {
            None => {
                assert(old(self)@.remove(key@) =~= old(self)@);
            },
            Some(i) => {
                let ghost old_s = self.entries@;
                let _removed = self.entries.remove(i);
                proof {
                    let s = self.entries@;
                    assert(s =~= old_s.remove(i as int));
                    assert forall|a: int, b: int|
                        0 <= a < s.len() && 0 <= b < s.len() && a != b implies s[a].0@
                        != s[b].0@ by {
                        let oa = if a < i { a } else { a + 1 };
                        let ob = if b < i { b } else { b + 1 };
                        assert(s[a] == old_s[oa]);
                        assert(s[b] == old_s[ob]);
                    }
                    assert(unique_keys(s));
                    assert forall|k: Seq<char>|
                        #![auto]
                        entries_map(s).contains_key(k) == old(self)@.remove(key@).contains_key(
                            k,
                        ) by {
                        if has_key(old_s, k) && k != key@ {
                            let p = pos_of(old_s, k);
                            if p < i {
                                assert(s[p].0@ == k);
                            } else {
                                assert(p != i);
                                assert(s[p - 1].0@ == k);
                            }
                        }
                        if has_key(s, k) {
                            let p = pos_of(s, k);
                            let op = if p < i { p } else { p + 1 };
                            assert(old_s[op].0@ == k);
                            if k == key@ {
                                lemma_pos_of(old_s, op);
                                lemma_pos_of(old_s, i as int);
                            }
                        }
                    }
                    assert forall|k: Seq<char>| #[trigger]
                        entries_map(s).contains_key(k) implies entries_map(s)[k] == old(
                        self,
                    )@.remove(key@)[k] by {
                        let p = pos_of(s, k);
                        lemma_pos_of(s, p);
                        let op = if p < i { p } else { p + 1 };
                        assert(s[p] == old_s[op]);
                        lemma_pos_of(old_s, op);
                    }
                    assert(entries_map(s) =~= old(self)@.remove(key@));
                }
            },
        }
    }
}

/// Two tables with the same keys at the same positions, whose values are related
/// position by position through `f`, stand for maps related by `f`.
pub proof fn lemma_pointwise<V: View>(a: &Table<V>, b: &Table<V>, f: spec_fn(V::V) -> V::V)
    requires
        a.wf(),
        b.wf(),
        a.entry_seq().len() == b.entry_seq().len(),
        forall|i: int|
            0 <= i < a.entry_seq().len() ==> (#[trigger] b.entry_seq()[i]).0@ == a.entry_seq()[i].0@
                && b.entry_seq()[i].1@ == f(a.entry_seq()[i].1@),
    ensures
        b@ == a@.map_values(f),
{
    a.lemma_entries();
    b.lemma_entries();
    let sa = a.entry_seq();
    let sb = b.entry_seq();
    assert forall|k: Seq<char>| #![auto] b@.contains_key(k) <==> a@.contains_key(k) by {
        if b@.contains_key(k) {
            let i = choose|i: int| 0 <= i < sb.len() && sb[i].0@ == k;
            assert(sa[i].0@ == k);
            assert(a@.contains_key(sa[i].0@));
        }
        if a@.contains_key(k) {
            let i = choose|i: int| 0 <= i < sa.len() && sa[i].0@ == k;
            assert(sb[i].0@ == k);
            assert(b@.contains_key(sb[i].0@));
        }
    }
    assert forall|k: Seq<char>| #[trigger] b@.contains_key(k) implies b@[k] == f(a@[k]) by {
        let i = choose|i: int| 0 <= i < sb.len() && sb[i].0@ == k;
        assert(sa[i].0@ == k);
        assert(b@[sb[i].0@] == sb[i].1@);
        assert(a@[sa[i].0@] == sa[i].1@);
    }
    assert(b@ =~= a@.map_values(f));
}

/// Two entry sequences that agree position by position on the views of keys and
/// values stand for the same map.
pub proof fn lemma_entries_map_congruent<V: View>(a: Seq<(String, V)>, b: Seq<(String, V)>)
    requires
        a.len() == b.len(),
        forall|i: int| 0 <= i < a.len() ==> (#[trigger] a[i]).0@ == b[i].0@ && a[i].1@ == b[i].1@,
        unique_keys(a),
    ensures
        unique_keys(b),
        entries_map(a) == entries_map(b),
{
    assert forall|i: int, j: int|
        0 <= i < b.len() && 0 <= j < b.len() && i != j implies b[i].0@ != b[j].0@ by {
        assert(a[i].0@ == b[i].0@);
        assert(a[j].0@ == b[j].0@);
    }
    assert forall|k: Seq<char>| #![auto] has_key(a, k) <==> has_key(b, k) by {
        if has_key(a, k) {
            let i = pos_of(a, k);
            assert(b[i].0@ == k);
        }
        if has_key(b, k) {
            let i = pos_of(b, k);
            assert(a[i].0@ == k);
        }
    }
    assert forall|k: Seq<char>| #[trigger] has_key(a, k) implies a[pos_of(a, k)].1@ == b[pos_of(
        b,
        k,
    )].1@ by {
        let i = pos_of(a, k);
        lemma_pos_of(a, i);
        assert(b[i].0@ == k);
        lemma_pos_of(b, i);
    }
    assert(entries_map(a) =~= entries_map(b));
}

/// The map obtained by inserting the entries of `s`, in order, into `m`.
pub open spec fn insert_all<V: View>(m: Map<Seq<char>, V::V>, s: Seq<(String, V)>) -> Map<
    Seq<char>,
    V::V,
>
    decreases s.len(),
{
    if s.len() == 0 {
        m
    } else {
        insert_all(m, s.drop_last()).insert(s.last().0@, s.last().1@)
    }
}

/// The map of entries with unique keys is the map of all but the last, with the
/// last inserted.
pub proof fn lemma_entries_map_push<V: View>(s: Seq<(String, V)>)
    requires
        unique_keys(s),
        s.len() > 0,
    ensures
        unique_keys(s.drop_last()),
        entries_map(s) == entries_map(s.drop_last()).insert(s.last().0@, s.last().1@),
{
    let p = s.drop_last();
    let n = s.len() - 1;
    let lk = s.last().0@;
    assert forall|i: int, j: int|
        0 <= i < p.len() && 0 <= j < p.len() && i != j implies p[i].0@ != p[j].0@ by {
        assert(p[i] == s[i] && p[j] == s[j]);
    }
    let r = entries_map(p).insert(lk, s.last().1@);
    assert forall|k: Seq<char>| #![auto] has_key(s, k) <==> r.contains_key(k) by {
        if has_key(s, k) && k != lk {
            let i = pos_of(s, k);
            assert(i != n);
            assert(p[i].0@ == k);
        }
        if has_key(p, k) {
            let i = pos_of(p, k);
            assert(s[i].0@ == k);
        }
        if k == lk {
            assert(s[n].0@ == k);
        }
    }
    assert forall|k: Seq<char>| #[trigger] has_key(s, k) implies s[pos_of(s, k)].1@ == r[k] by {
        let i = pos_of(s, k);
        lemma_pos_of(s, i);
        if i == n {
            assert(k == lk);
        } else {
            assert(p[i] == s[i]);
            lemma_pos_of(p, i);
            assert(k != lk) by {
                lemma_pos_of(s, n);
            }
        }
    }
    assert(entries_map(s) =~= r);
}

/// Rebuilding a registry by inserting its listed entries one by one into an empty
/// map gives back the registry (the listing of `Table` entries and the reading back
/// of a saved state rely on this).
pub proof fn law_rebuild_from_entries<V: View>(s: Seq<(String, V)>)
    requires
        unique_keys(s),
    ensures
        insert_all(Map::<Seq<char>, V::V>::empty(), s) == entries_map(s),
    decreases s.len(),
{
    if s.len() == 0 {
        assert(entries_map(s) =~= Map::<Seq<char>, V::V>::empty());
    } else {
        lemma_entries_map_push(s);
        law_rebuild_from_entries(s.drop_last());
    }
}

/// If no entry has key `k`, the map does not contain it.
proof fn lemma_absent_key<V>(s: Seq<(String, V)>, k: Seq<char>)
    requires
        forall|j: int| 0 <= j < s.len() ==> s[j].0@ != k,
    ensures
        !has_key(s, k),
{
}

} // verus!
