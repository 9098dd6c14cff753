//! A map from string keys to values, kept in key order.
//!
//! It holds what a `HashMap<String, T>` holds, and additionally keeps its
//! entries sorted by key, so that listing the keys in order needs no sort.

use vstd::prelude::*;

use crate::text::{lemma_text_lt_asymmetric, lemma_text_lt_total, lemma_text_lt_transitive, text_lt};

verus! {

/// Entries `(key, value)` whose keys strictly increase.
pub open spec fn strictly_sorted<T>(entries: Seq<(Seq<char>, T)>) -> bool {
    forall|i: int, j: int| 0 <= i < j < entries.len() ==> text_lt(entries[i].0, entries[j].0)
}

/// Whether some entry has the key `key`.
pub open spec fn has_key<T>(entries: Seq<(Seq<char>, T)>, key: Seq<char>) -> bool {
    exists|i: int| 0 <= i < entries.len() && entries[i].0 == key
}

/// The value under `key` (the first entry with that key).
pub open spec fn value_of<T>(entries: Seq<(Seq<char>, T)>, key: Seq<char>) -> Option<T>
    decreases entries.len(),
{
    if entries.len() == 0 {
        None
    } else if entries[0].0 == key {
        Some(entries[0].1)
    } else {
        value_of(entries.drop_first(), key)
    }
}

/// The keys of the entries, in order.
pub open spec fn keys<T>(entries: Seq<(Seq<char>, T)>) -> Seq<Seq<char>> {
    Seq::new(entries.len(), |i: int| entries[i].0)
}

/// A map from string keys to values, in key order.
pub struct Registry<T> {
    entries: Vec<(String, T)>,
}

impl<T> View for Registry<T> {
    type V = Seq<(Seq<char>, T)>;

    closed spec fn view(&self) -> Seq<(Seq<char>, T)> {
        self.entries@.map_values(|e: (String, T)| (e.0@, e.1))
    }
}

pub proof fn lemma_value_of_index<T>(entries: Seq<(Seq<char>, T)>, key: Seq<char>, i: int)
    requires
        strictly_sorted(entries),
        0 <= i < entries.len(),
        entries[i].0 == key,
    ensures
        value_of(entries, key) == Some(entries[i].1),
    decreases entries.len(),
{
    if i > 0 {
        assert(entries[0].0 != key) by {
            lemma_text_lt_asymmetric(entries[0].0, entries[i].0);
        }
        let rest = entries.drop_first();
        assert(strictly_sorted(rest)) by {
            assert forall|a: int, b: int| 0 <= a < b < rest.len() implies text_lt(
                rest[a].0,
                rest[b].0,
            ) by {
                assert(rest[a] == entries[a + 1] && rest[b] == entries[b + 1]);
            }
        }
        assert(rest[i - 1] == entries[i]);
        lemma_value_of_index(rest, key, i - 1);
    }
}

pub proof fn lemma_value_of_absent<T>(entries: Seq<(Seq<char>, T)>, key: Seq<char>)
    requires
        !has_key(entries, key),
    ensures
        value_of(entries, key) is None,
    decreases entries.len(),
{
    if entries.len() > 0 {
        let rest = entries.drop_first();
        assert(!has_key(rest, key)) by {
            if has_key(rest, key) {
                let i = choose|i: int| 0 <= i < rest.len() && rest[i].0 == key;
                assert(entries[i + 1] == rest[i]);
            }
        }
        lemma_value_of_absent(rest, key);
    }
}

impl<T> Registry<T> {
    /// The entries' keys strictly increase (so no key occurs twice).
    pub open spec fn wf(&self) -> bool {
        strictly_sorted(self@)
    }

    /// An empty registry.
    pub fn new() -> (r: Self)
        ensures
            r.wf(),
            r@ == Seq::<(Seq<char>, T)>::empty(),
    {
        let r = Registry { entries: Vec::new() };
        assert(r@ =~= Seq::<(Seq<char>, T)>::empty());
        r
    }

    /// The number of entries.
    pub fn len(&self) -> (n: usize)
        ensures
            n == self@.len(),
    {
        self.entries.len()
    }

    /// The position of the entry with key `key`, if there is one.
    pub fn position(&self, key: &str) -> (r: Option<usize>)
        ensures
            match r {
                Some(i) => i < self@.len() && self@[i as int].0 == key@,
                None => !has_key(self@, key@),
            },
    {
        let k = key.to_owned();
        let mut i: usize = 0;
        while i < self.entries.len()
            invariant
                0 <= i <= self@.len(),
                self@.len() == self.entries@.len(),
                k@ == key@,
                forall|j: int| 0 <= j < i ==> self@[j].0 != key@,
            decreases self@.len() - i,
        {
            assert(self@[i as int].0 == self.entries@[i as int].0@);
            if self.entries[i].0 == k {
                return Some(i);
            }
            i = i + 1;
        }
        None
    }

    /// The value under `key`.
    pub fn get(&self, key: &str) -> (r: Option<&T>)
        requires
            self.wf(),
        ensures
            match r {
                Some(v) => value_of(self@, key@) == Some(*v),
                None => value_of(self@, key@) is None,
            },
            (r is Some) == has_key(self@, key@),
    {
        match self.position(key) {
            Some(i) => {
                proof {
                    lemma_value_of_index(self@, key@, i as int);
                    assert(self@[i as int].1 == self.entries@[i as int].1);
                }
                Some(&self.entries[i].1)
            },
            None => {
                proof {
                    lemma_value_of_absent(self@, key@);
                }
                None
            },
        }
    }

    /// The key and value of the entry at `index`.
    pub fn entry_at(&self, index: usize) -> (r: (&String, &T))
        requires
            index < self@.len(),
        ensures
            r.0@ == self@[index as int].0,
            *r.1 == self@[index as int].1,
    {
        let e = &self.entries[index];
        (&e.0, &e.1)
    }

    /// The value of the entry at `index`, for update in place.
    pub fn value_at_mut(&mut self, index: usize) -> (r: &mut T)
        requires
            index < old(self)@.len(),
        ensures
            *r == old(self)@[index as int].1,
            final(self)@ == old(self)@.update(index as int, (old(self)@[index as int].0, *final(r))),
    {
        &mut self.entries[index].1
    }

    /// Insert `value` under `key`, replacing the value already there, if
    /// any. The entries stay in key order.
    pub fn insert(&mut self, key: String, value: T)
        requires
            old(self).wf(),
        ensures
            final(self).wf(),
            has_key(final(self)@, key@),
            value_of(final(self)@, key@) == Some(value),
            forall|k: Seq<char>| k != key@ ==> value_of(final(self)@, k) == value_of(old(self)@, k),
            has_key(old(self)@, key@) ==> final(self)@.len() == old(self)@.len(),
            !has_key(old(self)@, key@) ==> final(self)@.len() == old(self)@.len() + 1,
            forall|k: Seq<char>| #[trigger] has_key(final(self)@, k) == (k == key@ || has_key(old(self)@, k)),
    {
        let ghost old_view = self@;
        match self.position(key.as_str()) {
            Some(i) => {
                let ghost k = key@;
                let slot = self.value_at_mut(i);
                *slot = value;
                proof {
                    assert forall|a: int, b: int| 0 <= a < b < self@.len() implies text_lt(
                        self@[a].0,
                        self@[b].0,
                    ) by {
                        assert(self@[a].0 == old_view[a].0 && self@[b].0 == old_view[b].0);
                    }
                    lemma_value_of_index(self@, k, i as int);
                    assert forall|k2: Seq<char>| k2 != k implies value_of(self@, k2) == value_of(
                        old_view,
                        k2,
                    ) by {
                        lemma_same_keys_value(old_view, self@, k2, i as int);
                    }
                    assert forall|k2: Seq<char>| #[trigger] has_key(self@, k2) == (k2 == k || has_key(old_view, k2)) by {
                        if has_key(old_view, k2) {
                            let j = choose|j: int| 0 <= j < old_view.len() && old_view[j].0 == k2;
                            assert(self@[j].0 == k2);
                        }
                        if has_key(self@, k2) {
                            let j = choose|j: int| 0 <= j < self@.len() && self@[j].0 == k2;
                            assert(old_view[j].0 == k2);
                        }
                        assert(self@[i as int].0 == k);
                    }
                }
            },
            None => {
                // First position whose key is greater than `key`.
                let mut p: usize = 0;
                while p < self.entries.len() && !crate::text::text_less(
                    key.as_str(),
                    self.entries[p].0.as_str(),
                )
                    invariant
                        0 <= p <= self@.len(),
                        self@ == old_view,
                        self@.len() == self.entries@.len(),
                        forall|j: int| 0 <= j < p ==> !text_lt(key@, #[trigger] self@[j].0),
                    decreases self@.len() - p,
                {
                    assert(self@[p as int].0 == self.entries@[p as int].0@);
                    p = p + 1;
                }
                proof {
                    if p < self@.len() {
                        assert(self@[p as int].0 == self.entries@[p as int].0@);
                    }
                }
                let ghost k = key@;
                self.entries.insert(p, (key, value));
                proof {
                    assert(self@ =~= old_view.insert(p as int, (k, value)));
                    lemma_sorted_insert(old_view, k, value, p as int);
                    lemma_value_of_index(self@, k, p as int);
                    assert forall|k2: Seq<char>| k2 != k implies value_of(self@, k2) == value_of(
                        old_view,
                        k2,
                    ) by {
                        lemma_insert_value(old_view, k, value, p as int, k2);
                    }
                    assert forall|k2: Seq<char>| #[trigger] has_key(self@, k2) == (k2 == k || has_key(old_view, k2)) by {
                        if has_key(old_view, k2) {
                            let j = choose|j: int| 0 <= j < old_view.len() && old_view[j].0 == k2;
                            if j < p {
                                assert(self@[j].0 == k2);
                            } else {
                                assert(self@[j + 1].0 == k2);
                            }
                        }
                        if has_key(self@, k2) {
                            let j = choose|j: int| 0 <= j < self@.len() && self@[j].0 == k2;
                            if j < p {
                                assert(old_view[j].0 == k2);
                            } else if j > p {
                                assert(old_view[j - 1].0 == k2);
                            }
                        }
                        assert(self@[p as int].0 == k);
                    }
                }
            },
        }
    }

    /// Remove the entry under `key` and return its value, if there is one.
    pub fn remove(&mut self, key: &str) -> (r: Option<T>)
        requires
            old(self).wf(),
        ensures
            final(self).wf(),
            r == value_of(old(self)@, key@),
            !has_key(final(self)@, key@),
            forall|k: Seq<char>| k != key@ ==> value_of(final(self)@, k) == value_of(old(self)@, k),
            forall|k: Seq<char>| #[trigger] has_key(final(self)@, k) == (k != key@ && has_key(old(self)@, k)),
            r is Some ==> final(self)@.len() + 1 == old(self)@.len(),
            r is None ==> final(self)@ == old(self)@,
    {
        let ghost old_view = self@;
        match self.position(key) {
            Some(i) => {
                proof {
                    lemma_value_of_index(old_view, key@, i as int);
                }
                let (_, value) = self.entries.remove(i);
                proof {
                    assert(self@ =~= old_view.remove(i as int));
                    assert forall|a: int, b: int| 0 <= a < b < self@.len() implies text_lt(
                        self@[a].0,
                        self@[b].0,
                    ) by {
                        let a0 = if a < i { a } else { a + 1 };
                        let b0 = if b < i { b } else { b + 1 };
                        assert(self@[a] == old_view[a0] && self@[b] == old_view[b0]);
                    }
                    assert forall|k2: Seq<char>| #[trigger] has_key(self@, k2) == (k2 != key@ && has_key(old_view, k2)) by {
                        if has_key(self@, k2) {
                            let j = choose|j: int| 0 <= j < self@.len() && self@[j].0 == k2;
                            let j0 = if j < i { j } else { j + 1 };
                            assert(old_view[j0].0 == k2);
                            if k2 == key@ {
                                lemma_text_lt_asymmetric(old_view[j0].0, old_view[i as int].0);
                                if j0 < i {
                                    assert(text_lt(old_view[j0].0, old_view[i as int].0));
                                } else {
                                    assert(text_lt(old_view[i as int].0, old_view[j0].0));
                                }
                            }
                        }
                        if k2 != key@ && has_key(old_view, k2) {
                            let j = choose|j: int| 0 <= j < old_view.len() && old_view[j].0 == k2;
                            if j < i {
                                assert(self@[j].0 == k2);
                            } else {
                                assert(j != i);
                                assert(self@[j - 1].0 == k2);
                            }
                        }
                    }
                    lemma_value_of_absent(self@, key@);
                    assert forall|k2: Seq<char>| k2 != key@ implies value_of(self@, k2) == value_of(
                        old_view,
                        k2,
                    ) by {
                        if has_key(old_view, k2) {
                            let j = choose|j: int| 0 <= j < old_view.len() && old_view[j].0 == k2;
                            lemma_value_of_index(old_view, k2, j);
                            let j1 = if j < i { j } else { j - 1 };
                            assert(self@[j1] == old_view[j]);
                            lemma_value_of_index(self@, k2, j1);
                        } else {
                            lemma_value_of_absent(old_view, k2);
                            lemma_value_of_absent(self@, k2);
                        }
                    }
                }
                Some(value)
            },
            None => {
                proof {
                    lemma_value_of_absent(old_view, key@);
                }
                None
            },
        }
    }

    /// The keys, in order.
    pub fn keys(&self) -> (r: Vec<String>)
        ensures
            r@.map_values(|s: String| s@) == keys(self@),
    {
        let mut out: Vec<String> = Vec::new();
        let mut i: usize = 0;
        while i < self.entries.len()
            invariant
                0 <= i <= self@.len(),
                self@.len() == self.entries@.len(),
                out@.len() == i,
                out@.map_values(|s: String| s@) == keys(self@).take(i as int),
            decreases self@.len() - i,
        {
            let k = self.entries[i].0.clone();
            assert(self@[i as int].0 == self.entries@[i as int].0@);
            let ghost before = out@;
            out.push(k);
            assert(keys(self@)[i as int] == k@);
            assert forall|j: int| 0 <= j < i implies out@[j]@ == keys(self@).take(i + 1)[j] by {
                assert(out@[j] == before[j]);
                assert(before.map_values(|s: String| s@)[j] == keys(self@).take(i as int)[j]);
            }
            assert(out@.map_values(|s: String| s@) =~= keys(self@).take(i + 1));
            i = i + 1;
        }
        assert(keys(self@).take(i as int) =~= keys(self@));
        out
    }
}

/// Changing one entry's value, keeping every key, changes no other key's
/// value.
pub proof fn lemma_same_keys_value<T>(a: Seq<(Seq<char>, T)>, b: Seq<(Seq<char>, T)>, key: Seq<char>, i: int)
    requires
        strictly_sorted(a),
        a.len() == b.len(),
        0 <= i < a.len(),
        forall|j: int| 0 <= j < a.len() ==> a[j].0 == b[j].0,
        forall|j: int| 0 <= j < a.len() && j != i ==> a[j] == b[j],
        a[i].0 != key,
    ensures
        value_of(b, key) == value_of(a, key),
{
    assert(strictly_sorted(b)) by {
        assert forall|x: int, y: int| 0 <= x < y < b.len() implies text_lt(b[x].0, b[y].0) by {
            assert(a[x].0 == b[x].0 && a[y].0 == b[y].0);
        }
    }
    if has_key(a, key) {
        let j = choose|j: int| 0 <= j < a.len() && a[j].0 == key;
        lemma_value_of_index(a, key, j);
        lemma_value_of_index(b, key, j);
    } else {
        lemma_value_of_absent(a, key);
        assert(!has_key(b, key)) by {
            if has_key(b, key) {
                let j = choose|j: int| 0 <= j < b.len() && b[j].0 == key;
                assert(a[j].0 == key);
            }
        }
        lemma_value_of_absent(b, key);
    }
}

proof fn lemma_sorted_insert<T>(s: Seq<(Seq<char>, T)>, k: Seq<char>, v: T, p: int)
    requires
        strictly_sorted(s),
        !has_key(s, k),
        0 <= p <= s.len(),
        forall|j: int| 0 <= j < p ==> !text_lt(k, #[trigger] s[j].0),
        p < s.len() ==> text_lt(k, s[p].0),
    ensures
        strictly_sorted(s.insert(p, (k, v))),
{
    let t = s.insert(p, (k, v));
    assert forall|a: int, b: int| 0 <= a < b < t.len() implies text_lt(t[a].0, t[b].0) by {
        if b < p {
            assert(t[a] == s[a] && t[b] == s[b]);
        } else if a > p {
            assert(t[a] == s[a - 1] && t[b] == s[b - 1]);
        } else if a < p && b == p {
            lemma_text_lt_total(s[a].0, k);
            assert(s[a].0 != k);
        } else if a < p && b > p {
            lemma_text_lt_total(s[a].0, k);
            assert(s[a].0 != k);
            assert(t[b] == s[b - 1]);
            if b - 1 > p {
                lemma_text_lt_transitive(k, s[p].0, s[b - 1].0);
            }
            lemma_text_lt_transitive(s[a].0, k, s[b - 1].0);
        } else {
            assert(a == p);
            assert(t[b] == s[b - 1]);
            if b - 1 > p {
                lemma_text_lt_transitive(k, s[p].0, s[b - 1].0);
            }
        }
    }
}

proof fn lemma_insert_value<T>(s: Seq<(Seq<char>, T)>, k: Seq<char>, v: T, p: int, k2: Seq<char>)
    requires
        strictly_sorted(s),
        strictly_sorted(s.insert(p, (k, v))),
        0 <= p <= s.len(),
        k2 != k,
    ensures
        value_of(s.insert(p, (k, v)), k2) == value_of(s, k2),
{
    let t = s.insert(p, (k, v));
    if has_key(s, k2) {
        let j = choose|j: int| 0 <= j < s.len() && s[j].0 == k2;
        lemma_value_of_index(s, k2, j);
        if j < p {
            assert(t[j] == s[j]);
            lemma_value_of_index(t, k2, j);
        } else {
            assert(t[j + 1] == s[j]);
            lemma_value_of_index(t, k2, j + 1);
        }
    } else {
        lemma_value_of_absent(s, k2);
        assert(!has_key(t, k2)) by {
            if has_key(t, k2) {
                let j = choose|j: int| 0 <= j < t.len() && t[j].0 == k2;
                if j < p {
                    assert(s[j].0 == k2);
                } else if j > p {
                    assert(s[j - 1].0 == k2);
                }
            }
        }
        lemma_value_of_absent(t, k2);
    }
}

} // verus!
