//! A map keyed by names.
//!
//! Tracks and access units are identified by short strings; a connection has
//! a handful of them, so the entries stand in a vector, the latest entry of a
//! name being the one that counts.

use vstd::prelude::*;

verus! {

/// A map from names to values.
pub struct NameMap<V> {
    entries: Vec<(String, V)>,
}

/// `i` is the last position of `key`.
spec fn is_last<V>(entries: Seq<(String, V)>, key: Seq<char>, i: int) -> bool {
    &&& 0 <= i < entries.len()
    &&& entries[i].0@ == key
    &&& forall|j: int| i < j < entries.len() ==> #[trigger] entries[j].0@ != key
}

spec fn holds<V>(entries: Seq<(String, V)>, key: Seq<char>) -> bool {
    exists|i: int| is_last(entries, key, i)
}

spec fn value_of<V>(entries: Seq<(String, V)>, key: Seq<char>) -> V {
    entries[choose|i: int| is_last(entries, key, i)].1
}

proof fn last_is_unique<V>(entries: Seq<(String, V)>, key: Seq<char>, i: int)
    requires
        is_last(entries, key, i),
    ensures
        holds(entries, key),
        value_of(entries, key) == entries[i].1,
{
    let p = choose|p: int| is_last(entries, key, p);
    assert(is_last(entries, key, p));
    if p < i {
        assert(entries[i].0@ != key);
    }
    if i < p {
        assert(entries[p].0@ != key);
    }
}

/// Taking out an occurrence of `gone` changes nothing for other names.
proof fn remove_keeps_others<V>(entries: Seq<(String, V)>, at: int, other: Seq<char>)
    requires
        0 <= at < entries.len(),
        entries[at].0@ != other,
    ensures
        holds(entries.remove(at), other) == holds(entries, other),
        holds(entries, other) ==> value_of(entries.remove(at), other) == value_of(entries, other),
{
    let rest = entries.remove(at);
    if holds(entries, other) {
        let p = choose|p: int| is_last(entries, other, p);
        let q = if p < at { p } else { p - 1 };
        assert(rest[q] == entries[p]);
        assert forall|j: int| q < j < rest.len() implies #[trigger] rest[j].0@ != other by {
            let back = if j < at { j } else { j + 1 };
            assert(rest[j] == entries[back]);
        }
        assert(is_last(rest, other, q));
        last_is_unique(rest, other, q);
        last_is_unique(entries, other, p);
    }
    if holds(rest, other) {
        let q = choose|q: int| is_last(rest, other, q);
        let p = if q < at { q } else { q + 1 };
        assert(rest[q] == entries[p]);
        assert forall|j: int| p < j < entries.len() implies #[trigger] entries[j].0@ != other by {
            if j < at {
                assert(rest[j] == entries[j]);
            } else if j > at {
                assert(rest[j - 1] == entries[j]);
            }
        }
        assert(is_last(entries, other, p));
    }
}

proof fn push_overrides<V>(entries: Seq<(String, V)>, entry: (String, V), key: Seq<char>)
    ensures
        holds(entries.push(entry), key) == (holds(entries, key) || key == entry.0@),
        key == entry.0@ ==> value_of(entries.push(entry), key) == entry.1,
        key != entry.0@ && holds(entries, key) ==> value_of(entries.push(entry), key) == value_of(
            entries,
            key,
        ),
{
    let more = entries.push(entry);
    if key == entry.0@ {
        assert(is_last(more, key, entries.len() as int));
        last_is_unique(more, key, entries.len() as int);
    } else {
        remove_keeps_others(more, entries.len() as int, key);
        assert(more.remove(entries.len() as int) =~= entries);
    }
}

impl<V> View for NameMap<V> {
    type V = Map<Seq<char>, V>;

    closed spec fn view(&self) -> Map<Seq<char>, V> {
        Map::new(
            |k: Seq<char>| holds(self.entries@, k),
            |k: Seq<char>| value_of(self.entries@, k),
        )
    }
}

impl<V> NameMap<V> {
    pub fn new() -> (m: NameMap<V>)
        ensures
            m@ == Map::<Seq<char>, V>::empty(),
    {
        let m = NameMap { entries: Vec::new() };
        assert(m@ =~= Map::<Seq<char>, V>::empty());
        m
    }

    fn find(&self, key: &str) -> (r: Option<usize>)
        ensures
            match r {
                Some(i) => is_last(self.entries@, key@, i as int) && self@.contains_key(key@)
                    && self@[key@] == self.entries@[i as int].1,
                None => !self@.contains_key(key@),
            },
    {
        let wanted: String = key.to_owned();
        let mut i: usize = self.entries.len();
        while i > 0
            invariant
                i <= self.entries@.len(),
                wanted@ == key@,
                forall|j: int| i <= j < self.entries@.len() ==> #[trigger] self.entries@[j].0@ != key@,
            decreases i,
        {
            i -= 1;
            if self.entries[i].0 == wanted {
                proof { last_is_unique(self.entries@, key@, i as int); }
                return Some(i);
            }
        }
        None
    }

    pub fn contains_key(&self, key: &str) -> (b: bool)
        ensures
            b == self@.contains_key(key@),
    {
        self.find(key).is_some()
    }

    pub fn get(&self, key: &str) -> (r: Option<&V>)
        ensures
            match r {
                Some(v) => self@.contains_key(key@) && *v == self@[key@],
                None => !self@.contains_key(key@),
            },
    {
        match self.find(key) {
            Some(i) => Some(&self.entries[i].1),
            None => None,
        }
    }

    /// Removes the entry under `key` and hands its value back.
    pub fn remove(&mut self, key: &str) -> (r: Option<V>)
        ensures
            final(self)@ == old(self)@.remove(key@),
            match r {
                Some(v) => old(self)@.contains_key(key@) && v == old(self)@[key@],
                None => !old(self)@.contains_key(key@),
            },
    {
        let mut found: Option<V> = None;
        let ghost start = self@;
        loop
            invariant
                self@.remove(key@) == start.remove(key@),
                match found {
                    Some(v) => start.contains_key(key@) && v == start[key@],
                    None => self@ == start,
                },
            ensures
                !self@.contains_key(key@),
            decreases self.entries@.len(),
        {
            let i: usize = match self.find(key) {
                Some(i) => i,
                None => break,
            };
            let ghost before = self.entries@;
            let ghost view_before = self@;
            let (_, v) = self.entries.remove(i);
            proof {
                assert forall|k: Seq<char>| k != key@ implies
                    holds(self.entries@, k) == holds(before, k)
                    && (holds(before, k) ==> value_of(self.entries@, k) == value_of(before, k)) by {
                    remove_keeps_others(before, i as int, k);
                }
                assert(self@.remove(key@) =~= view_before.remove(key@));
            }
            if found.is_none() {
                found = Some(v);
            }
        }
        assert(self@ =~= start.remove(key@));
        found
    }

    /// Binds `key` to `value` in place of what was there, which it returns.
    pub fn insert(&mut self, key: String, value: V) -> (r: Option<V>)
        ensures
            final(self)@ == old(self)@.insert(key@, value),
            match r {
                Some(v) => old(self)@.contains_key(key@) && v == old(self)@[key@],
                None => !old(self)@.contains_key(key@),
            },
    {
        let previous = self.remove(key.as_str());
        let ghost before = self.entries@;
        let ghost rest = self@;
        let ghost entry = (key, value);
        self.entries.push((key, value));
        proof {
            assert forall|k: Seq<char>| #[trigger] holds(self.entries@, k) == (holds(before, k) || k == key@)
                && (holds(self.entries@, k) ==> value_of(self.entries@, k) == (
            if k == key@ {
                value
            } else {
                value_of(before, k)
            })) by {
                push_overrides(before, entry, k);
            }
            assert(forall|k: Seq<char>| #[trigger] rest.contains_key(k) == holds(before, k));
            assert(self@ =~= rest.insert(key@, value));
            assert(rest.insert(key@, value) =~= old(self)@.insert(key@, value));
        }
        previous
    }

    /// The names, each once.
    pub fn keys(&self) -> (r: Vec<String>)
        ensures
            forall|k: Seq<char>| #[trigger] self@.contains_key(k) <==> named(r@, k),
            forall|i: int, j: int| 0 <= i < j < r@.len() ==> r@[i]@ != r@[j]@,
    {
        let mut r: Vec<String> = Vec::new();
        let mut i: usize = 0;
        while i < self.entries.len()
            invariant
                i <= self.entries@.len(),
                forall|j: int| 0 <= j < i ==> named(r@, (#[trigger] self.entries@[j]).0@),
                forall|k: Seq<char>| #[trigger] named(r@, k) ==> self@.contains_key(k),
                forall|a: int, b: int| 0 <= a < b < r@.len() ==> r@[a]@ != r@[b]@,
            decreases self.entries@.len() - i,
        {
            let key: &String = &self.entries[i].0;
            let ghost before = r@;
            if !is_named(&r, key) {
                proof {
                    occurs_holds(self.entries@, i as int);
                }
                r.push(key.clone());
                assert forall|k: Seq<char>| #[trigger] named(r@, k) <==> named(before, k) || k
                    == key@ by {
                    if named(before, k) {
                        let a = choose|a: int| 0 <= a < before.len() && (#[trigger] before[a])@ == k;
                        assert(r@[a]@ == k);
                    }
                    if k == key@ {
                        assert(r@[before.len() as int]@ == k);
                    }
                    if named(r@, k) && k != key@ {
                        let a = choose|a: int| 0 <= a < r@.len() && (#[trigger] r@[a])@ == k;
                        assert(before[a]@ == k);
                    }
                }
                assert forall|a: int, b: int| 0 <= a < b < r@.len() implies r@[a]@ != r@[b]@ by {
                    assert(before[a] == r@[a]);
                    if b < before.len() {
                        assert(before[b] == r@[b]);
                    }
                }
            }
            i += 1;
        }
        assert forall|k: Seq<char>| #[trigger] self@.contains_key(k) implies named(r@, k) by {
            let p = choose|p: int| is_last(self.entries@, k, p);
            assert(named(r@, self.entries@[p].0@));
        }
        r
    }
}

/// Whether `k` is among the names.
pub open spec fn named(names: Seq<String>, k: Seq<char>) -> bool {
    exists|i: int| 0 <= i < names.len() && (#[trigger] names[i])@ == k
}

fn is_named(names: &Vec<String>, k: &String) -> (b: bool)
    ensures
        b == named(names@, k@),
{
    let mut i: usize = 0;
    while i < names.len()
        invariant
            i <= names@.len(),
            forall|j: int| 0 <= j < i ==> (#[trigger] names@[j])@ != k@,
        decreases names@.len() - i,
    {
        if names[i] == *k {
            return true;
        }
        i += 1;
    }
    false
}

/// What occurs has a last position.
proof fn occurs_holds<V>(entries: Seq<(String, V)>, i: int)
    requires
        0 <= i < entries.len(),
    ensures
        holds(entries, entries[i].0@),
    decreases entries.len() - i,
{
    let key = entries[i].0@;
    if !is_last(entries, key, i) {
        let j = choose|j: int| i < j < entries.len() && (#[trigger] entries[j]).0@ == key;
        occurs_holds(entries, j);
    }
}

} // verus!
