//! Small tables keyed by text, kept in the order of first insertion.

use crate::eval;
use crate::text::str_eq;
use crate::value::Value;
use vstd::prelude::*;

verus! {

/// A table from texts to values. Where a key occurs more than once, the first
/// entry counts.
#[derive(Debug)]
pub struct Table<V> {
    entries: Vec<(String, V)>,
}

/// The value of the first entry for `key` from `i` on.
pub open spec fn lookup_from<V>(entries: Seq<(String, V)>, key: Seq<char>, i: int) -> Option<V>
    decreases entries.len() - i,
{
    if i < 0 || i >= entries.len() {
        None
    } else if entries[i].0@ == key {
        Some(entries[i].1)
    } else {
        lookup_from(entries, key, i + 1)
    }
}

/// The table that the entries stand for.
pub open spec fn entries_map<V>(entries: Seq<(String, V)>) -> Map<Seq<char>, V> {
    Map::new(
        |k: Seq<char>| lookup_from(entries, k, 0) is Some,
        |k: Seq<char>| lookup_from(entries, k, 0)->0,
    )
}

/// A key found at `at` and nowhere between `i` and `at` is looked up there.
proof fn lemma_lookup_found<V>(entries: Seq<(String, V)>, key: Seq<char>, i: int, at: int)
    requires
        0 <= i <= at < entries.len(),
        entries[at].0@ == key,
        forall|j: int| i <= j < at ==> (#[trigger] entries[j]).0@ != key,
    ensures
        lookup_from(entries, key, i) == Some(entries[at].1),
    decreases at - i,
{
    if i < at {
        lemma_lookup_found(entries, key, i + 1, at);
    }
}

proof fn lemma_lookup_absent<V>(entries: Seq<(String, V)>, key: Seq<char>, i: int)
    requires
        0 <= i <= entries.len(),
        forall|j: int| i <= j < entries.len() ==> (#[trigger] entries[j]).0@ != key,
    ensures
        lookup_from(entries, key, i) is None,
    decreases entries.len() - i,
{
    if i < entries.len() {
        lemma_lookup_absent(entries, key, i + 1);
    }
}

/// Two entry lists that agree on a key, entry by entry, agree on its value.
proof fn lemma_lookup_same<V>(a: Seq<(String, V)>, b: Seq<(String, V)>, key: Seq<char>, i: int)
    requires
        a.len() == b.len(),
        0 <= i <= a.len(),
        forall|j: int| 0 <= j < a.len() ==> (#[trigger] a[j]).0@ == b[j].0@,
        forall|j: int| 0 <= j < a.len() && a[j].0@ == key ==> (#[trigger] a[j]).1 == b[j].1,
    ensures
        lookup_from(a, key, i) == lookup_from(b, key, i),
    decreases a.len() - i,
{
    if i < a.len() {
        lemma_lookup_same(a, b, key, i + 1);
    }
}

/// An entry behind the others counts only where they have none for its key.
proof fn lemma_lookup_push<V>(a: Seq<(String, V)>, e: (String, V), key: Seq<char>, i: int)
    requires
        0 <= i <= a.len(),
    ensures
        lookup_from(a.push(e), key, i) == (match lookup_from(a, key, i) {
            Some(v) => Some(v),
            None => if e.0@ == key {
                Some(e.1)
            } else {
                None
            },
        }),
    decreases a.len() - i,
{
    if i < a.len() {
        lemma_lookup_push(a, e, key, i + 1);
        assert(a.push(e)[i] == a[i]);
    } else {
        assert(a.push(e)[i] == e);
        assert(lookup_from(a.push(e), key, i + 1) is None);
    }
}

impl<V> View for Table<V> {
    type V = Map<Seq<char>, V>;

    closed spec fn view(&self) -> Map<Seq<char>, V> {
        entries_map(self.entries@)
    }
}

impl<V> Table<V> {
    pub fn new() -> (t: Self)
        ensures
            t@ == Map::<Seq<char>, V>::empty(),
    {
        let t: Table<V> = Table { entries: Vec::new() };
        assert(t@ =~= Map::<Seq<char>, V>::empty());
        t
    }

    /// The index of the first entry for `key`.
    fn find(&self, key: &str) -> (r: Option<usize>)
        ensures
            match r {
                Some(i) => {
                    &&& i < self.entries@.len()
                    &&& self.entries@[i as int].0@ == key@
                    &&& forall|j: int| 0 <= j < i ==> (#[trigger] self.entries@[j]).0@ != key@
                },
                None => forall|j: int|
                    0 <= j < self.entries@.len() ==> (#[trigger] self.entries@[j]).0@ != key@,
            },
    {
        let mut i: usize = 0;
        while i < self.entries.len()
            invariant
                i <= self.entries@.len(),
                forall|j: int| 0 <= j < i ==> (#[trigger] self.entries@[j]).0@ != key@,
            decreases self.entries@.len() - i,
        {
            if str_eq(self.entries[i].0.as_str(), key) {
                return Some(i);
            }
            i = i + 1;
        }
        None
    }

    /// The value of a key.
    pub fn get(&self, key: &str) -> (r: Option<&V>)
        ensures
            match r {
                Some(v) => self@.contains_key(key@) && self@[key@] == *v,
                None => !self@.contains_key(key@),
            },
    {
        match self.find(key) {
            Some(i) => {
                proof {
                    lemma_lookup_found(self.entries@, key@, 0, i as int);
                }
                Some(&self.entries[i].1)
            },
            None => {
                proof {
                    lemma_lookup_absent(self.entries@, key@, 0);
                }
                None
            },
        }
    }

    /// Sets the value of a key.
    pub fn insert(&mut self, key: String, value: V)
        ensures
            final(self)@ == old(self)@.insert(key@, value),
    {
        let ghost before = self.entries@;
        match self.find(key.as_str()) {
            Some(i) => {
                let ghost i0 = i as int;
                let entry: (String, V) = (key, value);
                self.entries.set(i, entry);
                proof {
                    let after = self.entries@;
                    lemma_lookup_found(after, key@, 0, i0);
                    assert forall|k: Seq<char>| k != key@ implies lookup_from(after, k, 0)
                        == lookup_from(before, k, 0) by {
                        lemma_lookup_same(after, before, k, 0);
                    }
                    lemma_lookup_found(before, key@, 0, i0);
                    assert(self@ =~= old(self)@.insert(key@, value));
                }
            },
            None => {
                let ghost k0 = key@;
                let entry: (String, V) = (key, value);
                self.entries.push(entry);
                proof {
                    let after = self.entries@;
                    lemma_lookup_absent(before, k0, 0);
                    assert forall|k: Seq<char>| #[trigger] lookup_from(after, k, 0) == (match lookup_from(before, k, 0) {
                        Some(v) => Some(v),
                        None => if k0 == k {
                            Some(value)
                        } else {
                            None
                        },
                    }) by {
                        lemma_lookup_push(before, entry, k, 0);
                    }
                    assert(self@ =~= old(self)@.insert(k0, value));
                }
            },
        }
    }
}

impl Table<Value> {
    /// A copy, with the same texts and values.
    pub fn copied(&self) -> (r: Self)
        ensures
            eval::var_views(r@) == eval::var_views(self@),
    {
        let mut entries: Vec<(String, Value)> = Vec::new();
        let mut i: usize = 0;
        while i < self.entries.len()
            invariant
                i <= self.entries@.len(),
                entries@.len() == i,
                forall|k: int|
                    0 <= k < i ==> (#[trigger] entries@[k]).0@ == self.entries@[k].0@
                        && entries@[k].1@ == self.entries@[k].1@,
            decreases self.entries@.len() - i,
        {
            entries.push((self.entries[i].0.clone(), self.entries[i].1.clone()));
            i = i + 1;
        }
        let r: Table<Value> = Table { entries };
        proof {
            assert forall|k: Seq<char>|
                (#[trigger] lookup_from(r.entries@, k, 0) is Some) == (lookup_from(
                    self.entries@,
                    k,
                    0,
                ) is Some) && (lookup_from(r.entries@, k, 0) is Some ==> lookup_from(
                    r.entries@,
                    k,
                    0,
                )->0@ == lookup_from(self.entries@, k, 0)->0@) by {
                lemma_lookup_views(r.entries@, self.entries@, k, 0);
            }
            assert(eval::var_views(r@) =~= eval::var_views(self@));
        }
        r
    }
}

/// Entry lists with equal views look up values with equal views.
proof fn lemma_lookup_views(
    a: Seq<(String, Value)>,
    b: Seq<(String, Value)>,
    key: Seq<char>,
    i: int,
)
    requires
        a.len() == b.len(),
        0 <= i <= a.len(),
        forall|j: int|
            0 <= j < a.len() ==> (#[trigger] a[j]).0@ == b[j].0@ && a[j].1@ == b[j].1@,
    ensures
        (lookup_from(a, key, i) is Some) == (lookup_from(b, key, i) is Some),
        lookup_from(a, key, i) is Some ==> lookup_from(a, key, i)->0@ == lookup_from(b, key, i)->0@,
    decreases a.len() - i,
{
    if i < a.len() {
        lemma_lookup_views(a, b, key, i + 1);
    }
}

} // verus!
