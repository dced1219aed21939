//! A map keyed by text.

use vstd::prelude::*;

use crate::text;

verus! {

/// A map keyed by text, in the order in which the keys first came.
pub struct Table<V> {
    entries: Vec<(String, V)>,
}

/// Whether an entry has this key.
spec fn holds<V>(entries: Seq<(String, V)>, key: Seq<char>) -> bool {
    exists|i: int| 0 <= i < entries.len() && (#[trigger] entries[i]).0@ == key
}

/// Where the entry with this key stands.
spec fn at<V>(entries: Seq<(String, V)>, key: Seq<char>) -> int {
    choose|i: int| 0 <= i < entries.len() && (#[trigger] entries[i]).0@ == key
}

/// Whether no key occurs twice.
spec fn distinct<V>(entries: Seq<(String, V)>) -> bool {
    forall|i: int, k: int|
        0 <= i < k < entries.len() ==> (#[trigger] entries[i]).0@ != (#[trigger] entries[k]).0@
}

/// The keys and values of entries.
spec fn as_map<V>(entries: Seq<(String, V)>) -> Map<Seq<char>, V> {
    Map::new(|key: Seq<char>| holds(entries, key), |key: Seq<char>| entries[at(entries, key)].1)
}

proof fn lemma_at<V>(entries: Seq<(String, V)>, i: int)
    requires
        distinct(entries),
        0 <= i < entries.len(),
    ensures
        as_map(entries).contains_key(entries[i].0@),
        as_map(entries)[entries[i].0@] == entries[i].1,
        at(entries, entries[i].0@) == i,
{
    let key = entries[i].0@;
    assert(holds(entries, key));
    let k = at(entries, key);
    assert(entries[k].0@ == entries[i].0@);
}

proof fn lemma_push<V>(entries: Seq<(String, V)>, key: String, value: V)
    requires
        distinct(entries),
        !holds(entries, key@),
    ensures
        distinct(entries.push((key, value))),
        as_map(entries.push((key, value))) == as_map(entries).insert(key@, value),
{
    let after = entries.push((key, value));
    assert forall|i: int, k: int| 0 <= i < k < after.len() implies (#[trigger] after[i]).0@ != (
    #[trigger] after[k]).0@ by {
        if k == entries.len() {
            assert(entries[i] == after[i]);
        } else {
            assert(entries[i].0@ != entries[k].0@);
        }
    }
    let m = as_map(after);
    let n = as_map(entries).insert(key@, value);
    assert forall|q: Seq<char>| #[trigger] m.dom().contains(q) == n.dom().contains(q) && (
    m.dom().contains(q) ==> m[q] == n[q]) by {
        if holds(after, q) {
            let i = at(after, q);
            lemma_at(after, i);
            if i < entries.len() {
                assert(entries[i] == after[i]);
                lemma_at(entries, i);
            }
        }
        if holds(entries, q) {
            let i = at(entries, q);
            assert(after[i] == entries[i]);
            lemma_at(after, i);
        }
        assert(after[entries.len() as int].0@ == key@);
        lemma_at(after, entries.len() as int);
    }
    assert(m =~= n);
}

proof fn lemma_set<V>(entries: Seq<(String, V)>, i: int, key: String, value: V)
    requires
        distinct(entries),
        0 <= i < entries.len(),
        entries[i].0@ == key@,
    ensures
        distinct(entries.update(i, (key, value))),
        as_map(entries.update(i, (key, value))) == as_map(entries).insert(key@, value),
{
    let after = entries.update(i, (key, value));
    assert forall|k: int| 0 <= k < after.len() implies (#[trigger] after[k]).0@
        == entries[k].0@ by {}
    assert(distinct(after)) by {
        assert forall|a: int, b: int| 0 <= a < b < after.len() implies (#[trigger] after[a]).0@ != (
        #[trigger] after[b]).0@ by {
            assert(entries[a].0@ != entries[b].0@);
        }
    }
    let m = as_map(after);
    let n = as_map(entries).insert(key@, value);
    assert forall|q: Seq<char>| #[trigger] m.dom().contains(q) == n.dom().contains(q) && (
    m.dom().contains(q) ==> m[q] == n[q]) by {
        if holds(after, q) {
            let k = at(after, q);
            lemma_at(after, k);
            assert(entries[k].0@ == q);
            lemma_at(entries, k);
        }
        if holds(entries, q) {
            let k = at(entries, q);
            assert(after[k].0@ == q);
            lemma_at(after, k);
        }
        lemma_at(after, i);
    }
    assert(m =~= n);
}

proof fn lemma_remove<V>(entries: Seq<(String, V)>, i: int)
    requires
        distinct(entries),
        0 <= i < entries.len(),
    ensures
        distinct(entries.remove(i)),
        as_map(entries.remove(i)) == as_map(entries).remove(entries[i].0@),
{
    let after = entries.remove(i);
    let key = entries[i].0@;
    assert forall|k: int| 0 <= k < after.len() implies #[trigger] after[k] == entries[if k < i {
        k
    } else {
        k + 1
    }] by {}
    assert(distinct(after)) by {
        assert forall|a: int, b: int| 0 <= a < b < after.len() implies (#[trigger] after[a]).0@ != (
        #[trigger] after[b]).0@ by {
            let x = if a < i {
                a
            } else {
                a + 1
            };
            let y = if b < i {
                b
            } else {
                b + 1
            };
            assert(entries[x].0@ != entries[y].0@);
        }
    }
    let m = as_map(after);
    let n = as_map(entries).remove(key);
    assert forall|q: Seq<char>| #[trigger] m.dom().contains(q) == n.dom().contains(q) && (
    m.dom().contains(q) ==> m[q] == n[q]) by {
        if holds(after, q) {
            let k = at(after, q);
            lemma_at(after, k);
            let x = if k < i {
                k
            } else {
                k + 1
            };
            assert(after[k] == entries[x]);
            lemma_at(entries, x);
            lemma_at(entries, i);
        }
        if holds(entries, q) && q != key {
            let k = at(entries, q);
            lemma_at(entries, k);
            let x = if k < i {
                k
            } else {
                k - 1
            };
            assert(after[x] == entries[k]);
            lemma_at(after, x);
        }
    }
    assert(m =~= n);
}

impl<V> View for Table<V> {
    type V = Map<Seq<char>, V>;

    closed spec fn view(&self) -> Map<Seq<char>, V> {
        as_map(self.entries@)
    }
}

impl<V: DeepView> DeepView for Table<V> {
    type V = Map<Seq<char>, V::V>;

    open spec fn deep_view(&self) -> Map<Seq<char>, V::V> {
        self@.map_values(|v: V| v.deep_view())
    }
}

impl<V> Table<V> {
    /// What holds of every table: no key occurs twice.
    pub closed spec fn wf(self) -> bool {
        distinct(self.entries@)
    }

    /// The keys, in order.
    pub closed spec fn keys(self) -> Seq<Seq<char>> {
        Seq::new(self.entries@.len(), |i: int| self.entries@[i].0@)
    }

    /// The keys are those of the map, each once.
    pub proof fn lemma_keys(self)
        requires
            self.wf(),
        ensures
            self.keys().no_duplicates(),
            forall|key: Seq<char>|
                self.keys().contains(key) == #[trigger] self@.contains_key(key),
    {
        assert forall|i: int, k: int|
            0 <= i < self.keys().len() && 0 <= k < self.keys().len() && i
                != k implies self.keys()[i] != self.keys()[k] by {
            if i < k {
                assert(self.entries@[i].0@ != self.entries@[k].0@);
            } else {
                assert(self.entries@[k].0@ != self.entries@[i].0@);
            }
        }
        assert forall|key: Seq<char>| self.keys().contains(key) == #[trigger] self@.contains_key(
            key,
        ) by {
            if self.keys().contains(key) {
                let i = choose|i: int| 0 <= i < self.keys().len() && self.keys()[i] == key;
                assert(self.entries@[i].0@ == key);
            }
            if holds(self.entries@, key) {
                let i = at(self.entries@, key);
                assert(self.keys()[i] == key);
            }
        }
    }

    /// An empty table.
    pub fn new() -> (r: Table<V>)
        ensures
            r.wf(),
            r@ == Map::<Seq<char>, V>::empty(),
            r.keys().len() == 0,
    {
        let r = Table { entries: Vec::new() };
        assert(r@ =~= Map::<Seq<char>, V>::empty());
        r
    }

    fn find(&self, key: &str) -> (r: Option<usize>)
        ensures
            match r {
                Some(i) => i < self.entries.len() && self.entries@[i as int].0@ == key@,
                None => !holds(self.entries@, key@),
            },
    {
        let mut i: usize = 0;
        while i < self.entries.len()
            invariant
                i <= self.entries.len(),
                forall|k: int| 0 <= k < i ==> (#[trigger] self.entries@[k]).0@ != key@,
            decreases self.entries.len() - i,
        {
            if text::same(self.entries[i].0.as_str(), key) {
                return Some(i);
            }
            i += 1;
        }
        None
    }

    /// How many keys there are.
    pub fn len(&self) -> (r: usize)
        ensures
            r == self.keys().len(),
    {
        self.entries.len()
    }

    /// The key at a place in the order.
    pub fn key(&self, i: usize) -> (r: &String)
        requires
            i < self.keys().len(),
        ensures
            r@ == self.keys()[i as int],
    {
        &self.entries[i].0
    }

    /// The value at a place in the order.
    pub fn value(&self, i: usize) -> (r: &V)
        requires
            self.wf(),
            i < self.keys().len(),
        ensures
            self@.contains_key(self.keys()[i as int]),
            *r == self@[self.keys()[i as int]],
    {
        proof {
            lemma_at(self.entries@, i as int);
        }
        &self.entries[i].1
    }

    /// The value under a key.
    pub fn get(&self, key: &str) -> (r: Option<&V>)
        requires
            self.wf(),
        ensures
            match r {
                Some(v) => self@.contains_key(key@) && *v == self@[key@],
                None => !self@.contains_key(key@),
            },
    {
        match self.find(key) {
            Some(i) => {
                proof {
                    lemma_at(self.entries@, i as int);
                }
                Some(&self.entries[i].1)
            },
            None => None,
        }
    }

    /// Whether there is a value under a key.
    pub fn contains_key(&self, key: &str) -> (r: bool)
        requires
            self.wf(),
        ensures
            r == self@.contains_key(key@),
    {
        self.get(key).is_some()
    }

    /// Puts a value under a key, in place of the one that was there.
    pub fn insert(&mut self, key: String, value: V)
        requires
            old(self).wf(),
        ensures
            final(self).wf(),
            final(self)@ == old(self)@.insert(key@, value),
    {
        match self.find(key.as_str()) {
            Some(i) => {
                proof {
                    lemma_set(self.entries@, i as int, key, value);
                }
                self.entries.set(i, (key, value));
            },
            None => {
                proof {
                    lemma_push(self.entries@, key, value);
                }
                self.entries.push((key, value));
            },
        }
    }

    /// Takes the value under a key out.
    pub fn remove(&mut self, key: &str) -> (r: Option<V>)
        requires
            old(self).wf(),
        ensures
            final(self).wf(),
            final(self)@ == old(self)@.remove(key@),
            match r {
                Some(v) => old(self)@.contains_key(key@) && v == old(self)@[key@],
                None => !old(self)@.contains_key(key@),
            },
    {
        match self.find(key) {
            Some(i) => {
                proof {
                    lemma_at(self.entries@, i as int);
                    lemma_remove(self.entries@, i as int);
                }
                Some(self.entries.remove(i).1)
            },
            None => {
                assert(self@.remove(key@) =~= self@);
                None
            },
        }
    }
}

/// What is put under a key is found under it, and what stands under every other key
/// stays.
pub proof fn values_are_found_under_their_keys<V>(
    before: Table<V>,
    after: Table<V>,
    key: String,
    value: V,
    name: &str,
    found: Option<&V>,
    has: bool,
    other: Seq<char>,
)
    requires
        exists|t: &mut Table<V>|
            *t == before && *final(t) == after && #[trigger] call_ensures(
                Table::<V>::insert,
                (t, key, value),
                (),
            ),
        name@ == key@,
        call_ensures(Table::<V>::get, (&after, name), found),
        call_ensures(Table::<V>::contains_key, (&after, name), has),
    ensures
        has,
        found is Some && *found.unwrap() == value,
        after@.contains_key(key@) && after@[key@] == value,
        other != key@ ==> (after@.contains_key(other) <==> before@.contains_key(other)),
        other != key@ && after@.contains_key(other) ==> after@[other] == before@[other],
{
}

/// What is taken out from under a key is what stood there, nothing stands there any
/// more, and what stands under every other key stays. A new table holds nothing.
pub proof fn values_are_taken_out_from_under_their_keys<V>(
    fresh: Table<V>,
    before: Table<V>,
    after: Table<V>,
    key: &str,
    r: Option<V>,
    found: Option<&V>,
    other: Seq<char>,
)
    requires
        call_ensures(Table::<V>::new, (), fresh),
        exists|t: &mut Table<V>|
            *t == before && *final(t) == after && #[trigger] call_ensures(
                Table::<V>::remove,
                (t, key),
                r,
            ),
        call_ensures(Table::<V>::get, (&after, key), found),
    ensures
        !fresh@.contains_key(other),
        r is Some <==> before@.contains_key(key@),
        r is Some ==> r.unwrap() == before@[key@],
        found is None,
        other != key@ ==> (after@.contains_key(other) <==> before@.contains_key(other)),
        other != key@ && after@.contains_key(other) ==> after@[other] == before@[other],
{
}

/// The keys of a table are those under which something stands, each once, and what
/// stands at a place is what stands under the key there.
pub proof fn keys_are_those_with_a_value<V>(
    table: Table<V>,
    n: usize,
    i: usize,
    key: &String,
    value: &V,
    other: Seq<char>,
)
    requires
        table.wf(),
        call_ensures(Table::<V>::len, (&table,), n),
        i < n,
        call_ensures(Table::<V>::key, (&table, i), key),
        call_ensures(Table::<V>::value, (&table, i), value),
    ensures
        table.keys().len() == n,
        table.keys().no_duplicates(),
        table.keys()[i as int] == key@,
        table@.contains_key(key@),
        *value == table@[key@],
        table@.contains_key(other) <==> table.keys().contains(other),
{
    table.lemma_keys();
    assert(table.keys().contains(other) == table@.contains_key(other));
}

} // verus!
