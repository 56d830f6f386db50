//! A registry of nodes keyed by node id: what the supervisor keeps of its
//! workers and what a worker keeps of its peers.
//!
//! The entries are kept in the order in which their ids were first
//! registered, and no id occurs twice. A registry is viewed as the sequence
//! of its `(id, value)` pairs.
use vstd::prelude::*;

verus! {

/// No key occurs twice.
pub open spec fn distinct_keys<V>(s: Seq<(Seq<char>, V)>) -> bool {
    forall|i: int, j: int| 0 <= i < j < s.len() ==> s[i].0 != s[j].0
}

/// `id` occurs as a key.
pub open spec fn has_key<V>(s: Seq<(Seq<char>, V)>, id: Seq<char>) -> bool {
    exists|i: int| 0 <= i < s.len() && s[i].0 == id
}

/// The position of `id` (meaningful when `has_key(s, id)`).
pub open spec fn key_index<V>(s: Seq<(Seq<char>, V)>, id: Seq<char>) -> int {
    choose|i: int| 0 <= i < s.len() && s[i].0 == id
}

/// The value registered under `id`, if any.
pub open spec fn lookup<V>(s: Seq<(Seq<char>, V)>, id: Seq<char>) -> Option<V> {
    if has_key(s, id) {
        Some(s[key_index(s, id)].1)
    } else {
        None
    }
}

/// `s` with `id` registered to `v`: the value is replaced in place when `id`
/// is present, else the pair is added at the end.
pub open spec fn upserted<V>(s: Seq<(Seq<char>, V)>, id: Seq<char>, v: V) -> Seq<(Seq<char>, V)> {
    if has_key(s, id) {
        s.update(key_index(s, id), (id, v))
    } else {
        s.push((id, v))
    }
}

/// `s` without the pair of `id`, the others keeping their order.
pub open spec fn removed<V>(s: Seq<(Seq<char>, V)>, id: Seq<char>) -> Seq<(Seq<char>, V)> {
    if has_key(s, id) {
        s.remove(key_index(s, id))
    } else {
        s
    }
}

/// The position of a present key is the one where it occurs.
pub proof fn lemma_key_index<V>(s: Seq<(Seq<char>, V)>, id: Seq<char>, i: int)
    requires
        distinct_keys(s),
        0 <= i < s.len(),
        s[i].0 == id,
    ensures
        has_key(s, id),
        key_index(s, id) == i,
{
    let k = key_index(s, id);
    assert(0 <= k < s.len() && s[k].0 == id);
}

/// Registering keeps the keys distinct, and the registered key maps to its
/// new value while every other key keeps its value.
pub proof fn lemma_upserted<V>(s: Seq<(Seq<char>, V)>, id: Seq<char>, v: V)
    requires
        distinct_keys(s),
    ensures
        distinct_keys(upserted(s, id, v)),
        lookup(upserted(s, id, v), id) == Some(v),
        forall|k: Seq<char>| k != id ==> lookup(#[trigger] upserted(s, id, v), k) == lookup(s, k),
{
    let t = upserted(s, id, v);
    if has_key(s, id) {
        let i = key_index(s, id);
        assert(t[i].0 == id);
        lemma_key_index(t, id, i);
        assert forall|k: Seq<char>| k != id implies lookup(t, k) == lookup(s, k) by {
            if has_key(s, k) {
                let j = key_index(s, k);
                assert(t[j] == s[j]);
                lemma_key_index(t, k, j);
            } else {
                if has_key(t, k) {
                    let j = key_index(t, k);
                    assert(s[j].0 == k);
                }
            }
        }
    } else {
        let i = s.len() as int;
        assert(t[i].0 == id);
        lemma_key_index(t, id, i);
        assert forall|k: Seq<char>| k != id implies lookup(t, k) == lookup(s, k) by {
            if has_key(s, k) {
                let j = key_index(s, k);
                assert(t[j] == s[j]);
                lemma_key_index(t, k, j);
            } else {
                if has_key(t, k) {
                    let j = key_index(t, k);
                    assert(s[j].0 == k);
                }
            }
        }
    }
}

/// Removing keeps the keys distinct; the removed key is gone and every other
/// key keeps its value.
pub proof fn lemma_removed<V>(s: Seq<(Seq<char>, V)>, id: Seq<char>)
    requires
        distinct_keys(s),
    ensures
        distinct_keys(removed(s, id)),
        lookup(removed(s, id), id) is None,
        forall|k: Seq<char>| k != id ==> lookup(#[trigger] removed(s, id), k) == lookup(s, k),
{
    let t = removed(s, id);
    if has_key(s, id) {
        let i = key_index(s, id);
        assert forall|a: int, b: int| 0 <= a < b < t.len() implies t[a].0 != t[b].0 by {
            let a2 = if a < i { a } else { a + 1 };
            let b2 = if b < i { b } else { b + 1 };
            assert(t[a] == s[a2]);
            assert(t[b] == s[b2]);
        }
        if has_key(t, id) {
            let j = key_index(t, id);
            let j2 = if j < i { j } else { j + 1 };
            assert(t[j] == s[j2]);
        }
        assert forall|k: Seq<char>| k != id implies lookup(t, k) == lookup(s, k) by {
            if has_key(s, k) {
                let j = key_index(s, k);
                assert(j != i);
                let j1 = if j < i { j } else { j - 1 };
                assert(t[j1] == s[j]);
                lemma_key_index(t, k, j1);
            } else {
                if has_key(t, k) {
                    let j = key_index(t, k);
                    let j2 = if j < i { j } else { j + 1 };
                    assert(t[j] == s[j2]);
                }
            }
        }
    }
}

/// Nodes registered under distinct ids, in registration order.
pub struct Registry<T> {
    entries: Vec<(String, T)>,
}

impl<T: View> View for Registry<T> {
    type V = Seq<(Seq<char>, T::V)>;

    closed spec fn view(&self) -> Seq<(Seq<char>, T::V)> {
        self.entries@.map_values(|e: (String, T)| (e.0@, e.1@))
    }
}

impl<T: View> Registry<T> {
    /// The registry is well formed: no id occurs twice.
    pub open spec fn wf(&self) -> bool {
        distinct_keys(self@)
    }

    /// An empty registry.
    pub fn new() -> (r: Self)
        ensures
            r.wf(),
            r@ == Seq::<(Seq<char>, T::V)>::empty(),
    {
        let r = Registry { entries: Vec::new() };
        assert(r@ =~= Seq::<(Seq<char>, T::V)>::empty());
        r
    }

    /// The number of registered nodes.
    pub fn len(&self) -> (n: usize)
        ensures
            n == self@.len(),
    {
        self.entries.len()
    }

    /// The id registered at position `i`.
    pub fn key_at(&self, i: usize) -> (k: &String)
        requires
            i < self@.len(),
        ensures
            k@ == self@[i as int].0,
    {
        &self.entries[i].0
    }

    /// The value registered at position `i`.
    pub fn value_at(&self, i: usize) -> (v: &T)
        requires
            i < self@.len(),
        ensures
            v@ == self@[i as int].1,
    {
        &self.entries[i].1
    }

    /// The position of `id`, if it is registered.
    pub fn find(&self, id: &String) -> (r: Option<usize>)
        requires
            self.wf(),
        ensures
            r is None <==> !has_key(self@, id@),
            r matches Some(i) ==> i < self@.len() && self@[i as int].0 == id@ && key_index(
                self@,
                id@,
            ) == i,
    {
        let mut i: usize = 0;
        while i < self.entries.len()
            invariant
                self.wf(),
                i <= self@.len(),
                self@.len() == self.entries@.len(),
                forall|j: int| 0 <= j < i ==> self@[j].0 != id@,
            decreases self@.len() - i,
        {
            assert(self@[i as int].0 == self.entries@[i as int].0@);
            if self.entries[i].0 == *id {
                proof {
                    lemma_key_index(self@, id@, i as int);
                }
                return Some(i);
            }
            i = i + 1;
        }
        None
    }

    /// Whether `id` is registered.
    pub fn contains_key(&self, id: &String) -> (b: bool)
        requires
            self.wf(),
        ensures
            b == has_key(self@, id@),
    {
        self.find(id).is_some()
    }

    /// The value registered under `id`, if any.
    pub fn get(&self, id: &String) -> (r: Option<&T>)
        requires
            self.wf(),
        ensures
            r is None <==> lookup(self@, id@) is None,
            r matches Some(v) ==> lookup(self@, id@) == Some(v@),
    {
        match self.find(id) {
            Some(i) => Some(&self.entries[i].1),
            None => None,
        }
    }

    /// Registers `id` to `v`, replacing the value in place when `id` is
    /// present and adding it at the end otherwise.
    pub fn insert(&mut self, id: String, v: T)
        requires
            old(self).wf(),
        ensures
            final(self).wf(),
            final(self)@ == upserted(old(self)@, id@, v@),
    {
        proof {
            lemma_upserted(self@, id@, v@);
        }
        match self.find(&id) {
            Some(i) => {
                let ghost key = id@;
                self.entries.set(i, (id, v));
                assert(self@ =~= old(self)@.update(i as int, (key, v@)));
            },
            None => {
                let ghost key = id@;
                self.entries.push((id, v));
                assert(self@ =~= old(self)@.push((key, v@)));
            },
        }
    }

    /// Replaces the value at position `i`, keeping its id.
    pub fn set_value_at(&mut self, i: usize, v: T)
        requires
            old(self).wf(),
            i < old(self)@.len(),
        ensures
            final(self).wf(),
            final(self)@ == old(self)@.update(i as int, (old(self)@[i as int].0, v@)),
    {
        let key = self.entries[i].0.clone();
        let ghost vv = v@;
        self.entries.set(i, (key, v));
        assert(self@ =~= old(self)@.update(i as int, (old(self)@[i as int].0, vv)));
    }

    /// Unregisters `id`, returning its value if it was registered.
    pub fn remove(&mut self, id: &String) -> (r: Option<T>)
        requires
            old(self).wf(),
        ensures
            final(self).wf(),
            final(self)@ == removed(old(self)@, id@),
            r is None <==> lookup(old(self)@, id@) is None,
            r matches Some(v) ==> lookup(old(self)@, id@) == Some(v@),
    {
        proof {
            lemma_removed(self@, id@);
        }
        match self.find(id) {
            Some(i) => {
                let e = self.entries.remove(i);
                assert(self@ =~= old(self)@.remove(i as int));
                Some(e.1)
            },
            None => None,
        }
    }
}

/// Looking up in a registry through its last pair: the last key maps to the
/// last value, and every other key is looked up in the pairs before it.
pub proof fn lemma_lookup_last<V>(s: Seq<(Seq<char>, V)>)
    requires
        distinct_keys(s),
        s.len() > 0,
    ensures
        distinct_keys(s.drop_last()),
        !has_key(s.drop_last(), s.last().0),
        lookup(s, s.last().0) == Some(s.last().1),
        forall|k: Seq<char>| k != s.last().0 ==> #[trigger] lookup(s, k) == lookup(s.drop_last(), k),
        forall|k: Seq<char>| k != s.last().0 ==> #[trigger] has_key(s, k) == has_key(s.drop_last(), k),
{
    let p = s.drop_last();
    let n = s.len() - 1;
    lemma_key_index(s, s.last().0, n);
    if has_key(p, s.last().0) {
        let j = key_index(p, s.last().0);
        assert(s[j] == p[j]);
    }
    assert forall|k: Seq<char>| k != s.last().0 implies #[trigger] has_key(s, k) == has_key(p, k) by {
        if has_key(s, k) {
            let j = key_index(s, k);
            assert(j != n);
            assert(p[j] == s[j]);
        }
        if has_key(p, k) {
            let j = key_index(p, k);
            assert(s[j] == p[j]);
        }
    }
    assert forall|k: Seq<char>| k != s.last().0 implies #[trigger] lookup(s, k) == lookup(p, k) by {
        if has_key(p, k) {
            let j = key_index(p, k);
            assert(s[j] == p[j]);
            lemma_key_index(s, k, j);
            lemma_key_index(p, k, j);
        }
        assert(has_key(s, k) == has_key(p, k));
    }
}

/// An empty registry maps no key.
pub proof fn lemma_lookup_empty<V>(s: Seq<(Seq<char>, V)>, k: Seq<char>)
    requires
        s.len() == 0,
    ensures
        !has_key(s, k),
        lookup(s, k) is None,
{
}

} // verus!
