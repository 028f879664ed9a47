//! A small keyed table: a vector of entries with distinct keys, seen as a map.
use vstd::prelude::*;

verus! {

/// Keys that can be compared by their views.
pub trait SameKey: View + Sized {
    fn same_key(&self, other: &Self) -> (r: bool)
        ensures
            r == (self@ == other@),
    ;
}

impl SameKey for String {
    fn same_key(&self, other: &String) -> (r: bool) {
        *self == *other
    }
}

/// Entries with pairwise distinct keys; the ghost map is what they hold.
pub struct Table<K: View, V> {
    entries: Vec<(K, V)>,
    contents: Ghost<Map<<K as View>::V, V>>,
}

impl<K: SameKey, V> Table<K, V> {
    pub closed spec fn view(&self) -> Map<<K as View>::V, V> {
        self.contents@
    }

    pub closed spec fn wf(&self) -> bool {
        &&& forall|i: int, j: int|
            0 <= i < j < self.entries@.len() ==> self.entries@[i].0@ != self.entries@[j].0@
        &&& forall|i: int|
            0 <= i < self.entries@.len() ==> {
                &&& self.contents@.contains_key(#[trigger] self.entries@[i].0@)
                &&& self.contents@[self.entries@[i].0@] == self.entries@[i].1
            }
        &&& forall|k: <K as View>::V|
            #[trigger] self.contents@.contains_key(k) ==> exists|i: int|
                0 <= i < self.entries@.len() && #[trigger] self.entries@[i].0@ == k
    }

    /// The number of entries.
    pub closed spec fn len(&self) -> nat {
        self.entries@.len()
    }

    /// The key stored at position `i`.
    pub closed spec fn key_at(&self, i: int) -> <K as View>::V {
        self.entries@[i].0@
    }

    pub fn new() -> (t: Self)
        ensures
            t.wf(),
            t@ == Map::<<K as View>::V, V>::empty(),
    {
        Table { entries: Vec::new(), contents: Ghost(Map::empty()) }
    }

    /// The position of `k`, if it has an entry.
    pub fn position(&self, k: &K) -> (r: Option<usize>)
        requires
            self.wf(),
        ensures
            r is None ==> !self@.contains_key(k@),
            r matches Some(i) ==> i < self.len() && self.key_at(i as int) == k@ && self@.contains_key(
                k@,
            ),
    {
        let mut i: usize = 0;
        while i < self.entries.len()
            invariant
                self.wf(),
                i <= self.entries@.len(),
                forall|j: int| 0 <= j < i ==> self.entries@[j].0@ != k@,
            decreases self.entries@.len() - i,
        {
            if self.entries[i].0.same_key(k) {
                return Some(i);
            }
            i += 1;
        }
        proof {
            if self@.contains_key(k@) {
                let w = choose|j: int| 0 <= j < self.entries@.len() && #[trigger] self.entries@[j].0@ == k@;
                assert(self.entries@[w].0@ == k@);
            }
        }
        None
    }

    /// The value stored at position `i`.
    pub fn value_at(&self, i: usize) -> (r: &V)
        requires
            self.wf(),
            i < self.len(),
        ensures
            self@.contains_key(self.key_at(i as int)),
            *r == self@[self.key_at(i as int)],
    {
        &self.entries[i].1
    }

    /// Takes out the entry at position `i`.
    pub fn take_at(&mut self, i: usize) -> (r: (K, V))
        requires
            old(self).wf(),
            i < old(self).len(),
        ensures
            final(self).wf(),
            r.0@ == old(self).key_at(i as int),
            old(self)@.contains_key(r.0@),
            r.1 == old(self)@[r.0@],
            final(self)@ == old(self)@.remove(r.0@),
    {
        let ghost old_entries = self.entries@;
        let r = self.entries.remove(i);
        let ghost k = r.0@;
        self.contents = Ghost(self.contents@.remove(k));
        proof {
            let n = self.entries@;
            assert forall|a: int, b: int| 0 <= a < b < n.len() implies n[a].0@ != n[b].0@ by {
                let oa = if a < i { a } else { a + 1 };
                let ob = if b < i { b } else { b + 1 };
                assert(n[a] == old_entries[oa]);
                assert(n[b] == old_entries[ob]);
            }
            assert forall|a: int| 0 <= a < n.len() implies {
                &&& self.contents@.contains_key(#[trigger] n[a].0@)
                &&& self.contents@[n[a].0@] == n[a].1
            } by {
                let oa = if a < i { a } else { a + 1 };
                assert(n[a] == old_entries[oa]);
                assert(old_entries[oa].0@ != old_entries[i as int].0@);
            }
            assert forall|h: <K as View>::V| #[trigger] self.contents@.contains_key(h) implies exists|
                a: int,
            | 0 <= a < n.len() && #[trigger] n[a].0@ == h by {
                let w = choose|j: int| 0 <= j < old_entries.len() && #[trigger] old_entries[j].0@ == h;
                assert(w != i);
                if w < i {
                    assert(n[w] == old_entries[w]);
                } else {
                    assert(n[w - 1] == old_entries[w]);
                }
            }
        }
        r
    }

    /// Adds an entry for a key that has none.
    fn push_new(&mut self, k: K, v: V)
        requires
            old(self).wf(),
            !old(self)@.contains_key(k@),
        ensures
            final(self).wf(),
            final(self)@ == old(self)@.insert(k@, v),
    {
        let ghost old_entries = self.entries@;
        let ghost kv = k@;
        let ghost vv = v;
        self.entries.push((k, v));
        self.contents = Ghost(self.contents@.insert(kv, vv));
        proof {
            let n = self.entries@;
            assert(n[old_entries.len() as int].0@ == kv);
            assert forall|a: int, b: int| 0 <= a < b < n.len() implies n[a].0@ != n[b].0@ by {
                if b == old_entries.len() {
                    assert(n[a] == old_entries[a]);
                    assert(old_entries[a].0@ != kv);
                } else {
                    assert(n[a] == old_entries[a]);
                    assert(n[b] == old_entries[b]);
                }
            }
            assert forall|a: int| 0 <= a < n.len() implies {
                &&& self.contents@.contains_key(#[trigger] n[a].0@)
                &&& self.contents@[n[a].0@] == n[a].1
            } by {
                if a < old_entries.len() {
                    assert(n[a] == old_entries[a]);
                    assert(old_entries[a].0@ != kv);
                }
            }
            assert forall|h: <K as View>::V| #[trigger] self.contents@.contains_key(h) implies exists|
                a: int,
            | 0 <= a < n.len() && #[trigger] n[a].0@ == h by {
                if h == kv {
                    assert(n[old_entries.len() as int].0@ == h);
                } else {
                    let w = choose|j: int| 0 <= j < old_entries.len() && #[trigger] old_entries[j].0@ == h;
                    assert(n[w] == old_entries[w]);
                }
            }
        }
    }

    /// Sets the value of `k`, replacing any earlier one.
    pub fn put(&mut self, k: K, v: V)
        requires
            old(self).wf(),
        ensures
            final(self).wf(),
            final(self)@ == old(self)@.insert(k@, v),
    {
        match self.position(&k) {
            Some(i) => {
                let ghost before = self@;
                let _old = self.take_at(i);
                self.push_new(k, v);
                assert(self@ =~= before.insert(k@, v));
            },
            None => {
                self.push_new(k, v);
            },
        }
    }

    /// Removes the entry of `k`, if any, and hands back its value.
    pub fn remove(&mut self, k: &K) -> (r: Option<V>)
        requires
            old(self).wf(),
        ensures
            final(self).wf(),
            final(self)@ == old(self)@.remove(k@),
            r == (if old(self)@.contains_key(k@) {
                Some(old(self)@[k@])
            } else {
                None
            }),
    {
        match self.position(k) {
            Some(i) => {
                let e = self.take_at(i);
                Some(e.1)
            },
            None => {
                assert(self@.remove(k@) =~= self@);
                None
            },
        }
    }
}

} // verus!
