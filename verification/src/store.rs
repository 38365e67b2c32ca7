//! `SnapshotStore`: the entries of the snapshot scope of a key-value storage,
//! each a path and the bytes stored under it, with no path twice.

use vstd::prelude::*;
use crate::text::str_equal;

verus! {

/// The map that a sequence of entries describes: a later entry for a key
/// replaces an earlier one.
pub open spec fn entries_map(s: Seq<(Seq<char>, Seq<u8>)>) -> Map<Seq<char>, Seq<u8>>
    decreases s.len(),
{
    if s.len() == 0 {
        Map::empty()
    } else {
        entries_map(s.drop_last()).insert(s.last().0, s.last().1)
    }
}

/// No key occurs twice among the entries.
pub open spec fn distinct_keys(s: Seq<(Seq<char>, Seq<u8>)>) -> bool {
    forall|i: int, j: int| 0 <= i < j < s.len() ==> #[trigger] s[i].0 != #[trigger] s[j].0
}

/// The keys of the entries, in order.
pub open spec fn entry_keys(s: Seq<(Seq<char>, Seq<u8>)>) -> Seq<Seq<char>> {
    s.map_values(|e: (Seq<char>, Seq<u8>)| e.0)
}

proof fn lemma_map_push(s: Seq<(Seq<char>, Seq<u8>)>, e: (Seq<char>, Seq<u8>))
    ensures
        entries_map(s.push(e)) == entries_map(s).insert(e.0, e.1),
{
    assert(s.push(e).drop_last() =~= s);
}

pub proof fn lemma_map_domain(s: Seq<(Seq<char>, Seq<u8>)>, k: Seq<char>)
    ensures
        entries_map(s).contains_key(k) <==> exists|i: int| 0 <= i < s.len() && #[trigger] s[i].0 == k,
    decreases s.len(),
{
    if s.len() > 0 {
        lemma_map_domain(s.drop_last(), k);
        if entries_map(s).contains_key(k) && s.last().0 != k {
            let i = choose|i: int| 0 <= i < s.drop_last().len() && #[trigger] s.drop_last()[i].0 == k;
            assert(s[i].0 == k);
        }
        if exists|i: int| 0 <= i < s.len() && #[trigger] s[i].0 == k {
            let i = choose|i: int| 0 <= i < s.len() && #[trigger] s[i].0 == k;
            if i < s.len() - 1 {
                assert(s.drop_last()[i].0 == k);
            }
        }
    }
}

proof fn lemma_map_update(s: Seq<(Seq<char>, Seq<u8>)>, i: int, v: Seq<u8>)
    requires
        distinct_keys(s),
        0 <= i < s.len(),
    ensures
        entries_map(s.update(i, (s[i].0, v))) == entries_map(s).insert(s[i].0, v),
    decreases s.len(),
{
    let k = s[i].0;
    let t = s.update(i, (k, v));
    if i == s.len() - 1 {
        assert(t.drop_last() =~= s.drop_last());
        assert(entries_map(t) =~= entries_map(s).insert(k, v));
    } else {
        assert(t.drop_last() =~= s.drop_last().update(i, (k, v)));
        lemma_map_update(s.drop_last(), i, v);
        assert(s.last().0 != k);
        assert(entries_map(t) =~= entries_map(s).insert(k, v));
    }
}

proof fn lemma_map_remove(s: Seq<(Seq<char>, Seq<u8>)>, i: int)
    requires
        distinct_keys(s),
        0 <= i < s.len(),
    ensures
        entries_map(s.remove(i)) == entries_map(s).remove(s[i].0),
    decreases s.len(),
{
    let k = s[i].0;
    let t = s.remove(i);
    if i == s.len() - 1 {
        assert(t =~= s.drop_last());
        lemma_map_domain(s.drop_last(), k);
        assert(!entries_map(s.drop_last()).contains_key(k));
        assert(entries_map(t) =~= entries_map(s).remove(k));
    } else {
        assert(t.drop_last() =~= s.drop_last().remove(i));
        assert(t.last() == s.last());
        lemma_map_remove(s.drop_last(), i);
        assert(s.last().0 != k);
        assert(entries_map(t) =~= entries_map(s).remove(k));
    }
}

/// The entries of the snapshot scope of a storage.
pub struct SnapshotStore {
    entries: Vec<(String, Vec<u8>)>,
}

impl View for SnapshotStore {
    type V = Seq<(Seq<char>, Seq<u8>)>;

    closed spec fn view(&self) -> Seq<(Seq<char>, Seq<u8>)> {
        self.entries@.map_values(|e: (String, Vec<u8>)| (e.0@, e.1@))
    }
}

impl SnapshotStore {
    /// No path is stored twice.
    #[verifier::type_invariant]
    closed spec fn keys_distinct(self) -> bool {
        distinct_keys(self@)
    }

    /// The path to bytes map that the store holds.
    pub open spec fn spec_map(&self) -> Map<Seq<char>, Seq<u8>> {
        entries_map(self@)
    }

    /// An empty store.
    pub fn new() -> (store: Self)
        ensures
            store@ == Seq::<(Seq<char>, Seq<u8>)>::empty(),
    {
        let store = SnapshotStore { entries: Vec::new() };
        assert(store@ =~= Seq::<(Seq<char>, Seq<u8>)>::empty());
        store
    }

    /// The number of stored entries, no path among them twice.
    pub fn len(&self) -> (n: usize)
        ensures
            n == self@.len(),
            distinct_keys(self@),
    {
        proof {
            use_type_invariant(self);
        }
        self.entries.len()
    }

    /// The entry at `index`.
    pub fn entry(&self, index: usize) -> (e: &(String, Vec<u8>))
        requires
            index < self@.len(),
        ensures
            (e.0@, e.1@) == self@[index as int],
    {
        &self.entries[index]
    }

    /// The index of the entry stored under `key`, if any.
    pub fn position(&self, key: &str) -> (index: Option<usize>)
        ensures
            index matches Some(i) ==> i < self@.len() && self@[i as int].0 == key@ && forall|j: int|
                0 <= j < i ==> #[trigger] self@[j].0 != key@,
            index is None ==> forall|i: int| 0 <= i < self@.len() ==> #[trigger] self@[i].0 != key@,
    {
        let n = self.entries.len();
        let mut i: usize = 0;
        while i < n
            invariant
                n == self.entries@.len(),
                0 <= i <= n,
                forall|j: int| 0 <= j < i ==> #[trigger] self@[j].0 != key@,
            decreases n - i,
        {
            if str_equal(self.entries[i].0.as_str(), key) {
                return Some(i);
            }
            i = i + 1;
        }
        None
    }

    /// Stores `value` under `key`, replacing what was stored under it.
    pub fn set(&mut self, key: String, value: Vec<u8>)
        ensures
            final(self).spec_map() == old(self).spec_map().insert(key@, value@),
    {
        proof {
            use_type_invariant(&*self);
        }
        let ghost old_view = self@;
        let ghost kv = key@;
        let ghost vv = value@;
        let position = self.position(key.as_str());
        let mut entries = Vec::new();
        std::mem::swap(&mut entries, &mut self.entries);
        match position {
            Some(i) => {
                entries.set(i, (key, value));
            },
            None => {
                entries.push((key, value));
            },
        }
        proof {
            let nv = entries@.map_values(|e: (String, Vec<u8>)| (e.0@, e.1@));
            match position {
                Some(i) => {
                    assert(nv =~= old_view.update(i as int, (kv, vv)));
                },
                None => {
                    assert(nv =~= old_view.push((kv, vv)));
                    assert(nv[old_view.len() as int].0 == kv);
                },
            }
            assert(distinct_keys(nv));
        }
        self.entries = entries;
        proof {
            match position {
                Some(i) => {
                    assert(self@ =~= old_view.update(i as int, (kv, vv)));
                    lemma_map_update(old_view, i as int, vv);
                },
                None => {
                    assert(self@ =~= old_view.push((kv, vv)));
                    lemma_map_push(old_view, (kv, vv));
                },
            }
        }
    }

    /// Removes what is stored under `key`.
    pub fn remove(&mut self, key: &str)
        ensures
            final(self).spec_map() == old(self).spec_map().remove(key@),
    {
        proof {
            use_type_invariant(&*self);
        }
        let ghost old_view = self@;
        match self.position(key) {
            Some(i) => {
                let mut entries = Vec::new();
                std::mem::swap(&mut entries, &mut self.entries);
                entries.remove(i);
                proof {
                    let nv = entries@.map_values(|e: (String, Vec<u8>)| (e.0@, e.1@));
                    assert(nv =~= old_view.remove(i as int));
                    assert(distinct_keys(nv)) by {
                        assert forall|a: int, b: int| 0 <= a < b < nv.len() implies #[trigger] nv[a].0
                            != #[trigger] nv[b].0 by {
                            let a2 = if a < i { a } else { a + 1 };
                            let b2 = if b < i { b } else { b + 1 };
                            assert(nv[a] == old_view[a2]);
                            assert(nv[b] == old_view[b2]);
                        }
                    }
                }
                self.entries = entries;
                proof {
                    assert(self@ =~= old_view.remove(i as int));
                    lemma_map_remove(old_view, i as int);
                }
            },
            None => {
                proof {
                    lemma_map_domain(old_view, key@);
                    assert(old_view.len() == self@.len());
                    assert(self.spec_map() =~= old(self).spec_map().remove(key@));
                }
            },
        }
    }
}

} // verus!
