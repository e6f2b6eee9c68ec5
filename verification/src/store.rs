//! A persistent keyed store for one entity kind: get by remote-assigned
//! key, and upsert (insert or replace whole) under a key. One store exists
//! per entity kind; entries persist until replaced and are never
//! invalidated by time.

use vstd::prelude::*;

verus! {

/// The value stored under `id` in a sequence of keyed entries: the first
/// entry with that key, if any.
pub open spec fn seq_get<T>(s: Seq<(u32, T)>, id: u32) -> Option<T>
    decreases s.len(),
{
    if s.len() == 0 {
        None
    } else if s[0].0 == id {
        Some(s[0].1)
    } else {
        seq_get(s.skip(1), id)
    }
}

proof fn lemma_seq_get_absent<T>(s: Seq<(u32, T)>, id: u32)
    requires
        forall|i: int| 0 <= i < s.len() ==> (#[trigger] s[i]).0 != id,
    ensures
        seq_get(s, id) is None,
    decreases s.len(),
{
    if s.len() > 0 {
        assert(forall|i: int| 0 <= i < s.skip(1).len() ==> (#[trigger] s.skip(1)[i]).0 != id);
        lemma_seq_get_absent(s.skip(1), id);
    }
}

proof fn lemma_seq_get_update<T>(s: Seq<(u32, T)>, j: int, id: u32, v: T)
    requires
        0 <= j < s.len(),
        s[j].0 == id,
        forall|i: int| 0 <= i < j ==> (#[trigger] s[i]).0 != id,
    ensures
        forall|k: u32| #[trigger] seq_get(s.update(j, (id, v)), k) == (if k == id {
            Some(v)
        } else {
            seq_get(s, k)
        }),
    decreases s.len(),
{
    let t = s.update(j, (id, v));
    if j == 0 {
        assert(t.skip(1) =~= s.skip(1));
        assert forall|k: u32| #[trigger] seq_get(t, k) == (if k == id {
            Some(v)
        } else {
            seq_get(s, k)
        }) by {
            assert(t[0] == (id, v));
            if k != id {
                assert(seq_get(t, k) == seq_get(t.skip(1), k));
                assert(seq_get(s, k) == seq_get(s.skip(1), k));
            }
        }
    } else {
        assert(t[0] == s[0]);
        assert(t.skip(1) =~= s.skip(1).update(j - 1, (id, v)));
        lemma_seq_get_update(s.skip(1), j - 1, id, v);
        assert forall|k: u32| #[trigger] seq_get(t, k) == (if k == id {
            Some(v)
        } else {
            seq_get(s, k)
        }) by {
            if t[0].0 == k {
                assert(s[0].0 == k);
                assert(k != id);
            } else {
                assert(seq_get(t, k) == seq_get(t.skip(1), k));
                assert(seq_get(s, k) == seq_get(s.skip(1), k));
            }
        }
    }
}

proof fn lemma_seq_get_push<T>(s: Seq<(u32, T)>, id: u32, v: T)
    requires
        forall|i: int| 0 <= i < s.len() ==> (#[trigger] s[i]).0 != id,
    ensures
        forall|k: u32| #[trigger] seq_get(s.push((id, v)), k) == (if k == id {
            Some(v)
        } else {
            seq_get(s, k)
        }),
    decreases s.len(),
{
    let t = s.push((id, v));
    if s.len() == 0 {
        assert(t.skip(1) =~= Seq::<(u32, T)>::empty());
        assert forall|k: u32| #[trigger] seq_get(t, k) == (if k == id {
            Some(v)
        } else {
            seq_get(s, k)
        }) by {
            assert(t[0] == (id, v));
            if k != id {
                assert(seq_get(t, k) == seq_get(t.skip(1), k));
            }
        }
    } else {
        assert(t[0] == s[0]);
        assert(t.skip(1) =~= s.skip(1).push((id, v)));
        lemma_seq_get_push(s.skip(1), id, v);
        assert forall|k: u32| #[trigger] seq_get(t, k) == (if k == id {
            Some(v)
        } else {
            seq_get(s, k)
        }) by {
            if t[0].0 == k {
                assert(s[0].0 == k);
                assert(k != id);
            } else {
                assert(seq_get(t, k) == seq_get(t.skip(1), k));
                assert(seq_get(s, k) == seq_get(s.skip(1), k));
            }
        }
    }
}

/// A keyed store for one entity kind. Lookups and replacement go by the
/// numeric key alone; the stored value is an opaque snapshot.
pub struct KeyedStore<T> {
    entries: Vec<(u32, T)>,
}

impl<T> KeyedStore<T> {
    /// The entity stored under `id`, if any.
    pub closed spec fn spec_get(self, id: u32) -> Option<T> {
        seq_get(self.entries@, id)
    }

    /// An empty store: nothing is cached yet.
    pub fn new() -> (r: Self)
        ensures
            forall|id: u32| #[trigger] r.spec_get(id) is None,
    {
        KeyedStore { entries: Vec::new() }
    }

    /// Looks `id` up in the store. Returns the cached entity on a hit and
    /// nothing on a miss; the store is not consulted remotely.
    pub fn get(&self, id: u32) -> (r: Option<&T>)
        ensures
            match r {
                Some(v) => self.spec_get(id) == Some(*v),
                None => self.spec_get(id) is None,
            },
    {
        let mut i: usize = 0;
        while i < self.entries.len()
            invariant
                i <= self.entries@.len(),
                forall|j: int| 0 <= j < i ==> (#[trigger] self.entries@[j]).0 != id,
            decreases self.entries@.len() - i,
        {
            if self.entries[i].0 == id {
                proof {
                    lemma_seq_get_found(self.entries@, i as int, id);
                }
                return Some(&self.entries[i].1);
            }
            i += 1;
        }
        proof {
            lemma_seq_get_absent(self.entries@, id);
        }
        None
    }

    /// Inserts the entity under `id`, replacing whole any entity already
    /// stored there; every other key keeps its entry.
    pub fn upsert(&mut self, id: u32, v: T)
        ensures
            forall|k: u32| #[trigger] final (self).spec_get(k) == (if k == id {
                Some(v)
            } else {
                old(self).spec_get(k)
            }),
    {
        let mut i: usize = 0;
        while i < self.entries.len()
            invariant
                i <= self.entries@.len(),
                self.entries@ == old(self).entries@,
                forall|j: int| 0 <= j < i ==> (#[trigger] self.entries@[j]).0 != id,
            decreases self.entries@.len() - i,
        {
            if self.entries[i].0 == id {
                proof {
                    lemma_seq_get_update(self.entries@, i as int, id, v);
                }
                self.entries.remove(i);
                self.entries.insert(i, (id, v));
                proof {
                    assert(self.entries@ =~= old(self).entries@.update(i as int, (id, v)));
                }
                return ;
            }
            i += 1;
        }
        proof {
            lemma_seq_get_push(self.entries@, id, v);
        }
        self.entries.push((id, v));
    }
}

proof fn lemma_seq_get_found<T>(s: Seq<(u32, T)>, j: int, id: u32)
    requires
        0 <= j < s.len(),
        s[j].0 == id,
        forall|i: int| 0 <= i < j ==> (#[trigger] s[i]).0 != id,
    ensures
        seq_get(s, id) == Some(s[j].1),
    decreases j,
{
    if j > 0 {
        lemma_seq_get_found(s.skip(1), j - 1, id);
    }
}

} // verus!
