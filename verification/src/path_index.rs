//! The path index: a persistent mapping from filesystem path (and,
//! secondarily, filename plus byte size) to a content-record key.
//!
//! The dual-key lookup is what lets a renamed or moved file be recognized
//! as already indexed without rehashing: the path no longer matches, but
//! filename and size still do, and the entry's recorded path is then healed
//! to the new location as a side effect of the lookup. At most one entry
//! exists per path and at most one per (filename, size) pair; recording a
//! second entry with the same (filename, size) replaces the prior one.

use vstd::prelude::*;

verus! {

/// One row of the index: a path mapped to a content-record key, with the
/// denormalized filename and byte size used for secondary matching.
pub struct PathEntry {
    pub path: String,
    pub filename: String,
    pub size: u64,
    pub fid: u32,
}

/// Two entries collide when they share a path or share both filename and
/// size; the index keeps no two colliding entries.
pub open spec fn conflicts(a: PathEntry, b: PathEntry) -> bool {
    a.path@ == b.path@ || (a.filename@ == b.filename@ && a.size == b.size)
}

/// The index invariant: entries are pairwise free of collisions, so each
/// path and each (filename, size) pair names at most one entry.
pub open spec fn wf(s: Seq<PathEntry>) -> bool {
    forall|i: int, j: int|
        0 <= i < j < s.len() ==> !conflicts(#[trigger] s[i], #[trigger] s[j])
}

/// The index of the first entry satisfying `p`, if any.
pub open spec fn find_first(s: Seq<PathEntry>, p: spec_fn(PathEntry) -> bool) -> Option<int>
    decreases s.len(),
{
    if s.len() == 0 {
        None
    } else if p(s[0]) {
        Some(0int)
    } else {
        match find_first(s.skip(1), p) {
            Some(i) => Some(i + 1),
            None => None,
        }
    }
}

/// Matching on exact path.
pub open spec fn matches_path(path: Seq<char>) -> spec_fn(PathEntry) -> bool {
    |e: PathEntry| e.path@ == path
}

/// Matching on filename and byte size.
pub open spec fn matches_name_size(filename: Seq<char>, size: u64) -> spec_fn(PathEntry) -> bool {
    |e: PathEntry| e.filename@ == filename && e.size == size
}

/// Which entry a dual-key lookup hits: the entry with the exact path if one
/// exists, otherwise the entry with the same filename and size.
pub open spec fn find_match(
    s: Seq<PathEntry>,
    path: Seq<char>,
    filename: Seq<char>,
    size: u64,
) -> Option<int> {
    match find_first(s, matches_path(path)) {
        Some(i) => Some(i),
        None => find_first(s, matches_name_size(filename, size)),
    }
}

/// An entry survives recording a new row when it collides with it neither
/// by path nor by (filename, size).
pub open spec fn survives(e: PathEntry, path: Seq<char>, filename: Seq<char>, size: u64) -> bool {
    e.path@ != path && !(e.filename@ == filename && e.size == size)
}

/// Whether some string in `dead` spells the path `p`.
pub open spec fn contains_path(dead: Seq<String>, p: Seq<char>) -> bool {
    exists|i: int| 0 <= i < dead.len() && dead[i]@ == p
}

pub proof fn lemma_find_first_at(s: Seq<PathEntry>, p: spec_fn(PathEntry) -> bool, j: int)
    requires
        0 <= j < s.len(),
        p(s[j]),
        forall|k: int| 0 <= k < j ==> !p(s[k]),
    ensures
        find_first(s, p) == Some(j),
    decreases j,
{
    if j > 0 {
        let tail = s.skip(1);
        assert(tail[j - 1] == s[j]);
        assert forall|k: int| 0 <= k < j - 1 implies !p(tail[k]) by {
            assert(tail[k] == s[k + 1]);
            assert(!p(s[k + 1]));
        }
        lemma_find_first_at(tail, p, j - 1);
    }
}

pub proof fn lemma_find_first_absent(s: Seq<PathEntry>, p: spec_fn(PathEntry) -> bool)
    requires
        forall|k: int| 0 <= k < s.len() ==> !p(s[k]),
    ensures
        find_first(s, p) is None,
    decreases s.len(),
{
    if s.len() > 0 {
        let tail = s.skip(1);
        assert forall|k: int| 0 <= k < tail.len() implies !p(tail[k]) by {
            assert(tail[k] == s[k + 1]);
            assert(!p(s[k + 1]));
        }
        lemma_find_first_absent(tail, p);
    }
}

/// Filtering a collision-free sequence keeps it collision-free, and keeps
/// only entries the sequence already held.
pub proof fn lemma_filter_wf(s: Seq<PathEntry>, p: spec_fn(PathEntry) -> bool)
    requires
        wf(s),
    ensures
        wf(s.filter(p)),
        forall|i: int| 0 <= i < s.filter(p).len() ==> #[trigger] s.contains(s.filter(p)[i]),
    decreases s.len(),
{
    reveal(Seq::filter);
    if s.len() > 0 {
        let dl = s.drop_last();
        assert(wf(dl)) by {
            assert(forall|i: int| 0 <= i < dl.len() ==> dl[i] == s[i]);
        }
        lemma_filter_wf(dl, p);
        let fd = dl.filter(p);
        assert forall|i: int| 0 <= i < fd.len() implies #[trigger] s.contains(fd[i]) by {
            assert(dl.contains(fd[i]));
            let a = choose|a: int| 0 <= a < dl.len() && dl[a] == fd[i];
            assert(s[a] == fd[i]);
        }
        if p(s.last()) {
            let f = s.filter(p);
            assert(f == fd.push(s.last()));
            assert forall|i: int, j: int|
                0 <= i < j < f.len() implies !conflicts(#[trigger] f[i], #[trigger] f[j]) by {
                if j < fd.len() {
                    assert(f[i] == fd[i] && f[j] == fd[j]);
                } else {
                    assert(f[j] == s.last());
                    assert(f[i] == fd[i]);
                    assert(dl.contains(fd[i]));
                    let a = choose|a: int| 0 <= a < dl.len() && dl[a] == fd[i];
                    assert(s[a] == fd[i]);
                    assert(!conflicts(s[a], s[s.len() - 1]));
                }
            }
            assert(s.contains(s.last())) by {
                assert(s[s.len() - 1] == s.last());
            }
        }
    }
}

/// Recording an entry makes it the one the dual-key lookup hits: after a
/// row for a path is recorded, a probe of the same path, filename and size
/// finds exactly that row (so a later resolution of the unchanged path is
/// answered from the index, with no second hashing or remote call).
pub proof fn lemma_record_then_lookup(pre: Seq<PathEntry>, e: PathEntry)
    ensures
        ({
            let t = pre.filter(|x: PathEntry| survives(x, e.path@, e.filename@, e.size)).push(e);
            &&& find_match(t, e.path@, e.filename@, e.size) == Some(t.len() - 1)
            &&& t[t.len() - 1] == e
        }),
{
    let p = |x: PathEntry| survives(x, e.path@, e.filename@, e.size);
    let f = pre.filter(p);
    let t = f.push(e);
    assert forall|k: int| 0 <= k < t.len() - 1 implies !matches_path(e.path@)(t[k]) by {
        pre.lemma_filter_pred(p, k);
        assert(t[k] == f[k]);
    }
    lemma_find_first_at(t, matches_path(e.path@), t.len() - 1);
}

/// Move detection: when a file's row was recorded under an old path, the
/// file has kept its filename and byte size, and no row holds its new
/// path, a lookup by the new path still hits that row — the file is
/// recognized without rehashing, by the (filename, size) key alone. The
/// lookup trusts this match: nothing about the file's content enters it,
/// which is the documented limitation of the heuristic.
pub proof fn lemma_move_detected(s: Seq<PathEntry>, i: int, new_path: Seq<char>)
    requires
        wf(s),
        0 <= i < s.len(),
        forall|j: int| 0 <= j < s.len() ==> (#[trigger] s[j]).path@ != new_path,
    ensures
        find_match(s, new_path, s[i].filename@, s[i].size) == Some(i),
{
    lemma_find_first_absent(s, matches_path(new_path));
    assert forall|k: int| 0 <= k < i implies !matches_name_size(s[i].filename@, s[i].size)(
        s[k],
    ) by {
        assert(!conflicts(s[k], s[i]));
    }
    lemma_find_first_at(s, matches_name_size(s[i].filename@, s[i].size), i);
}

/// Pruning removes exactly the entries whose path is among the dead paths:
/// no surviving entry names a dead path, and every entry with a live path
/// survives.
pub proof fn lemma_prune_exact(s: Seq<PathEntry>, dead: Seq<String>)
    ensures
        ({
            let t = s.filter(|e: PathEntry| !contains_path(dead, e.path@));
            &&& forall|k: int|
                0 <= k < t.len() ==> !contains_path(dead, (#[trigger] t[k]).path@)
            &&& forall|i: int|
                0 <= i < s.len() && !contains_path(dead, (#[trigger] s[i]).path@) ==> t.contains(
                    s[i],
                )
        }),
{
    let p = |e: PathEntry| !contains_path(dead, e.path@);
    let t = s.filter(p);
    assert forall|k: int| 0 <= k < t.len() implies !contains_path(
        dead,
        (#[trigger] t[k]).path@,
    ) by {
        s.lemma_filter_pred(p, k);
    }
    assert forall|i: int|
        0 <= i < s.len() && !contains_path(dead, (#[trigger] s[i]).path@) implies t.contains(
        s[i],
    ) by {
        s.lemma_filter_contains(p, i);
    }
}

/// The persistent path index.
pub struct PathIndexStore {
    items: Vec<PathEntry>,
}

impl View for PathIndexStore {
    type V = Seq<PathEntry>;

    closed spec fn view(&self) -> Seq<PathEntry> {
        self.items@
    }
}

/// Whether some string in `dead` equals `p`.
fn path_listed(dead: &Vec<String>, p: &String) -> (r: bool)
    ensures
        r == contains_path(dead@, p@),
{
    let mut i: usize = 0;
    while i < dead.len()
        invariant
            i <= dead@.len(),
            forall|k: int| 0 <= k < i ==> (#[trigger] dead@[k])@ != p@,
        decreases dead@.len() - i,
    {
        if dead[i] == *p {
            return true;
        }
        i += 1;
    }
    false
}

impl PathIndexStore {
    /// An empty index.
    pub fn new() -> (r: Self)
        ensures
            r@ == Seq::<PathEntry>::empty(),
            wf(r@),
    {
        PathIndexStore { items: Vec::new() }
    }

    /// How many entries the index holds.
    pub fn len(&self) -> (r: usize)
        ensures
            r == self@.len(),
    {
        self.items.len()
    }

    /// The recorded path of the entry at position `i`.
    pub fn path_at(&self, i: usize) -> (r: &String)
        requires
            i < self@.len(),
        ensures
            *r == self@[i as int].path,
    {
        &self.items[i].path
    }

    /// The dual-key lookup. An entry matching the exact path, or failing
    /// that one matching filename and size, yields its content-record key;
    /// when the match came by (filename, size) and the recorded path
    /// differs, the entry's path is healed to the probed path in place, so
    /// the index stays accurate for the next prune pass. A file that moved
    /// without changing name or size is thus recognized without rehashing.
    pub fn lookup(&mut self, path: &String, filename: &String, size: u64) -> (r: Option<u32>)
        requires
            wf(old(self)@),
        ensures
            wf(final (self)@),
            match find_match(old(self)@, path@, filename@, size) {
                Some(i) => {
                    &&& r == Some(old(self)@[i].fid)
                    &&& final (self)@.len() == old(self)@.len()
                    &&& final (self)@[i].path@ == path@
                    &&& final (self)@[i].filename == old(self)@[i].filename
                    &&& final (self)@[i].size == old(self)@[i].size
                    &&& final (self)@[i].fid == old(self)@[i].fid
                    &&& forall|j: int|
                        0 <= j < old(self)@.len() && j != i ==> final (self)@[j] == old(self)@[j]
                },
                None => final (self)@ == old(self)@ && r is None,
            },
    {
        let ghost s = self.items@;
        let mut i: usize = 0;
        while i < self.items.len()
            invariant
                s == old(self)@,
                wf(s),
                self.items@ == s,
                i <= s.len(),
                forall|k: int| 0 <= k < i ==> (#[trigger] s[k]).path@ != path@,
            decreases s.len() - i,
        {
            if self.items[i].path == *path {
                proof {
                    lemma_find_first_at(s, matches_path(path@), i as int);
                }
                return Some(self.items[i].fid);
            }
            i += 1;
        }
        proof {
            lemma_find_first_absent(s, matches_path(path@));
        }
        let mut k: usize = 0;
        while k < self.items.len()
            invariant
                s == old(self)@,
                self.items@ == s,
                k <= s.len(),
                forall|j: int|
                    0 <= j < k ==> !((#[trigger] s[j]).filename@ == filename@ && s[j].size
                        == size),
                forall|j: int| 0 <= j < s.len() ==> (#[trigger] s[j]).path@ != path@,
                wf(s),
            decreases s.len() - k,
        {
            if self.items[k].filename == *filename && self.items[k].size == size {
                proof {
                    lemma_find_first_absent(s, matches_path(path@));
                    lemma_find_first_at(s, matches_name_size(filename@, size), k as int);
                }
                let e = self.items.remove(k);
                let fid = e.fid;
                let healed = PathEntry {
                    path: path.clone(),
                    filename: e.filename,
                    size: e.size,
                    fid: e.fid,
                };
                self.items.insert(k, healed);
                proof {
                    assert(e.fid == s[k as int].fid);
                    let t = self.items@;
                    assert(t =~= s.update(k as int, t[k as int]));
                    assert(t[k as int].path@ == path@);
                    assert(t[k as int].filename == s[k as int].filename);
                    assert(t[k as int].size == s[k as int].size);
                    assert(t[k as int].fid == s[k as int].fid);
                    assert forall|a: int, b: int|
                        0 <= a < b < t.len() implies !conflicts(
                        #[trigger] t[a],
                        #[trigger] t[b],
                    ) by {
                        assert(!conflicts(s[a], s[b]));
                        assert(t[a].filename@ == s[a].filename@ && t[a].size == s[a].size);
                        assert(t[b].filename@ == s[b].filename@ && t[b].size == s[b].size);
                        if a != k && b != k {
                            assert(t[a] == s[a] && t[b] == s[b]);
                        } else if a == k {
                            assert(t[a].path@ == path@ && t[b].path@ != path@);
                        } else {
                            assert(t[b].path@ == path@ && t[a].path@ != path@);
                        }
                    }
                }
                return Some(fid);
            }
            k += 1;
        }
        proof {
            lemma_find_first_absent(s, matches_name_size(filename@, size));
        }
        None
    }

    /// Records a path as resolving to a content-record key: any entry with
    /// the same path or the same (filename, size) is replaced, and the new
    /// row is appended.
    pub fn record(&mut self, path: String, filename: String, size: u64, fid: u32)
        requires
            wf(old(self)@),
        ensures
            wf(final (self)@),
            final (self)@ == old(self)@.filter(
                |e: PathEntry| survives(e, path@, filename@, size),
            ).push((PathEntry { path, filename, size, fid })),
    {
        let ghost s = self.items@;
        let ghost pred = |e: PathEntry| survives(e, path@, filename@, size);
        let mut work: Vec<PathEntry> = Vec::new();
        core::mem::swap(&mut self.items, &mut work);
        proof {
            reveal(Seq::filter);
            assert(s.subrange(0, 0).filter(pred) =~= Seq::<PathEntry>::empty());
        }
        while work.len() > 0
            invariant
                s == old(self)@,
                wf(s),
                pred == (|e: PathEntry| survives(e, path@, filename@, size)),
                work@.len() <= s.len(),
                work@ =~= s.skip(s.len() - work@.len()),
                self.items@ == s.subrange(0, s.len() - work@.len()).filter(pred),
            decreases work@.len(),
        {
            let ghost j = s.len() - work@.len();
            let e = work.remove(0);
            let keep = !(e.path == path || (e.filename == filename && e.size == size));
            proof {
                reveal(Seq::filter);
                assert(e == s[j]);
                let pre = s.subrange(0, j);
                let cur = s.subrange(0, j + 1);
                assert(cur.drop_last() =~= pre);
                assert(cur.last() == s[j]);
                assert(keep == pred(e));
                assert(work@ =~= s.skip(j + 1));
            }
            if keep {
                self.items.push(e);
            }
            proof {
                assert(self.items@ == s.subrange(0, j + 1).filter(pred));
            }
        }
        proof {
            assert(s.subrange(0, s.len() as int) =~= s);
            lemma_filter_wf(s, pred);
        }
        let entry = PathEntry { path, filename, size, fid };
        self.items.push(entry);
        proof {
            let t = self.items@;
            let f = s.filter(pred);
            assert forall|a: int, b: int|
                0 <= a < b < t.len() implies !conflicts(#[trigger] t[a], #[trigger] t[b]) by {
                if b < f.len() {
                    assert(t[a] == f[a] && t[b] == f[b]);
                } else {
                    assert(t[a] == f[a]);
                    s.lemma_filter_pred(pred, a);
                    assert(survives(f[a], t[b].path@, t[b].filename@, t[b].size));
                }
            }
        }
    }

    /// Deletes every entry whose path is among the dead paths; every other
    /// entry is kept, in order. Run once per reconciliation pass, after all
    /// files have been visited.
    pub fn prune(&mut self, dead: &Vec<String>)
        requires
            wf(old(self)@),
        ensures
            wf(final (self)@),
            final (self)@ == old(self)@.filter(
                |e: PathEntry| !contains_path(dead@, e.path@),
            ),
    {
        let ghost s = self.items@;
        let ghost pred = |e: PathEntry| !contains_path(dead@, e.path@);
        let mut work: Vec<PathEntry> = Vec::new();
        core::mem::swap(&mut self.items, &mut work);
        proof {
            reveal(Seq::filter);
            assert(s.subrange(0, 0).filter(pred) =~= Seq::<PathEntry>::empty());
        }
        while work.len() > 0
            invariant
                s == old(self)@,
                wf(s),
                pred == (|e: PathEntry| !contains_path(dead@, e.path@)),
                work@.len() <= s.len(),
                work@ =~= s.skip(s.len() - work@.len()),
                self.items@ == s.subrange(0, s.len() - work@.len()).filter(pred),
            decreases work@.len(),
        {
            let ghost j = s.len() - work@.len();
            let e = work.remove(0);
            let keep = !path_listed(dead, &e.path);
            proof {
                reveal(Seq::filter);
                assert(e == s[j]);
                let pre = s.subrange(0, j);
                let cur = s.subrange(0, j + 1);
                assert(cur.drop_last() =~= pre);
                assert(cur.last() == s[j]);
                assert(keep == pred(e));
                assert(work@ =~= s.skip(j + 1));
            }
            if keep {
                self.items.push(e);
            }
            proof {
                assert(self.items@ == s.subrange(0, j + 1).filter(pred));
            }
        }
        proof {
            assert(s.subrange(0, s.len() as int) =~= s);
            lemma_filter_wf(s, pred);
        }
    }
}

} // verus!
