//! The cache-aside facade: it mediates between the local stores and the
//! remote catalog for the four entity kinds, and splits file resolution
//! into its local half (index probe, answered from the cache) and its
//! remote half (recording what a fetch came back with).
//!
//! The remote calls themselves happen outside: a caller probes the cache,
//! and only on a miss performs the hash and the fetch, handing the outcome
//! back in. Every decision about what is cached, returned or rejected is
//! made here.

use vstd::prelude::*;
use crate::entity::{ContentRecord, FetchOutcome, Group, Segment, SessionError, Work};
use crate::path_index::{
    contains_path, find_match, lemma_record_then_lookup, survives, wf, PathEntry, PathIndexStore,
};
use crate::store::KeyedStore;

verus! {

/// The orchestrating state of one run: four entity stores and the path
/// index, all backed by the same persistent store.
pub struct CacheFacade {
    pub works: KeyedStore<Work>,
    pub segments: KeyedStore<Segment>,
    pub groups: KeyedStore<Group>,
    pub records: KeyedStore<ContentRecord>,
    pub index: PathIndexStore,
}

impl CacheFacade {
    /// The facade invariant: the path index is collision-free.
    pub open spec fn inv(self) -> bool {
        wf(self.index@)
    }

    /// A facade over an empty cache: nothing resolved yet.
    pub fn new() -> (r: Self)
        ensures
            r.inv(),
            r.index@ == Seq::<PathEntry>::empty(),
            forall|id: u32| #[trigger] r.works.spec_get(id) is None,
            forall|id: u32| #[trigger] r.segments.spec_get(id) is None,
            forall|id: u32| #[trigger] r.groups.spec_get(id) is None,
            forall|id: u32| #[trigger] r.records.spec_get(id) is None,
    {
        CacheFacade {
            works: KeyedStore::new(),
            segments: KeyedStore::new(),
            groups: KeyedStore::new(),
            records: KeyedStore::new(),
            index: PathIndexStore::new(),
        }
    }

    /// The local half of file resolution: probes the path index by exact
    /// path or by (filename, size). A hit yields the content-record key and
    /// heals the entry's recorded path when the file moved; a miss means
    /// the caller must hash the file and consult the remote catalog. No
    /// entity store is touched.
    pub fn resolve_file_cached(&mut self, path: &String, filename: &String, size: u64) -> (r:
        Option<u32>)
        requires
            old(self).inv(),
        ensures
            final (self).inv(),
            final (self).works == old(self).works,
            final (self).segments == old(self).segments,
            final (self).groups == old(self).groups,
            final (self).records == old(self).records,
            match find_match(old(self).index@, path@, filename@, size) {
                Some(i) => {
                    &&& r == Some(old(self).index@[i].fid)
                    &&& final (self).index@.len() == old(self).index@.len()
                    &&& final (self).index@[i].path@ == path@
                    &&& final (self).index@[i].filename == old(self).index@[i].filename
                    &&& final (self).index@[i].size == old(self).index@[i].size
                    &&& final (self).index@[i].fid == old(self).index@[i].fid
                    &&& forall|j: int|
                        0 <= j < old(self).index@.len() && j != i ==> final (self).index@[j] == old(self).index@[j]
                },
                None => final (self).index@ == old(self).index@ && r is None,
            },
    {
        self.index.lookup(path, filename, size)
    }

    /// The cached record under a content-record key, if any.
    pub fn record_by_id(&self, fid: u32) -> (r: Option<&ContentRecord>)
        ensures
            match r {
                Some(v) => self.records.spec_get(fid) == Some(*v),
                None => self.records.spec_get(fid) is None,
            },
    {
        self.records.get(fid)
    }

    /// The remote half of file resolution, fed with what the catalog said
    /// about the hashed file. A found record is cached under its own key
    /// and the path is recorded in the index; the catalog's "unknown file"
    /// answer yields nothing and writes nothing, so such a file will be
    /// rehashed on every future scan; a session fault is fatal for the run
    /// and also writes nothing.
    pub fn resolve_file_fetched(
        &mut self,
        path: String,
        filename: String,
        size: u64,
        outcome: FetchOutcome<ContentRecord>,
    ) -> (r: Result<Option<u32>, SessionError>)
        requires
            old(self).inv(),
        ensures
            final (self).inv(),
            match outcome {
                FetchOutcome::Found(rec) => {
                    &&& r == Ok::<Option<u32>, SessionError>(Some(rec.fid))
                    &&& forall|k: u32|
                        #[trigger] final (self).records.spec_get(k) == (if k == rec.fid {
                            Some(rec)
                        } else {
                            old(self).records.spec_get(k)
                        })
                    &&& final (self).index@ == old(self).index@.filter(
                        |e: PathEntry| survives(e, path@, filename@, size),
                    ).push((PathEntry { path, filename, size, fid: rec.fid }))
                    &&& final (self).works == old(self).works
                    &&& final (self).segments == old(self).segments
                    &&& final (self).groups == old(self).groups
                },
                FetchOutcome::NotFound => r == Ok::<Option<u32>, SessionError>(None) && *final (self) == *old(self),
                FetchOutcome::Failed => r == Err::<Option<u32>, SessionError>(
                    SessionError::RemoteSession,
                ) && *final (self) == *old(self),
            },
    {
        match outcome {
            FetchOutcome::Found(rec) => {
                let fid = rec.fid;
                self.records.upsert(fid, rec);
                self.index.record(path, filename, size, fid);
                Ok(Some(fid))
            },
            FetchOutcome::NotFound => Ok(None),
            FetchOutcome::Failed => Err(SessionError::RemoteSession),
        }
    }

    /// The cached Work under an identifier, if any; a miss means the caller
    /// may fetch it remotely and hand the outcome to the fetched half.
    pub fn resolve_work_cached(&self, id: u32) -> (r: Option<&Work>)
        ensures
            match r {
                Some(v) => self.works.spec_get(id) == Some(*v),
                None => self.works.spec_get(id) is None,
            },
    {
        self.works.get(id)
    }

    /// Caches a fetched Work under its own identifier; a missing or failed
    /// fetch caches nothing. Returns whether something was cached.
    pub fn resolve_work_fetched(&mut self, outcome: FetchOutcome<Work>) -> (r: bool)
        ensures
            match outcome {
                FetchOutcome::Found(w) => r && (forall|k: u32|
                    #[trigger] final (self).works.spec_get(k) == (if k == w.aid {
                        Some(w)
                    } else {
                        old(self).works.spec_get(k)
                    })) && final (self).segments == old(self).segments && final (self).groups == old(self).groups && final (self).records == old(self).records && final (self).index == old(self).index,
                FetchOutcome::NotFound => !r && *final (self) == *old(self),
                FetchOutcome::Failed => !r && *final (self) == *old(self),
            },
    {
        match outcome {
            FetchOutcome::Found(w) => {
                let id = w.aid;
                self.works.upsert(id, w);
                true
            },
            FetchOutcome::NotFound => false,
            FetchOutcome::Failed => false,
        }
    }

    /// The cached Segment under an identifier, if any.
    pub fn resolve_segment_cached(&self, id: u32) -> (r: Option<&Segment>)
        ensures
            match r {
                Some(v) => self.segments.spec_get(id) == Some(*v),
                None => self.segments.spec_get(id) is None,
            },
    {
        self.segments.get(id)
    }

    /// Caches a fetched Segment under its own identifier; a missing or
    /// failed fetch caches nothing. Returns whether something was cached.
    pub fn resolve_segment_fetched(&mut self, outcome: FetchOutcome<Segment>) -> (r: bool)
        ensures
            match outcome {
                FetchOutcome::Found(e) => r && (forall|k: u32|
                    #[trigger] final (self).segments.spec_get(k) == (if k == e.eid {
                        Some(e)
                    } else {
                        old(self).segments.spec_get(k)
                    })) && final (self).works == old(self).works && final (self).groups == old(self).groups && final (self).records == old(self).records && final (self).index == old(self).index,
                FetchOutcome::NotFound => !r && *final (self) == *old(self),
                FetchOutcome::Failed => !r && *final (self) == *old(self),
            },
    {
        match outcome {
            FetchOutcome::Found(e) => {
                let id = e.eid;
                self.segments.upsert(id, e);
                true
            },
            FetchOutcome::NotFound => false,
            FetchOutcome::Failed => false,
        }
    }

    /// The cached Group under an identifier, if any.
    pub fn resolve_group_cached(&self, id: u32) -> (r: Option<&Group>)
        ensures
            match r {
                Some(v) => self.groups.spec_get(id) == Some(*v),
                None => self.groups.spec_get(id) is None,
            },
    {
        self.groups.get(id)
    }

    /// Caches a fetched Group under its own identifier; a missing or failed
    /// fetch caches nothing. Returns whether something was cached.
    pub fn resolve_group_fetched(&mut self, outcome: FetchOutcome<Group>) -> (r: bool)
        ensures
            match outcome {
                FetchOutcome::Found(g) => r && (forall|k: u32|
                    #[trigger] final (self).groups.spec_get(k) == (if k == g.gid {
                        Some(g)
                    } else {
                        old(self).groups.spec_get(k)
                    })) && final (self).works == old(self).works && final (self).segments == old(self).segments && final (self).records == old(self).records && final (self).index == old(self).index,
                FetchOutcome::NotFound => !r && *final (self) == *old(self),
                FetchOutcome::Failed => !r && *final (self) == *old(self),
            },
    {
        match outcome {
            FetchOutcome::Found(g) => {
                let id = g.gid;
                self.groups.upsert(id, g);
                true
            },
            FetchOutcome::NotFound => false,
            FetchOutcome::Failed => false,
        }
    }

    /// Restores one cached record from the persistent store at startup:
    /// the record is placed under its own key and nothing else changes.
    pub fn restore_record(&mut self, rec: ContentRecord)
        ensures
            forall|k: u32|
                #[trigger] final (self).records.spec_get(k) == (if k == rec.fid {
                    Some(rec)
                } else {
                    old(self).records.spec_get(k)
                }),
            final (self).works == old(self).works,
            final (self).segments == old(self).segments,
            final (self).groups == old(self).groups,
            final (self).index == old(self).index,
    {
        let fid = rec.fid;
        self.records.upsert(fid, rec);
    }

    /// Restores one path-index row from the persistent store at startup,
    /// with the same replace-on-collision semantics as recording it fresh.
    pub fn restore_path_entry(&mut self, path: String, filename: String, size: u64, fid: u32)
        requires
            old(self).inv(),
        ensures
            final (self).inv(),
            final (self).index@ == old(self).index@.filter(
                |e: PathEntry| survives(e, path@, filename@, size),
            ).push((PathEntry { path, filename, size, fid })),
            final (self).works == old(self).works,
            final (self).segments == old(self).segments,
            final (self).groups == old(self).groups,
            final (self).records == old(self).records,
    {
        self.index.record(path, filename, size, fid)
    }

    /// How many entries the path index holds.
    pub fn index_len(&self) -> (r: usize)
        ensures
            r == self.index@.len(),
    {
        self.index.len()
    }

    /// The recorded path of the index entry at position `i`, for the
    /// caller's liveness check during the prune pass.
    pub fn index_path_at(&self, i: usize) -> (r: &String)
        requires
            i < self.index@.len(),
        ensures
            *r == self.index@[i as int].path,
    {
        self.index.path_at(i)
    }

    /// The prune pass: removes every index entry whose path is among the
    /// dead paths. The entity stores are untouched — their rows key on
    /// remote identity, not on any particular file's existence.
    pub fn prune(&mut self, dead: &Vec<String>)
        requires
            old(self).inv(),
        ensures
            final (self).inv(),
            final (self).index@ == old(self).index@.filter(
                |e: PathEntry| !contains_path(dead@, e.path@),
            ),
            final (self).works == old(self).works,
            final (self).segments == old(self).segments,
            final (self).groups == old(self).groups,
            final (self).records == old(self).records,
    {
        self.index.prune(dead)
    }
}

/// Cache idempotence, across the two halves of file resolution: when a
/// fetched record has been recorded for a path (the state change the
/// fetched half promises), a probe of the same unchanged path hits the
/// index at the recorded row, yields the same content-record key, and the
/// record store answers with the very record — so the second resolution is
/// served locally, with no second hashing and no second remote call.
pub proof fn lemma_resolve_file_idempotent(
    f0: CacheFacade,
    f1: CacheFacade,
    e: PathEntry,
    rec: ContentRecord,
)
    requires
        e.fid == rec.fid,
        f1.index@ == f0.index@.filter(|x: PathEntry| survives(x, e.path@, e.filename@, e.size)).push(
            e,
        ),
        forall|k: u32| #[trigger] f1.records.spec_get(k) == (if k == rec.fid {
            Some(rec)
        } else {
            f0.records.spec_get(k)
        }),
    ensures
        find_match(f1.index@, e.path@, e.filename@, e.size) == Some(f1.index@.len() - 1),
        f1.index@[f1.index@.len() - 1].fid == rec.fid,
        f1.records.spec_get(rec.fid) == Some(rec),
{
    lemma_record_then_lookup(f0.index@, e);
}

} // verus!
