//! The shape of one reconciliation pass: Discover, then Process, then
//! Prune, then Done.
//!
//! Discovery enumerates every file under the root before any processing
//! begins, so that progress totals and the final prune pass work from a
//! complete, stable view. The reconciler here holds that completed list and
//! enforces the ordering: files are handed out one at a time, in order, and
//! the prune step can only be marked once every file has been processed —
//! never interleaved with discovery or processing.

use vstd::prelude::*;

verus! {

/// One reconciliation pass over a fixed list of discovered files.
pub struct Reconciler {
    files: Vec<String>,
    next: usize,
    pruned: bool,
}

impl Reconciler {
    /// The discovered files, fixed for the whole pass.
    pub closed spec fn files_spec(self) -> Seq<String> {
        self.files@
    }

    /// How many files have been handed out for processing.
    pub closed spec fn processed(self) -> int {
        self.next as int
    }

    /// Whether the prune step has run.
    pub closed spec fn pruned_spec(self) -> bool {
        self.pruned
    }

    /// Well-formedness: no more files were handed out than were discovered.
    pub closed spec fn wf(self) -> bool {
        self.next as int <= self.files@.len()
    }

    /// Starts a pass over a completed discovery: nothing processed, prune
    /// not yet run.
    pub fn begin(files: Vec<String>) -> (r: Self)
        ensures
            r.wf(),
            r.files_spec() == files@,
            r.processed() == 0,
            !r.pruned_spec(),
    {
        Reconciler { files, next: 0, pruned: false }
    }

    /// Hands out the position of the next unprocessed file, in discovery
    /// order, or nothing once every file has been processed. Files are
    /// never handed out after the prune step.
    pub fn next_file(&mut self) -> (r: Option<usize>)
        requires
            old(self).wf(),
            !old(self).pruned_spec(),
        ensures
            final (self).wf(),
            final (self).files_spec() == old(self).files_spec(),
            !final (self).pruned_spec(),
            match r {
                Some(i) => {
                    &&& old(self).processed() < old(self).files_spec().len()
                    &&& i == old(self).processed()
                    &&& final (self).processed() == old(self).processed() + 1
                },
                None => {
                    &&& old(self).processed() == old(self).files_spec().len()
                    &&& final (self).processed() == old(self).processed()
                },
            },
    {
        if self.next < self.files.len() {
            let i = self.next;
            self.next += 1;
            Some(i)
        } else {
            None
        }
    }

    /// The discovered file at a position.
    pub fn file_at(&self, i: usize) -> (r: &String)
        requires
            i < self.files_spec().len(),
        ensures
            *r == self.files_spec()[i as int],
    {
        &self.files[i]
    }

    /// Whether every discovered file has been processed, so that the prune
    /// step may run.
    pub fn processing_complete(&self) -> (r: bool)
        ensures
            r == (self.processed() == self.files_spec().len()),
    {
        self.next == self.files.len()
    }

    /// Marks the prune step done. It can run only once, and only after all
    /// files have been processed — pruning is never interleaved with
    /// discovery or processing, so no entry is deleted for a file that was
    /// simply not yet visited.
    pub fn mark_pruned(&mut self)
        requires
            old(self).processed() == old(self).files_spec().len(),
            !old(self).pruned_spec(),
        ensures
            final (self).wf() == old(self).wf(),
            final (self).pruned_spec(),
            final (self).files_spec() == old(self).files_spec(),
            final (self).processed() == old(self).processed(),
    {
        self.pruned = true;
    }

    /// Whether the pass is finished: everything processed and pruned.
    pub fn done(&self) -> (r: bool)
        ensures
            r == (self.processed() == self.files_spec().len() && self.pruned_spec()),
    {
        self.next == self.files.len() && self.pruned
    }
}

} // verus!
