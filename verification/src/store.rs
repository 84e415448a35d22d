//! The durable store: the model of the persistent medium that holds the
//! last-saved snapshot of the registry.
//!
//! A save replaces the whole snapshot as a unit — no incremental append —
//! and a load yields exactly the collection observed at the most recent
//! save.  Writing the snapshot out to a real medium (and doing so
//! atomically, e.g. write-to-temp-then-rename) is the collaborator's
//! concern; this component states and proves the contract the rest of the
//! core relies on.

use vstd::prelude::*;
use crate::bottle::{BottleRecord, RecordModel, models};

verus! {

/// What the persistent medium holds after a save of `records` over a
/// snapshot `prev`: the new collection, whole, with nothing of `prev`
/// surviving.
pub open spec fn spec_save(prev: Seq<RecordModel>, records: Seq<RecordModel>) -> Seq<RecordModel> {
    records
}

/// What a load yields from a medium holding `snapshot`: the snapshot,
/// exactly.
pub open spec fn spec_load(snapshot: Seq<RecordModel>) -> Seq<RecordModel> {
    snapshot
}

/// Copies a record collection, preserving every model.
pub fn clone_records(v: &Vec<BottleRecord>) -> (r: Vec<BottleRecord>)
    ensures
        models(r@) == models(v@),
{
    let mut out: Vec<BottleRecord> = Vec::new();
    let mut i: usize = 0;
    while i < v.len()
        invariant
            i <= v.len(),
            out@.len() == i,
            forall|j: int| 0 <= j < i ==> out@[j]@ == v@[j]@,
        decreases v.len() - i,
    {
        out.push(v[i].clone());
        i += 1;
    }
    proof {
        assert(models(out@) =~= models(v@));
    }
    out
}

/// Holds the last-saved snapshot of the record collection.
pub struct DurableStore {
    saved: Vec<BottleRecord>,
}

impl DurableStore {
    /// The snapshot the medium currently holds.
    pub closed spec fn snapshot(self) -> Seq<RecordModel> {
        models(self.saved@)
    }

    /// A store whose medium already holds `initial` — the state right
    /// after the collection was loaded from it.
    pub fn new(initial: &Vec<BottleRecord>) -> (r: Self)
        ensures
            r.snapshot() == models(initial@),
    {
        DurableStore { saved: clone_records(initial) }
    }

    /// Replaces the snapshot with `records` as a unit.
    pub fn save(&mut self, records: &Vec<BottleRecord>)
        ensures
            final(self).snapshot() == spec_save(old(self).snapshot(), models(records@)),
    {
        self.saved = clone_records(records);
    }

    /// Reads the whole snapshot back.
    pub fn load(&self) -> (r: Vec<BottleRecord>)
        ensures
            models(r@) == spec_load(self.snapshot()),
    {
        clone_records(&self.saved)
    }
}

/// Round trip: saving a collection and loading it back yields an equal
/// collection — same names, paths and kinds — whatever the medium held
/// before and however many records there are, zero included.
pub proof fn lemma_save_load_round_trip(prev: Seq<RecordModel>, records: Seq<RecordModel>)
    ensures
        spec_load(spec_save(prev, records)) == records,
{
}

} // verus!
