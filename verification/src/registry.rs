//! The environment registry: the in-memory authoritative collection of
//! environment records.
//!
//! The registry keeps names unique at all times, answers lookups, and
//! triggers an immediate durable save inside every mutating call, so a
//! load never observes the snapshot lagging behind a completed mutation.

use vstd::prelude::*;
use crate::bottle::{BottleKind, BottleRecord, LifecycleError, RecordModel, models};
use crate::store::DurableStore;

verus! {

/// Whether some record in `s` bears `name`.
pub open spec fn contains_name(s: Seq<RecordModel>, name: Seq<char>) -> bool {
    exists|i: int| 0 <= i < s.len() && s[i].name == name
}

/// The index of the record bearing `name`; with unique names, the only
/// one.
pub open spec fn idx_of(s: Seq<RecordModel>, name: Seq<char>) -> int {
    choose|i: int| 0 <= i < s.len() && s[i].name == name
}

/// Name-uniqueness: no two records bear the same name.
pub open spec fn unique_names(s: Seq<RecordModel>) -> bool {
    forall|i: int, j: int| 0 <= i < j < s.len() ==> s[i].name != s[j].name
}

/// What a create leaves behind: the collection unchanged when the name is
/// already present (the call fails), else the new record appended.
pub open spec fn spec_create(s: Seq<RecordModel>, m: RecordModel) -> Seq<RecordModel> {
    if contains_name(s, m.name) {
        s
    } else {
        s.push(m)
    }
}

/// What a delete leaves behind: the record bearing `name` removed, the
/// order of the rest kept; the collection unchanged when the name is
/// absent (the call fails).
pub open spec fn spec_delete(s: Seq<RecordModel>, name: Seq<char>) -> Seq<RecordModel> {
    if contains_name(s, name) {
        s.remove(idx_of(s, name))
    } else {
        s
    }
}

/// The in-memory authoritative collection of environment records, with
/// its durable store.
pub struct Registry {
    records: Vec<BottleRecord>,
    store: DurableStore,
}

impl Registry {
    /// The record collection, in insertion order.
    pub closed spec fn recs(self) -> Seq<RecordModel> {
        models(self.records@)
    }

    /// The snapshot the durable store holds.
    pub closed spec fn saved(self) -> Seq<RecordModel> {
        self.store.snapshot()
    }

    /// Well-formedness: names are unique within the registry at all
    /// times.
    pub open spec fn wf(self) -> bool {
        unique_names(self.recs())
    }

    /// A registry holding the collection loaded from the durable store.
    /// A collection with a duplicated name could only come from a corrupt
    /// medium; it is treated as a load failure and yields the empty
    /// registry, as a missing medium does.
    pub fn from_records(initial: Vec<BottleRecord>) -> (r: Registry)
        ensures
            r.wf(),
            unique_names(models(initial@)) ==> r.recs() == models(initial@),
            !unique_names(models(initial@)) ==> r.recs() == Seq::<RecordModel>::empty(),
            r.saved() == r.recs(),
    {
        let n: usize = initial.len();
        let mut i: usize = 0;
        while i < n
            invariant
                i <= n,
                n == initial@.len(),
                forall|p: int, q: int| 0 <= p < q < i ==> models(initial@)[p].name != models(initial@)[q].name,
            decreases n - i,
        {
            let mut j: usize = 0;
            while j < i
                invariant
                    j <= i,
                    i < n,
                    n == initial@.len(),
                    forall|q: int| 0 <= q < j ==> models(initial@)[q].name != models(initial@)[i as int].name,
                decreases i - j,
            {
                if initial[j].name == initial[i].name {
                    let empty: Vec<BottleRecord> = Vec::new();
                    let store = DurableStore::new(&empty);
                    proof {
                        assert(models(initial@)[j as int].name == initial@[j as int].name@);
                        assert(models(initial@)[i as int].name == initial@[i as int].name@);
                        assert(!unique_names(models(initial@)));
                        assert(models(empty@) =~= Seq::<RecordModel>::empty());
                    }
                    return Registry { records: empty, store };
                }
                j += 1;
            }
            i += 1;
        }
        let store = DurableStore::new(&initial);
        Registry { records: initial, store }
    }

    /// The position of the record bearing `name`, if any.
    fn position_of(&self, name: &String) -> (r: Option<usize>)
        ensures
            match r {
                Some(i) => i < self.recs().len() && self.recs()[i as int].name == name@,
                None => !contains_name(self.recs(), name@),
            },
    {
        let n: usize = self.records.len();
        let mut i: usize = 0;
        while i < n
            invariant
                i <= n,
                n == self.recs().len(),
                forall|j: int| 0 <= j < i ==> self.recs()[j].name != name@,
            decreases n - i,
        {
            if self.records[i].name == *name {
                return Some(i);
            }
            i += 1;
        }
        None
    }

    /// Whether a record bearing `name` exists.
    pub fn contains(&self, name: &String) -> (r: bool)
        ensures
            r == contains_name(self.recs(), name@),
    {
        match self.position_of(name) {
            Some(_) => true,
            None => false,
        }
    }

    /// Adds a record, unless its name is already present.  On success the
    /// record is appended and the whole collection is saved durably
    /// before the call returns; a failed call leaves registry and
    /// snapshot untouched.
    pub fn create(&mut self, name: String, kind: BottleKind, path: String) -> (r: Result<
        BottleRecord,
        LifecycleError,
    >)
        requires
            old(self).wf(),
        ensures
            final(self).wf(),
            final(self).recs() == spec_create(old(self).recs(), RecordModel { name: name@, path: path@, kind }),
            contains_name(old(self).recs(), name@) ==> {
                &&& r == Err::<BottleRecord, LifecycleError>(LifecycleError::AlreadyExists)
                &&& final(self).saved() == old(self).saved()
            },
            !contains_name(old(self).recs(), name@) ==> {
                &&& r matches Ok(rec) && rec@ == (RecordModel { name: name@, path: path@, kind })
                &&& final(self).saved() == final(self).recs()
            },
    {
        match self.position_of(&name) {
            Some(_) => Err(LifecycleError::AlreadyExists),
            None => {
                let record = BottleRecord { name, path, kind };
                let returned = record.clone();
                let ghost old_recs = self.recs();
                self.records.push(record);
                proof {
                    assert(self.recs() =~= old_recs.push(returned@));
                }
                self.store.save(&self.records);
                Ok(returned)
            },
        }
    }

    /// Removes the record bearing `name`, keeping the order of the rest,
    /// and saves the collection durably before returning; fails with
    /// `NotFound`, touching nothing, when the name is absent.
    pub fn delete(&mut self, name: &String) -> (r: Result<(), LifecycleError>)
        requires
            old(self).wf(),
        ensures
            final(self).wf(),
            final(self).recs() == spec_delete(old(self).recs(), name@),
            !contains_name(old(self).recs(), name@) ==> {
                &&& r == Err::<(), LifecycleError>(LifecycleError::NotFound)
                &&& final(self).saved() == old(self).saved()
            },
            contains_name(old(self).recs(), name@) ==> {
                &&& r == Ok::<(), LifecycleError>(())
                &&& final(self).saved() == final(self).recs()
            },
    {
        match self.position_of(name) {
            None => Err(LifecycleError::NotFound),
            Some(i) => {
                let ghost old_recs = self.recs();
                proof {
                    let k = idx_of(old_recs, name@);
                    assert(old_recs[k].name == name@);
                    assert(k == i as int);
                }
                self.records.remove(i);
                proof {
                    assert(self.recs() =~= old_recs.remove(i as int));
                }
                self.store.save(&self.records);
                Ok(())
            },
        }
    }

    /// A copy of the record bearing `name`; fails with `NotFound` when
    /// the name is absent.
    pub fn get(&self, name: &String) -> (r: Result<BottleRecord, LifecycleError>)
        requires
            self.wf(),
        ensures
            contains_name(self.recs(), name@) ==> (r matches Ok(rec) && rec@ == self.recs()[idx_of(
                self.recs(),
                name@,
            )]),
            !contains_name(self.recs(), name@) ==> r == Err::<BottleRecord, LifecycleError>(
                LifecycleError::NotFound,
            ),
    {
        match self.position_of(name) {
            None => Err(LifecycleError::NotFound),
            Some(i) => {
                proof {
                    let k = idx_of(self.recs(), name@);
                    assert(self.recs()[k].name == name@);
                    assert(k == i as int);
                }
                Ok(self.records[i].clone())
            },
        }
    }

    /// A snapshot of all records, in insertion order.  Never fails.
    pub fn list(&self) -> (r: Vec<BottleRecord>)
        ensures
            models(r@) == self.recs(),
    {
        crate::store::clone_records(&self.records)
    }
}

/// A record can be deleted only when a record bearing its name exists;
/// the delete of an absent name changes nothing.
pub proof fn lemma_delete_absent(s: Seq<RecordModel>, name: Seq<char>)
    requires
        !contains_name(s, name),
    ensures
        spec_delete(s, name) == s,
{
}

/// One lifecycle mutation of the registry, as the contracts of `create`
/// and `delete` describe it.
pub enum RegistryOp {
    Create(RecordModel),
    Delete(Seq<char>),
}

/// The name an operation is about.
pub open spec fn op_name(op: RegistryOp) -> Seq<char> {
    match op {
        RegistryOp::Create(m) => m.name,
        RegistryOp::Delete(n) => n,
    }
}

/// The collection one operation leaves behind.
pub open spec fn apply_op(s: Seq<RecordModel>, op: RegistryOp) -> Seq<RecordModel> {
    match op {
        RegistryOp::Create(m) => spec_create(s, m),
        RegistryOp::Delete(n) => spec_delete(s, n),
    }
}

/// The collection a sequence of operations leaves behind, applied in
/// order.
pub open spec fn apply_ops(s: Seq<RecordModel>, ops: Seq<RegistryOp>) -> Seq<RecordModel>
    decreases ops.len(),
{
    if ops.len() == 0 {
        s
    } else {
        apply_ops(apply_op(s, ops[0]), ops.subrange(1, ops.len() as int))
    }
}

/// Pairwise disjoint names: no two operations are about the same name.
pub open spec fn distinct_op_names(ops: Seq<RegistryOp>) -> bool {
    forall|i: int, j: int| 0 <= i < j < ops.len() ==> op_name(ops[i]) != op_name(ops[j])
}

/// Whether some operation in `ops` creates `n`.
pub open spec fn is_create_of(ops: Seq<RegistryOp>, n: Seq<char>) -> bool {
    exists|i: int| 0 <= i < ops.len() && ops[i] is Create && op_name(#[trigger] ops[i]) == n
}

/// Whether no operation in `ops` is about `n`.
pub open spec fn no_op_names(ops: Seq<RegistryOp>, n: Seq<char>) -> bool {
    forall|i: int| 0 <= i < ops.len() ==> op_name(#[trigger] ops[i]) != n
}

/// Applying operations on pairwise disjoint names, none of which is
/// already present, grows the collection by exactly the created names:
/// uniqueness is kept, what was there survives, and of the operations
/// exactly the creates survive.
pub proof fn lemma_apply_ops_disjoint(s: Seq<RecordModel>, ops: Seq<RegistryOp>)
    requires
        unique_names(s),
        distinct_op_names(ops),
        forall|i: int| 0 <= i < ops.len() ==> !contains_name(s, op_name(#[trigger] ops[i])),
    ensures
        unique_names(apply_ops(s, ops)),
        forall|n: Seq<char>| contains_name(apply_ops(s, ops), n) <==> (contains_name(s, n)
            || is_create_of(ops, n)),
        forall|m: RecordModel| s.contains(m) && no_op_names(ops, m.name) ==> #[trigger] apply_ops(
            s,
            ops,
        ).contains(m),
        forall|i: int| 0 <= i < ops.len() ==> ((#[trigger] ops[i]) matches RegistryOp::Create(m)
            ==> apply_ops(s, ops).contains(m)),
    decreases ops.len(),
{
    if ops.len() == 0 {
        assert(forall|n: Seq<char>| !is_create_of(ops, n));
    } else {
        let op = ops[0];
        let rest = ops.subrange(1, ops.len() as int);
        let s1 = apply_op(s, op);
        assert(!contains_name(s, op_name(op)));

        // the first operation keeps uniqueness and adds at most its own name
        match op {
            RegistryOp::Create(m) => {
                assert(s1 == s.push(m));
                assert forall|i: int, j: int| 0 <= i < j < s1.len() implies s1[i].name
                    != s1[j].name by {
                    if j < s.len() as int {
                        assert(s1[i] == s[i] && s1[j] == s[j]);
                    } else {
                        assert(s1[j] == m);
                        assert(s1[i] == s[i]);
                        assert(!contains_name(s, m.name));
                    }
                }
                assert forall|n: Seq<char>| contains_name(s1, n) <==> (contains_name(s, n) || n
                    == m.name) by {
                    if contains_name(s1, n) {
                        let i = choose|i: int| 0 <= i < s1.len() && s1[i].name == n;
                        if i < s.len() as int {
                            assert(s[i].name == n);
                        } else {
                            assert(s1[i] == m);
                        }
                    }
                    if contains_name(s, n) {
                        let i = choose|i: int| 0 <= i < s.len() && s[i].name == n;
                        assert(s1[i].name == n);
                    }
                    if n == m.name {
                        assert(s1[s.len() as int].name == n);
                    }
                }
            },
            RegistryOp::Delete(n) => {
                assert(s1 == s);
            },
        }

        // the remaining operations see none of their names in s1
        assert forall|i: int| 0 <= i < rest.len() implies !contains_name(
            s1,
            op_name(#[trigger] rest[i]),
        ) by {
            assert(rest[i] == ops[i + 1]);
            assert(op_name(ops[i + 1]) != op_name(ops[0]));
            assert(!contains_name(s, op_name(ops[i + 1])));
        }
        assert(distinct_op_names(rest)) by {
            assert forall|i: int, j: int| 0 <= i < j < rest.len() implies op_name(rest[i])
                != op_name(rest[j]) by {
                assert(rest[i] == ops[i + 1] && rest[j] == ops[j + 1]);
            }
        }
        lemma_apply_ops_disjoint(s1, rest);

        // fold the first operation back in
        assert(apply_ops(s, ops) == apply_ops(s1, rest));
        assert forall|n: Seq<char>| contains_name(apply_ops(s, ops), n) <==> (contains_name(s, n)
            || is_create_of(ops, n)) by {
            assert(contains_name(apply_ops(s1, rest), n) <==> (contains_name(s1, n)
                || is_create_of(rest, n)));
            if is_create_of(rest, n) {
                let i = choose|i: int|
                    0 <= i < rest.len() && rest[i] is Create && op_name(rest[i]) == n;
                assert(ops[i + 1] == rest[i]);
                assert(is_create_of(ops, n));
            }
            if is_create_of(ops, n) && !(op is Create && op_name(op) == n) {
                let i = choose|i: int|
                    0 <= i < ops.len() && ops[i] is Create && op_name(ops[i]) == n;
                assert(i != 0);
                assert(rest[i - 1] == ops[i]);
                assert(is_create_of(rest, n));
            }
        }

        // records untouched by the operations survive
        assert forall|m: RecordModel| s.contains(m) && no_op_names(ops, m.name)
            implies #[trigger] apply_ops(s, ops).contains(m) by {
            let k = choose|k: int| 0 <= k < s.len() && s[k] == m;
            match op {
                RegistryOp::Create(m0) => {
                    assert(s1[k] == m);
                },
                RegistryOp::Delete(_) => {
                    assert(s1 == s);
                },
            }
            assert(s1.contains(m));
            assert(no_op_names(rest, m.name)) by {
                assert forall|i: int| 0 <= i < rest.len() implies op_name(#[trigger] rest[i])
                    != m.name by {
                    assert(rest[i] == ops[i + 1]);
                }
            }
            assert(apply_ops(s1, rest).contains(m));
        }

        // each created record survives, intact
        assert forall|i: int| 0 <= i < ops.len() implies ((#[trigger] ops[i])
            matches RegistryOp::Create(m) ==> apply_ops(s, ops).contains(m)) by {
            if ops[i] is Create {
                let m = ops[i]->Create_0;
                if i == 0 {
                    assert(s1 == s.push(m));
                    assert(s1[s.len() as int] == m);
                    assert(s1.contains(m));
                    assert(no_op_names(rest, m.name)) by {
                        assert forall|j: int| 0 <= j < rest.len() implies op_name(
                            #[trigger] rest[j],
                        ) != m.name by {
                            assert(rest[j] == ops[j + 1]);
                            assert(op_name(ops[j + 1]) != op_name(ops[0]));
                        }
                    }
                    assert(apply_ops(s1, rest).contains(m));
                } else {
                    assert(rest[i - 1] == ops[i]);
                    assert(apply_ops(s1, rest).contains(m));
                }
            }
        }
    }
}

/// For any sequence of creates and deletes on pairwise disjoint names,
/// run in any interleaving order from an empty registry, the surviving
/// collection holds exactly the created records: no create and no delete
/// is lost, each created record survives intact, and the outcome does not
/// depend on the order — it is the same set of names for every
/// permutation of the operations.
pub proof fn lemma_disjoint_ops_surviving(ops: Seq<RegistryOp>)
    requires
        distinct_op_names(ops),
    ensures
        unique_names(apply_ops(Seq::empty(), ops)),
        forall|n: Seq<char>| contains_name(apply_ops(Seq::<RecordModel>::empty(), ops), n)
            <==> is_create_of(ops, n),
        forall|i: int| 0 <= i < ops.len() ==> ((#[trigger] ops[i]) matches RegistryOp::Create(m)
            ==> apply_ops(Seq::empty(), ops).contains(m)),
{
    lemma_apply_ops_disjoint(Seq::empty(), ops);
}

/// A delete removes exactly the record bearing its name: afterwards that
/// name is gone, and every other name is present exactly as before.
pub proof fn lemma_delete_other_names(s: Seq<RecordModel>, name: Seq<char>)
    requires
        unique_names(s),
        contains_name(s, name),
    ensures
        !contains_name(spec_delete(s, name), name),
        forall|m: Seq<char>| m != name ==> contains_name(spec_delete(s, name), m) == contains_name(
            s,
            m,
        ),
{
    let idx = idx_of(s, name);
    assert(0 <= idx < s.len() && s[idx].name == name);
    let r = s.remove(idx);
    assert forall|j: int| 0 <= j < r.len() implies r[j].name != name by {
        if j < idx {
            assert(r[j] == s[j]);
        } else {
            assert(r[j] == s[j + 1]);
        }
    }
    assert(!contains_name(r, name));
    assert forall|m: Seq<char>| m != name implies contains_name(r, m) == contains_name(s, m) by {
        if contains_name(s, m) {
            let i = choose|i: int| 0 <= i < s.len() && s[i].name == m;
            if i < idx {
                assert(r[i] == s[i]);
                assert(contains_name(r, m));
            } else {
                assert(i != idx);
                assert(r[i - 1] == s[i]);
                assert(contains_name(r, m));
            }
        }
        if contains_name(r, m) {
            let j = choose|j: int| 0 <= j < r.len() && r[j].name == m;
            if j < idx {
                assert(r[j] == s[j]);
            } else {
                assert(r[j] == s[j + 1]);
            }
            assert(contains_name(s, m));
        }
    }
}

/// Creating a name and creating it again without deleting leaves the
/// registry exactly as the first create left it: the second call finds
/// the name present (and so fails with `AlreadyExists`), and the record
/// from the first call still stands, unaffected, at the end of the
/// collection.
pub proof fn lemma_create_twice(s: Seq<RecordModel>, first: RecordModel, second: RecordModel)
    requires
        !contains_name(s, first.name),
        second.name == first.name,
    ensures
        contains_name(spec_create(s, first), second.name),
        spec_create(spec_create(s, first), second) == spec_create(s, first),
        spec_create(s, first).last() == first,
{
    let s1 = spec_create(s, first);
    assert(s1[s.len() as int] == first);
    assert(contains_name(s1, second.name));
}

} // verus!
