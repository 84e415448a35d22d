//! The lifecycle coordinator: the façade a transport layer drives.
//!
//! It sequences validation, mutation, durable persistence and run-tracker
//! interaction for each lifecycle operation, and maintains the invariant
//! that every name with a live agent corresponds to an existing record —
//! deleting a running environment is refused until it is stopped.
//!
//! Spawning and terminating the agent itself is a collaborator's job and
//! happens outside this crate (and outside any lock): the caller resolves
//! and launches, then hands the outcome in as a [`LaunchOutcome`], and
//! only a `Ready` outcome ever marks a name running.

use vstd::prelude::*;
use crate::bottle::{
    BottleInfo, BottleRecord, LifecycleError, RecordModel, derive_path, derived_path,
    kind_from_str, kind_of, models,
};
use crate::registry::{Registry, contains_name, idx_of, spec_create, spec_delete, unique_names};
use crate::orchestrator::{Orchestrator, name_idx};

verus! {

/// The agent-launch collaborator's report: the agent came up and signalled
/// readiness, or how it failed.  Produced outside this crate by the
/// component resolver and agent launcher.
#[derive(Clone, Copy, Debug, PartialEq, Eq, Structural)]
pub enum LaunchOutcome {
    /// The agent spawned and reported readiness.
    Ready,
    /// The component resolver found no runnable configuration.
    Unresolvable,
    /// The launcher failed to spawn the agent.
    SpawnFailed,
    /// The agent spawned but never reported readiness in time.
    TimedOut,
}

/// Sequences lifecycle operations over the registry and the run tracker.
pub struct Coordinator {
    base: String,
    registry: Registry,
    tracker: Orchestrator,
}

impl Coordinator {
    /// The record collection, in insertion order.
    pub closed spec fn records(self) -> Seq<RecordModel> {
        self.registry.recs()
    }

    /// The snapshot the durable store holds.
    pub closed spec fn saved(self) -> Seq<RecordModel> {
        self.registry.saved()
    }

    /// The tracked running names, in the order their agents came up.
    pub closed spec fn running_names(self) -> Seq<Seq<char>> {
        self.tracker.names()
    }

    /// Whether `n` currently has a live agent.
    pub open spec fn running(self, n: Seq<char>) -> bool {
        self.running_names().contains(n)
    }

    /// The configured base directory that backing paths are derived from.
    pub closed spec fn base_dir(self) -> Seq<char> {
        self.base@
    }

    /// Well-formedness: names are unique, no name is tracked twice, and
    /// an active name always corresponds to an existing record.
    pub closed spec fn wf(self) -> bool {
        &&& self.registry.wf()
        &&& self.tracker.wf()
        &&& forall|n: Seq<char>| #[trigger] self.tracker.tracks(n) ==> contains_name(
            self.registry.recs(),
            n,
        )
    }

    /// A coordinator over the collection loaded from the durable store,
    /// with no agent running.  A collection with a duplicated name is
    /// treated as a load failure and yields an empty registry.
    pub fn new(base: String, initial: Vec<BottleRecord>) -> (r: Coordinator)
        ensures
            r.wf(),
            r.base_dir() == base@,
            unique_names(models(initial@)) ==> r.records() == models(initial@),
            !unique_names(models(initial@)) ==> r.records() == Seq::<RecordModel>::empty(),
            r.saved() == r.records(),
            r.running_names() == Seq::<Seq<char>>::empty(),
    {
        Coordinator { base, registry: Registry::from_records(initial), tracker: Orchestrator::new() }
    }

    /// The record a create of `name` under kind string `t` would add.
    pub open spec fn created_model(self, name: Seq<char>, t: Seq<char>) -> RecordModel {
        RecordModel { name, path: derived_path(self.base_dir(), name), kind: kind_of(t) }
    }

    /// Creates an environment: fails with `AlreadyExists` when the name
    /// is present, touching nothing; otherwise appends a record whose
    /// path is `<base>/<name>` and whose kind is mapped leniently from
    /// `kind_name`, saves durably, and reports the new record, inactive.
    pub fn create_bottle(&mut self, name: String, kind_name: &str) -> (r: Result<
        BottleInfo,
        LifecycleError,
    >)
        requires
            old(self).wf(),
        ensures
            final(self).wf(),
            final(self).base_dir() == old(self).base_dir(),
            final(self).running_names() == old(self).running_names(),
            final(self).records() == spec_create(
                old(self).records(),
                old(self).created_model(name@, kind_name@),
            ),
            contains_name(old(self).records(), name@) ==> {
                &&& r == Err::<BottleInfo, LifecycleError>(LifecycleError::AlreadyExists)
                &&& final(self).saved() == old(self).saved()
            },
            !contains_name(old(self).records(), name@) ==> ({
                let m = old(self).created_model(name@, kind_name@);
                &&& (r matches Ok(info) && info.name@ == name@ && info.path@ == m.path
                    && info.kind == m.kind && info.active == false)
                &&& final(self).saved() == final(self).records()
            }),
    {
        let path = derive_path(self.base.as_str(), name.as_str());
        let kind = kind_from_str(kind_name);
        let ghost m = old(self).created_model(name@, kind_name@);
        proof {
            assert((RecordModel { name: name@, path: path@, kind }) =~= m);
        }
        let result = self.registry.create(name, kind, path);
        proof {
            assert forall|n: Seq<char>| #[trigger] self.tracker.tracks(n) implies contains_name(
                self.registry.recs(),
                n,
            ) by {
                let s = old(self).registry.recs();
                assert(contains_name(s, n));
                let i = choose|i: int| 0 <= i < s.len() && s[i].name == n;
                if !contains_name(s, m.name) {
                    assert(self.registry.recs() == s.push(m));
                    assert(self.registry.recs()[i].name == n);
                } else {
                    assert(self.registry.recs()[i].name == n);
                }
            }
        }
        match result {
            Ok(rec) => Ok(
                BottleInfo { name: rec.name, path: rec.path, kind: rec.kind, active: false },
            ),
            Err(e) => Err(e),
        }
    }

    /// Deletes an environment: fails with `NotFound` when the name is
    /// absent and with `AlreadyRunning` while it has a live agent — a
    /// running environment must be stopped before it can be deleted.  On
    /// success the record is removed and the collection saved durably; a
    /// failed call touches nothing.
    pub fn delete_bottle(&mut self, name: &str) -> (r: Result<(), LifecycleError>)
        requires
            old(self).wf(),
        ensures
            final(self).wf(),
            final(self).base_dir() == old(self).base_dir(),
            final(self).running_names() == old(self).running_names(),
            !contains_name(old(self).records(), name@) ==> {
                &&& r == Err::<(), LifecycleError>(LifecycleError::NotFound)
                &&& final(self).records() == old(self).records()
                &&& final(self).saved() == old(self).saved()
            },
            contains_name(old(self).records(), name@) && old(self).running(name@) ==> {
                &&& r == Err::<(), LifecycleError>(LifecycleError::AlreadyRunning)
                &&& final(self).records() == old(self).records()
                &&& final(self).saved() == old(self).saved()
            },
            contains_name(old(self).records(), name@) && !old(self).running(name@) ==> {
                &&& r == Ok::<(), LifecycleError>(())
                &&& final(self).records() == spec_delete(old(self).records(), name@)
                &&& final(self).saved() == final(self).records()
            },
    {
        let owned = name.to_owned();
        if !self.registry.contains(&owned) {
            return Err(LifecycleError::NotFound);
        }
        if self.tracker.is_running(name) {
            return Err(LifecycleError::AlreadyRunning);
        }
        let result = self.registry.delete(&owned);
        proof {
            crate::registry::lemma_delete_other_names(old(self).registry.recs(), name@);
            assert forall|n: Seq<char>| #[trigger] self.tracker.tracks(n) implies contains_name(
                self.registry.recs(),
                n,
            ) by {
                assert(old(self).tracker.tracks(n));
                assert(contains_name(old(self).registry.recs(), n));
                assert(n != name@);
            }
        }
        result
    }

    /// Reports the record bearing `name` with its derived `active` flag;
    /// fails with `NotFound` when the name is absent.
    pub fn get_bottle(&self, name: &str) -> (r: Result<BottleInfo, LifecycleError>)
        requires
            self.wf(),
        ensures
            !contains_name(self.records(), name@) ==> r == Err::<BottleInfo, LifecycleError>(
                LifecycleError::NotFound,
            ),
            contains_name(self.records(), name@) ==> ({
                let m = self.records()[idx_of(self.records(), name@)];
                r matches Ok(info) && info.name@ == m.name && info.path@ == m.path && info.kind
                    == m.kind && info.active == self.running(name@)
            }),
    {
        let owned = name.to_owned();
        match self.registry.get(&owned) {
            Err(e) => Err(e),
            Ok(rec) => {
                let active = self.tracker.is_running(name);
                Ok(BottleInfo { name: rec.name, path: rec.path, kind: rec.kind, active })
            },
        }
    }

    /// A snapshot of all records in insertion order, each with its
    /// derived `active` flag.  Never fails.
    pub fn list_bottles(&self) -> (r: Vec<BottleInfo>)
        requires
            self.wf(),
        ensures
            r@.len() == self.records().len(),
            forall|i: int| 0 <= i < r@.len() ==> #[trigger] r@[i].name@ == self.records()[i].name,
            forall|i: int| 0 <= i < r@.len() ==> #[trigger] r@[i].path@ == self.records()[i].path,
            forall|i: int| 0 <= i < r@.len() ==> #[trigger] r@[i].kind == self.records()[i].kind,
            forall|i: int| 0 <= i < r@.len() ==> #[trigger] r@[i].active == self.running(
                self.records()[i].name,
            ),
    {
        let records = self.registry.list();
        let mut out: Vec<BottleInfo> = Vec::new();
        let mut i: usize = 0;
        while i < records.len()
            invariant
                self.wf(),
                i <= records.len(),
                models(records@) == self.records(),
                out@.len() == i,
                forall|j: int| 0 <= j < i ==> #[trigger] out@[j].name@ == self.records()[j].name,
                forall|j: int| 0 <= j < i ==> #[trigger] out@[j].path@ == self.records()[j].path,
                forall|j: int| 0 <= j < i ==> #[trigger] out@[j].kind == self.records()[j].kind,
                forall|j: int| 0 <= j < i ==> #[trigger] out@[j].active == self.running(
                    self.records()[j].name,
                ),
            decreases records.len() - i,
        {
            let rec = &records[i];
            let active = self.tracker.is_running(rec.name.as_str());
            let ghost prev = out@;
            out.push(
                BottleInfo { name: rec.name.clone(), path: rec.path.clone(), kind: rec.kind, active },
            );
            proof {
                assert(models(records@)[i as int] == records@[i as int]@);
                assert(out@[i as int] == out@.last());
            }
            i += 1;
        }
        out
    }

    /// Starts an environment: fails with `NotFound` when no record bears
    /// the name and with `AlreadyRunning` when it already has a live
    /// agent.  The caller launches the agent through the collaborators
    /// and hands the outcome in: only a `Ready` outcome marks the name
    /// running — a launch failure is reported as `CollaboratorFailure`
    /// and never leaves the tracker marked.
    pub fn start_bottle(&mut self, name: &str, launch: LaunchOutcome) -> (r: Result<
        (),
        LifecycleError,
    >)
        requires
            old(self).wf(),
        ensures
            final(self).wf(),
            final(self).base_dir() == old(self).base_dir(),
            final(self).records() == old(self).records(),
            final(self).saved() == old(self).saved(),
            !contains_name(old(self).records(), name@) ==> {
                &&& r == Err::<(), LifecycleError>(LifecycleError::NotFound)
                &&& final(self).running_names() == old(self).running_names()
            },
            contains_name(old(self).records(), name@) && old(self).running(name@) ==> {
                &&& r == Err::<(), LifecycleError>(LifecycleError::AlreadyRunning)
                &&& final(self).running_names() == old(self).running_names()
            },
            contains_name(old(self).records(), name@) && !old(self).running(name@) && launch
                is Ready ==> {
                &&& r == Ok::<(), LifecycleError>(())
                &&& final(self).running_names() == old(self).running_names().push(name@)
            },
            contains_name(old(self).records(), name@) && !old(self).running(name@) && !(launch
                is Ready) ==> {
                &&& r == Err::<(), LifecycleError>(LifecycleError::CollaboratorFailure)
                &&& final(self).running_names() == old(self).running_names()
            },
    {
        let owned = name.to_owned();
        if !self.registry.contains(&owned) {
            return Err(LifecycleError::NotFound);
        }
        if self.tracker.is_running(name) {
            return Err(LifecycleError::AlreadyRunning);
        }
        match launch {
            LaunchOutcome::Ready => {
                let result = self.tracker.start_bottle(owned);
                proof {
                    let old_names = old(self).tracker.names();
                    assert(self.tracker.names() == old_names.push(name@));
                    assert forall|n: Seq<char>| #[trigger] self.tracker.tracks(n)
                        implies contains_name(self.registry.recs(), n) by {
                        let j = choose|j: int|
                            0 <= j < self.tracker.names().len() && self.tracker.names()[j] == n;
                        if j < old_names.len() {
                            assert(old_names[j] == n);
                            assert(old(self).tracker.tracks(n));
                        } else {
                            assert(n == name@);
                        }
                    }
                }
                result
            },
            _ => Err(LifecycleError::CollaboratorFailure),
        }
    }

    /// Stops an environment: fails with `NotFound` when no record bears
    /// the name and with `NotRunning` when it has no live agent.  The
    /// caller terminates the agent through the collaborator; termination
    /// is treated as acknowledged, so a successful call always unmarks
    /// the name.
    pub fn stop_bottle(&mut self, name: &str) -> (r: Result<(), LifecycleError>)
        requires
            old(self).wf(),
        ensures
            final(self).wf(),
            final(self).base_dir() == old(self).base_dir(),
            final(self).records() == old(self).records(),
            final(self).saved() == old(self).saved(),
            !contains_name(old(self).records(), name@) ==> {
                &&& r == Err::<(), LifecycleError>(LifecycleError::NotFound)
                &&& final(self).running_names() == old(self).running_names()
            },
            contains_name(old(self).records(), name@) && !old(self).running(name@) ==> {
                &&& r == Err::<(), LifecycleError>(LifecycleError::NotRunning)
                &&& final(self).running_names() == old(self).running_names()
            },
            contains_name(old(self).records(), name@) && old(self).running(name@) ==> {
                &&& r == Ok::<(), LifecycleError>(())
                &&& final(self).running_names() == old(self).running_names().remove(
                    name_idx(old(self).running_names(), name@),
                )
            },
    {
        let owned = name.to_owned();
        if !self.registry.contains(&owned) {
            return Err(LifecycleError::NotFound);
        }
        let result = self.tracker.stop_bottle(name);
        proof {
            if old(self).tracker.tracks(name@) {
                crate::orchestrator::lemma_stop_untracks(old(self).tracker.names(), name@);
            }
            assert forall|n: Seq<char>| #[trigger] self.tracker.tracks(n) implies contains_name(
                self.registry.recs(),
                n,
            ) by {
                if old(self).tracker.tracks(name@) {
                    if n == name@ {
                        assert(!self.tracker.names().contains(n));
                    } else {
                        assert(old(self).tracker.tracks(n));
                    }
                } else {
                    assert(old(self).tracker.tracks(n));
                }
            }
        }
        result
    }

    /// Restarts an environment: a stop followed by a start, each step
    /// under the same rules as the standalone calls.  When the stop fails
    /// — the name absent, or nothing running — the restart fails without
    /// attempting the start, so a state inconsistency is never masked.
    /// When the stop succeeds but the relaunch does not report readiness,
    /// the environment is left stopped and the failure reported.
    pub fn restart_bottle(&mut self, name: &str, relaunch: LaunchOutcome) -> (r: Result<
        (),
        LifecycleError,
    >)
        requires
            old(self).wf(),
        ensures
            final(self).wf(),
            final(self).base_dir() == old(self).base_dir(),
            final(self).records() == old(self).records(),
            final(self).saved() == old(self).saved(),
            !contains_name(old(self).records(), name@) ==> {
                &&& r == Err::<(), LifecycleError>(LifecycleError::NotFound)
                &&& final(self).running_names() == old(self).running_names()
            },
            contains_name(old(self).records(), name@) && !old(self).running(name@) ==> {
                &&& r == Err::<(), LifecycleError>(LifecycleError::NotRunning)
                &&& final(self).running_names() == old(self).running_names()
            },
            contains_name(old(self).records(), name@) && old(self).running(name@) ==> ({
                let stopped = old(self).running_names().remove(
                    name_idx(old(self).running_names(), name@),
                );
                &&& (relaunch is Ready ==> r == Ok::<(), LifecycleError>(())
                    && final(self).running_names() == stopped.push(name@))
                &&& (!(relaunch is Ready) ==> r == Err::<(), LifecycleError>(
                    LifecycleError::CollaboratorFailure,
                ) && final(self).running_names() == stopped)
            }),
    {
        let stop_result = self.stop_bottle(name);
        match stop_result {
            Err(e) => Err(e),
            Ok(()) => {
                proof {
                    crate::orchestrator::lemma_stop_untracks(old(self).tracker.names(), name@);
                    assert(!self.tracker.tracks(name@));
                }
                self.start_bottle(name, relaunch)
            },
        }
    }
}

} // verus!
