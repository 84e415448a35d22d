//! The run tracker: which environment names currently have a live
//! execution agent.
//!
//! Liveness is deliberately decoupled from existence: this component
//! holds bare names, with no back-reference to records.  Both transitions
//! are strict test-and-sets — a second start of a running name and a stop
//! of a non-running name fail rather than silently succeeding — so a lost
//! update in a race surfaces as an explicit error.

use vstd::prelude::*;
use crate::bottle::LifecycleError;

verus! {

/// The index of `n` in `names`.
pub open spec fn name_idx(names: Seq<Seq<char>>, n: Seq<char>) -> int {
    choose|i: int| 0 <= i < names.len() && names[i] == n
}

/// What a start leaves behind, and whether it succeeded: the name set
/// unchanged and failure when the name is already tracked, else the name
/// added and success.
pub open spec fn spec_start(names: Seq<Seq<char>>, n: Seq<char>) -> (Seq<Seq<char>>, bool) {
    if names.contains(n) {
        (names, false)
    } else {
        (names.push(n), true)
    }
}

/// What a stop leaves behind, and whether it succeeded: the name removed
/// and success when it is tracked, else the name set unchanged and
/// failure.
pub open spec fn spec_stop(names: Seq<Seq<char>>, n: Seq<char>) -> (Seq<Seq<char>>, bool) {
    if names.contains(n) {
        (names.remove(name_idx(names, n)), true)
    } else {
        (names, false)
    }
}

/// Tracks the set of environment names with a live agent.
pub struct Orchestrator {
    running: Vec<String>,
}

impl Orchestrator {
    /// The tracked names, in the order their agents came up.
    pub closed spec fn names(self) -> Seq<Seq<char>> {
        self.running@.map_values(|s: String| s@)
    }

    /// Whether `n` currently has a live agent.
    pub open spec fn tracks(self, n: Seq<char>) -> bool {
        self.names().contains(n)
    }

    /// Well-formedness: a name is tracked at most once.
    pub open spec fn wf(self) -> bool {
        forall|i: int, j: int| 0 <= i < j < self.names().len() ==> self.names()[i] != self.names()[j]
    }

    /// A tracker with no live agents.
    pub fn new() -> (r: Self)
        ensures
            r.wf(),
            r.names() == Seq::<Seq<char>>::empty(),
    {
        let r = Orchestrator { running: Vec::new() };
        proof {
            assert(r.names() =~= Seq::<Seq<char>>::empty());
        }
        r
    }

    fn position_of(&self, name: &String) -> (r: Option<usize>)
        ensures
            match r {
                Some(i) => i < self.names().len() && self.names()[i as int] == name@,
                None => !self.tracks(name@),
            },
    {
        let n: usize = self.running.len();
        let mut i: usize = 0;
        while i < n
            invariant
                i <= n,
                n == self.names().len(),
                forall|j: int| 0 <= j < i ==> self.names()[j] != name@,
            decreases n - i,
        {
            if self.running[i] == *name {
                return Some(i);
            }
            i += 1;
        }
        proof {
            assert forall|k: int| 0 <= k < self.names().len() implies self.names()[k] != name@ by {}
            assert(!self.names().contains(name@));
        }
        None
    }

    /// Marks `name` as having a live agent: an atomic check-then-insert.
    /// Fails with `AlreadyRunning`, changing nothing, when the name is
    /// already tracked — there is no window in which two starts of the
    /// same name both succeed.
    pub fn start_bottle(&mut self, name: String) -> (r: Result<(), LifecycleError>)
        requires
            old(self).wf(),
        ensures
            final(self).wf(),
            final(self).names() == spec_start(old(self).names(), name@).0,
            (r is Ok) == spec_start(old(self).names(), name@).1,
            old(self).tracks(name@) ==> r == Err::<(), LifecycleError>(LifecycleError::AlreadyRunning),
            !old(self).tracks(name@) ==> r == Ok::<(), LifecycleError>(()) && final(self).names()
                == old(self).names().push(name@),
    {
        match self.position_of(&name) {
            Some(_) => Err(LifecycleError::AlreadyRunning),
            None => {
                let ghost old_names = self.names();
                self.running.push(name);
                proof {
                    assert(self.names() =~= old_names.push(self.running@.last()@));
                }
                Ok(())
            },
        }
    }

    /// Marks `name` as stopped: an atomic check-then-remove.  Fails with
    /// `NotRunning`, changing nothing, when the name is not tracked.
    pub fn stop_bottle(&mut self, name: &str) -> (r: Result<(), LifecycleError>)
        requires
            old(self).wf(),
        ensures
            final(self).wf(),
            final(self).names() == spec_stop(old(self).names(), name@).0,
            (r is Ok) == spec_stop(old(self).names(), name@).1,
            !old(self).tracks(name@) ==> r == Err::<(), LifecycleError>(LifecycleError::NotRunning),
            old(self).tracks(name@) ==> r == Ok::<(), LifecycleError>(()) && final(self).names()
                == old(self).names().remove(name_idx(old(self).names(), name@)),
    {
        let owned = name.to_owned();
        match self.position_of(&owned) {
            None => Err(LifecycleError::NotRunning),
            Some(i) => {
                let ghost old_names = self.names();
                proof {
                    let k = name_idx(old_names, name@);
                    assert(old_names[k] == name@);
                    assert(k == i as int);
                }
                self.running.remove(i);
                proof {
                    assert(self.names() =~= old_names.remove(i as int));
                }
                Ok(())
            },
        }
    }

    /// Point-in-time membership test; never fails.
    pub fn is_running(&self, name: &str) -> (r: bool)
        ensures
            r == self.tracks(name@),
    {
        let owned = name.to_owned();
        match self.position_of(&owned) {
            Some(_) => true,
            None => false,
        }
    }
}

/// A stop removes exactly the one entry of its name: afterwards the name
/// is untracked, and every other name is tracked exactly as before.
pub proof fn lemma_stop_untracks(names: Seq<Seq<char>>, n: Seq<char>)
    requires
        names.contains(n),
        forall|i: int, j: int| 0 <= i < j < names.len() ==> names[i] != names[j],
    ensures
        !spec_stop(names, n).0.contains(n),
        forall|m: Seq<char>| m != n ==> spec_stop(names, n).0.contains(m) == names.contains(m),
{
    let idx = name_idx(names, n);
    assert(0 <= idx < names.len() && names[idx] == n);
    let r = names.remove(idx);
    assert forall|j: int| 0 <= j < r.len() implies r[j] != n by {
        if j < idx {
            assert(r[j] == names[j]);
        } else {
            assert(r[j] == names[j + 1]);
        }
    }
    assert(!r.contains(n));
    assert forall|m: Seq<char>| m != n implies r.contains(m) == names.contains(m) by {
        if names.contains(m) {
            let i = choose|i: int| 0 <= i < names.len() && names[i] == m;
            if i < idx {
                assert(r[i] == names[i]);
                assert(r.contains(m));
            } else {
                assert(i != idx);
                assert(r[i - 1] == names[i]);
                assert(r.contains(m));
            }
        }
        if r.contains(m) {
            let j = choose|j: int| 0 <= j < r.len() && r[j] == m;
            if j < idx {
                assert(r[j] == names[j]);
            } else {
                assert(r[j] == names[j + 1]);
            }
            assert(names.contains(m));
        }
    }
}

/// A start of an untracked name, immediately followed by a second start
/// of the same name, yields exactly one success and one failure — never
/// two successes — and the second call leaves the tracker as the first
/// left it.
pub proof fn lemma_start_start_race(names: Seq<Seq<char>>, n: Seq<char>)
    requires
        !names.contains(n),
    ensures
        spec_start(names, n).1,
        !spec_start(spec_start(names, n).0, n).1,
        spec_start(spec_start(names, n).0, n).0 == spec_start(names, n).0,
{
    let after = spec_start(names, n).0;
    assert(after[names.len() as int] == n);
    assert(after.contains(n));
}

/// A stop before any start of a name fails; a start followed by a stop
/// both succeed and leave the name untracked — exactly as it began.
pub proof fn lemma_start_stop_cycle(names: Seq<Seq<char>>, n: Seq<char>)
    requires
        !names.contains(n),
    ensures
        !spec_stop(names, n).1,
        spec_start(names, n).1,
        spec_stop(spec_start(names, n).0, n).1,
        spec_stop(spec_start(names, n).0, n).0 == names,
        !spec_stop(spec_start(names, n).0, n).0.contains(n),
{
    let after = spec_start(names, n).0;
    assert(after[names.len() as int] == n);
    assert(after.contains(n));
    let k = name_idx(after, n);
    assert(after[k] == n);
    assert(k == names.len() as int) by {
        if k < names.len() as int {
            assert(names[k] == n);
            assert(names.contains(n));
        }
    }
    assert(after.remove(k) =~= names);
}

} // verus!
