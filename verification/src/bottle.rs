//! The environment record: name, backing path and category of one bottle.

use vstd::prelude::*;
use vstd::string::StringExecFns;

verus! {

/// Category of an environment.  Informational only: it never affects
/// lifecycle semantics.
#[derive(Clone, Copy, Debug, PartialEq, Eq, Structural)]
pub enum BottleKind {
    Gaming,
    Software,
    Custom,
}

/// The category named by a client-supplied string.  Unrecognized or empty
/// strings collapse to `Custom`: lenient input is a deliberate policy, not
/// an error.
pub open spec fn kind_of(s: Seq<char>) -> BottleKind {
    if s == "Gaming"@ {
        BottleKind::Gaming
    } else if s == "Software"@ {
        BottleKind::Software
    } else {
        BottleKind::Custom
    }
}

/// Mathematical value of one environment record.
#[verifier::ext_equal]
pub struct RecordModel {
    pub name: Seq<char>,
    pub path: Seq<char>,
    pub kind: BottleKind,
}

/// One environment record.  All fields are fixed at creation; the record
/// is authoritative for existence and identity, never for liveness.
#[derive(Debug)]
pub struct BottleRecord {
    /// Unique identifier and sole lookup key (case-sensitive).
    pub name: String,
    /// Filesystem location backing the environment, derived at creation
    /// from the configured base directory.
    pub path: String,
    /// Informational category.
    pub kind: BottleKind,
}

impl View for BottleRecord {
    type V = RecordModel;

    open spec fn view(&self) -> RecordModel {
        RecordModel { name: self.name@, path: self.path@, kind: self.kind }
    }
}

impl Clone for BottleRecord {
    fn clone(&self) -> (r: Self)
        ensures
            r@ == self@,
    {
        BottleRecord { name: self.name.clone(), path: self.path.clone(), kind: self.kind }
    }
}

/// A record as reported to clients: the stored fields plus the derived
/// `active` flag, whose sole source of truth is the run tracker.
#[derive(Debug)]
pub struct BottleInfo {
    pub name: String,
    pub path: String,
    pub kind: BottleKind,
    pub active: bool,
}

/// The models of a sequence of records.
pub open spec fn models(v: Seq<BottleRecord>) -> Seq<RecordModel> {
    v.map_values(|r: BottleRecord| r@)
}

fn str_eq(a: &str, b: &str) -> (r: bool)
    ensures
        r == (a@ == b@),
{
    let x = a.to_owned();
    let y = b.to_owned();
    x == y
}

/// Maps a client-supplied category string to a `BottleKind`, collapsing
/// anything unrecognized to `Custom`.
pub fn kind_from_str(s: &str) -> (r: BottleKind)
    ensures
        r == kind_of(s@),
{
    if str_eq(s, "Gaming") {
        BottleKind::Gaming
    } else if str_eq(s, "Software") {
        BottleKind::Software
    } else {
        BottleKind::Custom
    }
}

/// The backing path of an environment: `<base>/<name>`.
pub open spec fn derived_path(base: Seq<char>, name: Seq<char>) -> Seq<char> {
    base + "/"@ + name
}

/// Derives the backing path `<base>/<name>` for a new environment.
pub fn derive_path(base: &str, name: &str) -> (r: String)
    ensures
        r@ == derived_path(base@, name@),
{
    let mut p = base.to_owned();
    p.append("/");
    p.append(name);
    p
}

/// Everything a lifecycle operation can fail with.  Validation errors
/// (`AlreadyExists`, `NotFound`, `AlreadyRunning`, `NotRunning`) are
/// returned to the caller with no retry; `CollaboratorFailure` reports a
/// resolver or launcher error distinctly from validation.
#[derive(Clone, Copy, Debug, PartialEq, Eq, Structural)]
pub enum LifecycleError {
    AlreadyExists,
    NotFound,
    AlreadyRunning,
    NotRunning,
    CollaboratorFailure,
}

} // verus!
