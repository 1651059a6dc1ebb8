//! What the store held from the last run, and the courses that became graded
//! since then.
use vstd::prelude::*;
use crate::record::{results_view, CourseResult};
use crate::results::{changes_spec, diff_results, refs_view};

verus! {

/// Why a stored result set could not be read.
#[derive(Debug, Clone, Copy, PartialEq, Eq)]
pub enum SnapshotError {
    /// The stored text is not a result set.
    Corrupt,
}

/// What the store held from the last run.
#[derive(Debug)]
pub enum Snapshot {
    /// Nothing was stored: this is the first run.
    NotFound,
    /// Something was stored that is not a result set.
    Corrupt,
    /// The stored result set.
    Found(Vec<CourseResult>),
}

/// Tells apart the three outcomes of loading: nothing stored, something stored
/// that could not be read, and a stored result set.
pub fn read_snapshot(stored: Option<Result<Vec<CourseResult>, SnapshotError>>) -> (r: Snapshot)
    ensures
        stored is None <==> r is NotFound,
        stored matches Some(Err(_)) <==> r is Corrupt,
        stored matches Some(Ok(v)) ==> (r matches Snapshot::Found(w) && results_view(w@) == results_view(v@)),
{
    match stored {
        None => Snapshot::NotFound,
        Some(Err(_)) => Snapshot::Corrupt,
        Some(Ok(v)) => Snapshot::Found(v),
    }
}

/// The courses of `current` that became graded since the stored set; `None`
/// when there is no usable stored set, so that a first run reports nothing.
pub fn newly_graded<'a>(previous: &Snapshot, current: &'a [CourseResult]) -> (r: Option<Vec<&'a CourseResult>>)
    ensures
        !(previous is Found) <==> r is None,
        previous matches Snapshot::Found(old) ==> (r matches Some(v) && refs_view(v@) == changes_spec(results_view(old@), results_view(current@))),
{
    match previous {
        Snapshot::Found(old) => Some(diff_results(old.as_slice(), current)),
        _ => None,
    }
}

} // verus!
