//! What clearing the staging directory reports.
use vstd::prelude::*;

verus! {

/// The outcome of clearing the staging directory.
#[derive(Debug, Clone, Copy, PartialEq, Eq, Structural)]
pub enum ClearOutcome {
    /// The directory was removed.
    Cleared,
    /// There was nothing to remove; not a failure.
    NothingToClear,
}

/// The outcome of clearing, given whether the directory's removal succeeded.
pub fn clear_outcome(removed: bool) -> (r: ClearOutcome)
    ensures
        r == (if removed {
            ClearOutcome::Cleared
        } else {
            ClearOutcome::NothingToClear
        }),
{
    if removed {
        ClearOutcome::Cleared
    } else {
        ClearOutcome::NothingToClear
    }
}

impl ClearOutcome {
    /// The notice shown to the user.
    pub fn message(&self) -> (r: String)
        ensures
            *self == ClearOutcome::Cleared ==> r@ == "Cleared cache."@,
            *self == ClearOutcome::NothingToClear ==> r@ == "No cache to clear."@,
    {
        match self {
            ClearOutcome::Cleared => "Cleared cache.".to_owned(),
            ClearOutcome::NothingToClear => "No cache to clear.".to_owned(),
        }
    }
}

} // verus!
