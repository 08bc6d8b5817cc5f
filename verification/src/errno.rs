//! Error codes and the aggregation rule that merges best-effort failures.
//!
//! Codes come from the operating system's error-code space. Two of them are
//! *soft*: "no such entity" and "permission denied". A chain of best-effort
//! attempts keeps a single aggregated code, starting from "no such entity";
//! a soft failure only ever escalates it to "permission denied", while any
//! other (*hard*) code stops the chain at once and becomes the final outcome.

use vstd::prelude::*;

verus! {

/// The "no such entity" error code, the default outcome of an empty chain.
pub const ENOENT: i32 = 2;

/// The "permission denied" error code, preferred over "no such entity"
/// because it is stronger evidence that something was found but rejected.
pub const EACCES: i32 = 13;

/// A code is soft when trying further candidates can still help.
pub open spec fn is_soft(e: i32) -> bool {
    e == ENOENT || e == EACCES
}

/// What the aggregator decides after folding one more failure code.
#[derive(Clone, Copy, Debug, PartialEq, Eq, Structural)]
pub enum Fold {
    /// Keep trying further candidates, carrying the aggregated code.
    Continue(i32),
    /// A hard code appeared: stop at once, this is the final outcome.
    Stop(i32),
}

/// The aggregation rule: "permission denied" escalates the aggregate,
/// "no such entity" leaves it alone, anything else stops the chain.
pub open spec fn spec_fold(best: i32, new: i32) -> Fold {
    if new == EACCES {
        Fold::Continue(EACCES)
    } else if new == ENOENT {
        Fold::Continue(best)
    } else {
        Fold::Stop(new)
    }
}

/// Fold one failure code into the aggregated error of a chain traversal.
pub fn fold_error(best: i32, new: i32) -> (r: Fold)
    requires
        is_soft(best),
    ensures
        r == spec_fold(best, new),
        r matches Fold::Continue(b) ==> is_soft(b),
        r matches Fold::Stop(h) ==> !is_soft(h) && h == new,
{
    if new == EACCES {
        Fold::Continue(EACCES)
    } else if new == ENOENT {
        Fold::Continue(best)
    } else {
        Fold::Stop(new)
    }
}

} // verus!
