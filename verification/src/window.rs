//! The recency window of a clip fetch: how long ago a clip may, and must,
//! have been recorded.
//!
//! Callers give both bounds in whole hours, and an hour count of zero
//! stands for "no bound", not for "zero hours ago".

use vstd::prelude::*;

verus! {

/// The largest hour count that a bound can take: the most hours that a
/// `chrono::TimeDelta` holds.
pub const MAX_WINDOW_HOURS: u64 = 2_562_047_788_015;

/// Calls `chrono::TimeDelta::hours` and reads the result back with
/// `num_seconds`. `hours` makes a delta of `hours * 3600` seconds and
/// panics only where that product leaves the range of a delta, which is
/// `i64::MAX` milliseconds to either side; the `requires` keeps inside it.
/// `num_seconds` gives the whole seconds of a delta, which for a delta made
/// from seconds is the count it was made from.
#[verifier::external_body]
fn hours_as_seconds(hours: i64) -> (seconds: i64)
    requires
        0 <= hours <= MAX_WINDOW_HOURS,
    ensures
        seconds == hours * 3600,
{
    chrono::TimeDelta::hours(hours).num_seconds()
}

/// Whether an hour count can be taken as a bound.
pub open spec fn hours_in_range(hours: u64) -> bool {
    hours <= MAX_WINDOW_HOURS
}

/// The bound that an hour count stands for, in seconds: none for zero.
pub open spec fn bound_of_hours(hours: u64) -> Option<i64> {
    if hours == 0 {
        None
    } else {
        Some((hours * 3600) as i64)
    }
}

/// Two optional bounds on the age of a clip, each in seconds.
#[derive(Debug, Clone, Copy, PartialEq, Eq)]
pub struct RecencyWindow {
    /// A clip may have been recorded at most this long ago; `None` admits
    /// clips of any age.
    pub at_most_ago: Option<i64>,
    /// A clip must have been recorded at least this long ago; `None` admits
    /// clips up to the present.
    pub at_least_ago: Option<i64>,
}

impl RecencyWindow {
    /// The window that two hour counts stand for.
    pub open spec fn of_hours(at_most_hours: u64, at_least_hours: u64) -> RecencyWindow {
        RecencyWindow {
            at_most_ago: bound_of_hours(at_most_hours),
            at_least_ago: bound_of_hours(at_least_hours),
        }
    }

    /// Makes the window from two hour counts, zero standing for "no bound".
    /// There is a window exactly when both counts are in range.
    pub fn from_hours(at_most_hours: u64, at_least_hours: u64) -> (window: Option<
        RecencyWindow,
    >)
        ensures
            window == if hours_in_range(at_most_hours) && hours_in_range(at_least_hours) {
                Some(RecencyWindow::of_hours(at_most_hours, at_least_hours))
            } else {
                None
            },
    {
        if at_most_hours > MAX_WINDOW_HOURS || at_least_hours > MAX_WINDOW_HOURS {
            return None;
        }
        Some(
            RecencyWindow {
                at_most_ago: bound_from_hours(at_most_hours),
                at_least_ago: bound_from_hours(at_least_hours),
            },
        )
    }
}

/// One bound from its hour count.
fn bound_from_hours(hours: u64) -> (bound: Option<i64>)
    requires
        hours_in_range(hours),
    ensures
        bound == bound_of_hours(hours),
{
    if hours == 0 {
        None
    } else {
        Some(hours_as_seconds(hours as i64))
    }
}

} // verus!
