//! The job that fetches new clips of one game.
//!
//! A job is made when a fetch is asked for and runs on its own afterwards:
//! it turns its recency window into a range of recording times as seen from
//! the moment it starts, asks the clip source for the clips in that range,
//! and has the catalog store those that it does not hold yet. Nobody waits
//! for it, and a job that fails changes nothing.

use crate::window::RecencyWindow;
use vstd::prelude::*;

verus! {

/// One fetch of new clips: the game and the window to fetch in.
#[derive(Debug, Clone, Copy, PartialEq, Eq)]
pub struct FetchJob {
    pub game_id: u64,
    pub window: RecencyWindow,
}

/// What a job asks of the clip source: the clips of a game recorded after
/// one moment and before another, each in seconds since the Unix epoch.
/// A missing moment leaves that side open. Whether a clip recorded exactly
/// at a bound counts is the clip source's to say.
#[derive(Debug, Clone, Copy, PartialEq, Eq)]
pub struct ClipQuery {
    pub game_id: u64,
    pub recorded_after: Option<i64>,
    pub recorded_before: Option<i64>,
}

/// Whether the moment that lies `ago` seconds before `now` can be written
/// down. Without a bound there is no moment to write.
pub open spec fn moment_in_reach(now: i64, ago: Option<i64>) -> bool {
    ago matches Some(seconds) ==> i64::MIN <= now - seconds <= i64::MAX
}

/// The moment that lies `ago` seconds before `now`; none without a bound.
pub open spec fn moment_before(now: i64, ago: Option<i64>) -> Option<i64> {
    match ago {
        Some(seconds) => Some((now - seconds) as i64),
        None => None,
    }
}

impl FetchJob {
    /// What a job that starts at `now` asks of the clip source. Clips
    /// recorded at most so long ago were recorded after the earlier moment,
    /// and clips recorded at least so long ago before the later one.
    pub open spec fn query_at(self, now: i64) -> Option<ClipQuery> {
        if moment_in_reach(now, self.window.at_most_ago) && moment_in_reach(
            now,
            self.window.at_least_ago,
        ) {
            Some(
                ClipQuery {
                    game_id: self.game_id,
                    recorded_after: moment_before(now, self.window.at_most_ago),
                    recorded_before: moment_before(now, self.window.at_least_ago),
                },
            )
        } else {
            None
        }
    }

    /// The query of a job that starts at `now`, in seconds since the Unix
    /// epoch. There is none where a bound of the range cannot be written
    /// down: the job has failed then, before it asked for anything.
    pub fn query(&self, now: i64) -> (query: Option<ClipQuery>)
        ensures
            query == self.query_at(now),
    {
        let recorded_after = match self.window.at_most_ago {
            Some(seconds) => match now.checked_sub(seconds) {
                Some(moment) => Some(moment),
                None => {
                    return None;
                },
            },
            None => None,
        };
        let recorded_before = match self.window.at_least_ago {
            Some(seconds) => match now.checked_sub(seconds) {
                Some(moment) => Some(moment),
                None => {
                    return None;
                },
            },
            None => None,
        };
        Some(ClipQuery { game_id: self.game_id, recorded_after, recorded_before })
    }
}

} // verus!
