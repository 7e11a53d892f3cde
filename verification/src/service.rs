//! The five remote operations of the worker.
//!
//! Three of them change the catalog and answer with the outcome. One starts
//! a clip fetch and answers at once, before any clip is fetched. One resets
//! the store for development. Those that touch the catalog take the worker
//! by exclusive reference, so that whoever shares a worker between callers
//! has to let them in one at a time; the one that starts a fetch takes no
//! worker at all.

use crate::catalog::{Catalog, CatalogView};
use crate::job::FetchJob;
use crate::status::{Code, Status, StatusView, StoreError};
use crate::window::{hours_in_range, RecencyWindow};
use vstd::prelude::*;
use vstd::string::*;

verus! {

/// The worker behind the remote interface: the catalog it serves.
pub struct RpcWorker {
    pub catalog: Catalog,
}

impl View for RpcWorker {
    type V = CatalogView;

    open spec fn view(&self) -> CatalogView {
        self.catalog@
    }
}

/// A reply with the message of its status as a sequence of characters.
pub open spec fn reply_view<T>(reply: Result<T, Status>) -> Result<T, StatusView> {
    match reply {
        Ok(value) => Ok(value),
        Err(status) => Err(status@),
    }
}

/// The reply that a store outcome is surfaced as.
pub open spec fn surfaced(result: Result<(), StoreError>) -> Result<(), StatusView> {
    match result {
        Ok(()) => Ok(()),
        Err(error) => Err(error.status()),
    }
}

/// The reply to a reset whose step failed: an internal error whose message
/// names the step and gives the store's description of the failure.
pub open spec fn step_failed(step: Seq<char>, result: Result<(), StoreError>) -> Result<
    (),
    StatusView,
> {
    match result {
        Ok(()) => Ok(()),
        Err(error) => Err(
            StatusView { code: Code::Internal, message: step + error.description() },
        ),
    }
}

/// The status of a fetch that was asked for with an hour count out of range.
pub open spec fn window_rejected() -> StatusView {
    StatusView { code: Code::InvalidArgument, message: "recency window out of range"@ }
}

/// Surfaces the outcome of a catalog mutation to the remote caller.
pub fn store_reply(result: Result<(), StoreError>) -> (reply: Result<(), Status>)
    ensures
        reply_view(reply) == surfaced(result),
{
    match result {
        Ok(()) => Ok(()),
        Err(error) => Err(Status::from_store_error(&error)),
    }
}

/// Surfaces the outcome of one step of a reset under the step's words.
fn step_reply(step: &str, result: Result<(), StoreError>) -> (reply: Result<(), Status>)
    ensures
        reply_view(reply) == step_failed(step@, result),
{
    match result {
        Ok(()) => Ok(()),
        Err(error) => {
            let cause = error.describe();
            Err(Status::internal(String::from_str(step).concat(cause.as_str())))
        },
    }
}

/// Surfaces the outcome of the store's schema revert.
pub fn revert_reply(result: Result<(), StoreError>) -> (reply: Result<(), Status>)
    ensures
        reply_view(reply) == step_failed("Failed to down db: "@, result),
{
    step_reply("Failed to down db: ", result)
}

/// Surfaces the outcome of the store's schema reapply.
pub fn reapply_reply(result: Result<(), StoreError>) -> (reply: Result<(), Status>)
    ensures
        reply_view(reply) == step_failed("Failed to up db: "@, result),
{
    step_reply("Failed to up db: ", result)
}

impl RpcWorker {
    /// A worker that serves the given catalog.
    pub fn new(catalog: Catalog) -> (worker: RpcWorker)
        ensures
            worker.catalog == catalog,
    {
        RpcWorker { catalog }
    }

    /// Adds a game. An id that the catalog holds is refused, and the game
    /// held under it keeps its name and its paused flag.
    pub fn add_game(&mut self, game_id: u64, game_name: String) -> (reply: Result<(), Status>)
        ensures
            reply_view(reply) == surfaced(old(self)@.insert_result(game_id)),
            final(self)@ == old(self)@.insert(game_id, game_name@),
    {
        let inserted = self.catalog.insert(game_id, game_name);
        store_reply(inserted)
    }

    /// Deletes a game. Its clips stay in the catalog.
    pub fn delete_game(&mut self, game_id: u64) -> (reply: Result<(), Status>)
        ensures
            reply_view(reply) == surfaced(old(self)@.lookup_result(game_id)),
            final(self)@ == old(self)@.delete(game_id),
    {
        let deleted = self.catalog.delete(game_id);
        store_reply(deleted)
    }

    /// Sets the paused flag of a game.
    pub fn set_is_game_paused(&mut self, game_id: u64, is_paused: bool) -> (reply: Result<
        (),
        Status,
    >)
        ensures
            reply_view(reply) == surfaced(old(self)@.lookup_result(game_id)),
            final(self)@ == old(self)@.set_is_paused(game_id, is_paused),
    {
        let updated = self.catalog.set_is_paused(game_id, is_paused);
        store_reply(updated)
    }

    /// Answers a request to fetch new clips of a game with the job to start.
    /// An hour count of zero leaves that side of the window open. The
    /// catalog is not looked at: the game need not be in it, and a paused
    /// game is fetched for like any other. The answer does not wait for the
    /// job: the caller of this function starts it and replies without
    /// looking back.
    pub fn begin_fetch_new_game_clips(
        game_id: u64,
        recorded_at_most_hours_ago: u64,
        recorded_at_least_hours_ago: u64,
    ) -> (reply: Result<FetchJob, Status>)
        ensures
            reply_view(reply) == if hours_in_range(recorded_at_most_hours_ago) && hours_in_range(
                recorded_at_least_hours_ago,
            ) {
                Ok(
                    FetchJob {
                        game_id,
                        window: RecencyWindow::of_hours(
                            recorded_at_most_hours_ago,
                            recorded_at_least_hours_ago,
                        ),
                    },
                )
            } else {
                Err(window_rejected())
            },
    {
        match RecencyWindow::from_hours(recorded_at_most_hours_ago, recorded_at_least_hours_ago) {
            Some(window) => Ok(FetchJob { game_id, window }),
            None => Err(Status::invalid_argument(String::from_str("recency window out of range"))),
        }
    }

    /// Reverts and reapplies the schema of the store, which leaves no game
    /// and no clip behind. The reply names the step that failed, if one
    /// did; the catalog in memory fails at neither.
    pub fn dev_reset(&mut self) -> (reply: Result<(), Status>)
        ensures
            reply == Ok::<(), Status>(()),
            final(self)@ == CatalogView::empty(),
    {
        let reverted = self.catalog.down();
        match revert_reply(reverted) {
            Ok(()) => {},
            Err(status) => {
                return Err(status);
            },
        }
        let reapplied = self.catalog.up();
        reapply_reply(reapplied)
    }
}

} // verus!
