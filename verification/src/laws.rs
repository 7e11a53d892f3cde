//! What the operations of the worker owe each other, over catalogs as maps.
//!
//! Each law speaks of the catalogs and replies that the contracts of the
//! operations in [`crate::service`] name, so it holds of every run of them.

use crate::catalog::{CatalogView, Clip, GameRecord};
use crate::job::{ClipQuery, FetchJob};
use crate::service::surfaced;
use crate::status::{StatusView, StoreError};
use crate::window::{hours_in_range, RecencyWindow};
use vstd::prelude::*;

verus! {

/// The reply to an operation that named a game which the catalog does not
/// hold.
pub open spec fn not_found() -> Result<(), StatusView> {
    Err(StoreError::NotFound.status())
}

/// Adding a game under an id that the catalog does not hold succeeds, and
/// deleting it then succeeds and gives back the catalog as it was, without
/// the id. Deleting it once more is refused as not found and changes
/// nothing.
pub proof fn lemma_add_then_delete(catalog: CatalogView, id: u64, name: Seq<char>)
    requires
        !catalog.games.contains_key(id),
    ensures
        ({
            let added = catalog.insert(id, name);
            let deleted = added.delete(id);
            &&& surfaced(catalog.insert_result(id)) is Ok
            &&& added.games.contains_key(id)
            &&& surfaced(added.lookup_result(id)) is Ok
            &&& !deleted.games.contains_key(id)
            &&& deleted == catalog
            &&& surfaced(deleted.lookup_result(id)) == not_found()
            &&& deleted.delete(id) == deleted
        }),
{
    assert(catalog.insert(id, name).delete(id).games =~= catalog.games);
}

/// Adding a game under an id that the catalog holds is refused as a
/// collision and leaves the catalog as it was: the game held under the id
/// keeps its name and its paused flag.
pub proof fn lemma_add_held_id(catalog: CatalogView, id: u64, name: Seq<char>)
    requires
        catalog.games.contains_key(id),
    ensures
        surfaced(catalog.insert_result(id)) == Err::<(), StatusView>(
            StoreError::AlreadyExists.status(),
        ),
        catalog.insert(id, name) == catalog,
        catalog.insert(id, name).games[id] == catalog.games[id],
{
}

/// Pausing a game that is not paused and resuming it succeeds both times
/// and gives back the catalog as it was.
pub proof fn lemma_pause_then_resume(catalog: CatalogView, id: u64)
    requires
        catalog.games.contains_key(id),
        !catalog.games[id].is_paused,
    ensures
        ({
            let paused = catalog.set_is_paused(id, true);
            let resumed = paused.set_is_paused(id, false);
            &&& surfaced(catalog.lookup_result(id)) is Ok
            &&& paused.games[id].is_paused
            &&& surfaced(paused.lookup_result(id)) is Ok
            &&& resumed == catalog
        }),
{
    assert(catalog.set_is_paused(id, true).set_is_paused(id, false).games =~= catalog.games);
}

/// Setting the paused flag twice leaves the flag as set last, whatever it
/// was before, and the name as it was.
pub proof fn lemma_paused_set_last(catalog: CatalogView, id: u64, first: bool, last: bool)
    requires
        catalog.games.contains_key(id),
    ensures
        catalog.set_is_paused(id, first).set_is_paused(id, last) == catalog.set_is_paused(
            id,
            last,
        ),
        catalog.set_is_paused(id, last).games[id] == (GameRecord {
            name: catalog.games[id].name,
            is_paused: last,
        }),
{
    assert(catalog.set_is_paused(id, first).set_is_paused(id, last).games
        =~= catalog.set_is_paused(id, last).games);
}

/// Setting the paused flag of a game that the catalog does not hold is
/// refused as not found, whichever way the flag was to be set, and changes
/// nothing.
pub proof fn lemma_pause_missing_game(catalog: CatalogView, id: u64, is_paused: bool)
    requires
        !catalog.games.contains_key(id),
    ensures
        surfaced(catalog.lookup_result(id)) == not_found(),
        catalog.set_is_paused(id, is_paused) == catalog,
{
}

/// One request to add a game: the id and the name.
pub type AddRequest = (u64, Seq<char>);

/// The catalog after the requests were served one by one, first to last.
pub open spec fn after_adds(catalog: CatalogView, requests: Seq<AddRequest>) -> CatalogView
    decreases requests.len(),
{
    if requests.len() == 0 {
        catalog
    } else {
        after_adds(catalog, requests.drop_last()).insert(requests.last().0, requests.last().1)
    }
}

/// No two requests name the same id, and none names an id of the catalog.
pub open spec fn ids_fresh(catalog: CatalogView, requests: Seq<AddRequest>) -> bool {
    &&& forall|i: int|
        0 <= i < requests.len() ==> !catalog.games.contains_key(#[trigger] requests[i].0)
    &&& forall|i: int, j: int|
        0 <= i < requests.len() && 0 <= j < requests.len() && i != j ==> requests[i].0
            != requests[j].0
}

/// Some request names this id.
pub open spec fn requested(requests: Seq<AddRequest>, id: u64) -> bool {
    exists|i: int| 0 <= i < requests.len() && requests[i].0 == id
}

/// The ids that the requests name.
pub open spec fn requested_ids(requests: Seq<AddRequest>) -> Set<u64> {
    Set::new(|id: u64| requested(requests, id))
}

/// Requests to add games under ids that are new and differ from each other
/// all succeed when served one at a time, in whatever order they come, and
/// none is lost: the catalog ends with its old games as they were and with
/// one unpaused game for each request, under the name asked for. Whoever
/// shares a worker between callers lets them in one at a time, so this is
/// what concurrent callers get.
pub proof fn lemma_adds_all_land(catalog: CatalogView, requests: Seq<AddRequest>)
    requires
        catalog.games.dom().finite(),
        ids_fresh(catalog, requests),
    ensures
        forall|i: int|
            0 <= i < requests.len() ==> surfaced(
                #[trigger] after_adds(catalog, requests.take(i)).insert_result(requests[i].0),
            ) is Ok,
        after_adds(catalog, requests).games.dom().finite(),
        after_adds(catalog, requests).games.dom().len() == catalog.games.dom().len()
            + requests.len(),
        after_adds(catalog, requests).games.dom() == catalog.games.dom().union(
            requested_ids(requests),
        ),
        forall|id: u64|
            catalog.games.contains_key(id) ==> after_adds(catalog, requests).games[id]
                == catalog.games[id],
        forall|i: int|
            0 <= i < requests.len() ==> after_adds(catalog, requests).games[#[trigger] requests[i]
                .0] == (GameRecord { name: requests[i].1, is_paused: false }),
        after_adds(catalog, requests).clips == catalog.clips,
    decreases requests.len(),
{
    if requests.len() == 0 {
        assert(requested_ids(requests) =~= Set::<u64>::empty());
        assert(catalog.games.dom() =~= catalog.games.dom().union(requested_ids(requests)));
    } else {
        let earlier = requests.drop_last();
        let last = requests.last();
        assert(ids_fresh(catalog, earlier)) by {
            assert forall|i: int| 0 <= i < earlier.len() implies earlier[i] == requests[i] by {}
        }
        lemma_adds_all_land(catalog, earlier);
        let before = after_adds(catalog, earlier);
        let after = after_adds(catalog, requests);
        // The last id is new to the catalog as the earlier requests left it.
        assert(!requested(earlier, last.0)) by {
            if requested(earlier, last.0) {
                let i = choose|i: int| 0 <= i < earlier.len() && earlier[i].0 == last.0;
                assert(requests[i].0 == last.0);
            }
        }
        assert(!before.games.contains_key(last.0)) by {
            assert(!catalog.games.contains_key(requests[requests.len() - 1].0));
            assert(!requested_ids(earlier).contains(last.0));
        }
        assert forall|i: int| 0 <= i < requests.len() implies surfaced(
            #[trigger] after_adds(catalog, requests.take(i)).insert_result(requests[i].0),
        ) is Ok by {
            if i < earlier.len() {
                assert(requests.take(i) =~= earlier.take(i));
                assert(requests[i].0 == earlier[i].0);
            } else {
                assert(requests.take(i) =~= earlier);
            }
        }
        assert forall|id: u64| requested(requests, id) <==> id == last.0 || requested(
            earlier,
            id,
        ) by {
            if requested(earlier, id) {
                let i = choose|i: int| 0 <= i < earlier.len() && earlier[i].0 == id;
                assert(requests[i].0 == id);
            }
            if id == last.0 {
                assert(requests[requests.len() - 1].0 == id);
            }
            if requested(requests, id) {
                let i = choose|i: int| 0 <= i < requests.len() && requests[i].0 == id;
                if i < earlier.len() {
                    assert(earlier[i].0 == id);
                }
            }
        }
        assert(after.games.dom() =~= catalog.games.dom().union(requested_ids(requests)));
        assert forall|i: int| 0 <= i < requests.len() implies after.games[#[trigger] requests[i]
            .0] == (GameRecord { name: requests[i].1, is_paused: false }) by {
            if i < earlier.len() {
                assert(earlier[i] == requests[i]);
            }
        }
    }
}

/// Every request of one sequence is a request of the other.
pub open spec fn all_among(requests: Seq<AddRequest>, others: Seq<AddRequest>) -> bool {
    forall|i: int|
        0 <= i < requests.len() ==> exists|j: int|
            0 <= j < others.len() && others[j] == #[trigger] requests[i]
}

/// The order in which requests under new and different ids are served does
/// not show in the catalog: two sequences of the same requests end in the
/// same catalog.
pub proof fn lemma_adds_in_any_order(
    catalog: CatalogView,
    requests: Seq<AddRequest>,
    reordered: Seq<AddRequest>,
)
    requires
        catalog.games.dom().finite(),
        ids_fresh(catalog, requests),
        ids_fresh(catalog, reordered),
        all_among(requests, reordered),
        all_among(reordered, requests),
    ensures
        after_adds(catalog, requests) == after_adds(catalog, reordered),
{
    lemma_adds_all_land(catalog, requests);
    lemma_adds_all_land(catalog, reordered);
    let one = after_adds(catalog, requests);
    let other = after_adds(catalog, reordered);
    assert forall|id: u64| requested(requests, id) <==> requested(reordered, id) by {
        if requested(requests, id) {
            let i = choose|i: int| 0 <= i < requests.len() && requests[i].0 == id;
            let j = choose|j: int| 0 <= j < reordered.len() && reordered[j] == requests[i];
            assert(reordered[j].0 == id);
        }
        if requested(reordered, id) {
            let i = choose|i: int| 0 <= i < reordered.len() && reordered[i].0 == id;
            let j = choose|j: int| 0 <= j < requests.len() && requests[j] == reordered[i];
            assert(requests[j].0 == id);
        }
    }
    assert(requested_ids(requests) =~= requested_ids(reordered));
    assert forall|id: u64| one.games.contains_key(id) implies one.games[id]
        == other.games[id] by {
        if catalog.games.contains_key(id) {
            assert(one.games[id] == catalog.games[id]);
            assert(other.games[id] == catalog.games[id]);
        } else {
            assert(one.games.dom().contains(id));
            assert(requested_ids(requests).contains(id));
            let i = choose|i: int| 0 <= i < requests.len() && requests[i].0 == id;
            let j = choose|j: int| 0 <= j < reordered.len() && reordered[j] == requests[i];
            assert(one.games[requests[i].0] == (GameRecord {
                name: requests[i].1,
                is_paused: false,
            }));
            assert(other.games[reordered[j].0] == (GameRecord {
                name: reordered[j].1,
                is_paused: false,
            }));
        }
    }
    assert(one.games =~= other.games);
}

/// Storing clips keeps every game and every clip that was held as it was,
/// and holds afterwards the ids that were held or given, and no other.
pub proof fn lemma_store_clips_adds_only(catalog: CatalogView, clips: Seq<Clip>)
    ensures
        catalog.store_clips(clips).games == catalog.games,
        forall|id: u64| #[trigger]
            catalog.clips.contains_key(id) ==> catalog.store_clips(clips).clips.contains_key(id)
                && catalog.store_clips(clips).clips[id] == catalog.clips[id],
        forall|i: int|
            0 <= i < clips.len() ==> catalog.store_clips(clips).clips.contains_key(
                #[trigger] clips[i].id,
            ),
        forall|id: u64| #[trigger]
            catalog.store_clips(clips).clips.contains_key(id) ==> catalog.clips.contains_key(id)
                || exists|i: int| 0 <= i < clips.len() && clips[i].id == id,
    decreases clips.len(),
{
    if clips.len() > 0 {
        let earlier = clips.drop_last();
        lemma_store_clips_adds_only(catalog, earlier);
        let before = catalog.store_clips(earlier);
        assert forall|i: int| 0 <= i < clips.len() implies catalog.store_clips(
            clips,
        ).clips.contains_key(#[trigger] clips[i].id) by {
            if i < earlier.len() {
                assert(before.clips.contains_key(earlier[i].id));
            }
        }
        assert forall|id: u64| #[trigger]
            catalog.store_clips(clips).clips.contains_key(id) implies catalog.clips.contains_key(
            id,
        ) || exists|i: int| 0 <= i < clips.len() && clips[i].id == id by {
            if before.clips.contains_key(id) && !catalog.clips.contains_key(id) {
                let i = choose|i: int| 0 <= i < earlier.len() && earlier[i].id == id;
                assert(clips[i].id == id);
            } else if !catalog.clips.contains_key(id) {
                assert(clips[clips.len() - 1].id == id);
            }
        }
    }
}

/// Of clips given under one id that is new to the catalog, the first is
/// the one that is held afterwards.
pub proof fn lemma_first_clip_is_held(catalog: CatalogView, clips: Seq<Clip>, i: int)
    requires
        0 <= i < clips.len(),
        !catalog.clips.contains_key(clips[i].id),
        forall|j: int| 0 <= j < i ==> clips[j].id != clips[i].id,
    ensures
        catalog.store_clips(clips).clips.contains_key(clips[i].id),
        catalog.store_clips(clips).clips[clips[i].id] == clips[i].record(),
    decreases clips.len(),
{
    let earlier = clips.drop_last();
    lemma_store_clips_adds_only(catalog, earlier);
    if i < earlier.len() {
        assert(earlier[i] == clips[i]);
        assert forall|j: int| 0 <= j < i implies earlier[j].id != earlier[i].id by {
            assert(earlier[j] == clips[j]);
        }
        lemma_first_clip_is_held(catalog, earlier, i);
    } else {
        let before = catalog.store_clips(earlier);
        if before.clips.contains_key(clips[i].id) {
            let j = choose|j: int| 0 <= j < earlier.len() && earlier[j].id == clips[i].id;
            assert(clips[j].id == clips[i].id);
        }
    }
}

/// The clips counted as new are those by which the catalog has grown.
pub proof fn lemma_new_clips_are_the_growth(catalog: CatalogView, clips: Seq<Clip>)
    requires
        catalog.clips.dom().finite(),
    ensures
        catalog.store_clips(clips).clips.dom().finite(),
        catalog.store_clips(clips).clips.dom().len() == catalog.clips.dom().len()
            + catalog.count_new_clips(clips),
    decreases clips.len(),
{
    if clips.len() > 0 {
        lemma_new_clips_are_the_growth(catalog, clips.drop_last());
    }
}

/// Storing clips whose ids are all held changes nothing and finds no clip
/// new.
pub proof fn lemma_store_held_clips(catalog: CatalogView, clips: Seq<Clip>)
    requires
        forall|i: int| 0 <= i < clips.len() ==> catalog.clips.contains_key(#[trigger] clips[i].id),
    ensures
        catalog.store_clips(clips) == catalog,
        catalog.count_new_clips(clips) == 0,
    decreases clips.len(),
{
    if clips.len() > 0 {
        let earlier = clips.drop_last();
        assert forall|i: int| 0 <= i < earlier.len() implies catalog.clips.contains_key(
            #[trigger] earlier[i].id,
        ) by {
            assert(earlier[i] == clips[i]);
        }
        lemma_store_held_clips(catalog, earlier);
        assert(catalog.clips.contains_key(clips[clips.len() - 1].id));
    }
}

/// Storing the same clips a second time changes nothing and finds no clip
/// new: no clip is held twice, however often it is fetched.
pub proof fn lemma_store_clips_again(catalog: CatalogView, clips: Seq<Clip>)
    ensures
        catalog.store_clips(clips).store_clips(clips) == catalog.store_clips(clips),
        catalog.store_clips(clips).count_new_clips(clips) == 0,
{
    lemma_store_clips_adds_only(catalog, clips);
    lemma_store_held_clips(catalog.store_clips(clips), clips);
}

/// Clips and games do not touch: whether a fetch stores its clips before
/// or after a game is added, deleted or paused, the catalog ends the same,
/// and the operation on the game is answered the same.
pub proof fn lemma_clips_apart_from_games(
    catalog: CatalogView,
    clips: Seq<Clip>,
    id: u64,
    name: Seq<char>,
    is_paused: bool,
)
    ensures
        catalog.insert(id, name).store_clips(clips) == catalog.store_clips(clips).insert(id, name),
        catalog.delete(id).store_clips(clips) == catalog.store_clips(clips).delete(id),
        catalog.set_is_paused(id, is_paused).store_clips(clips) == catalog.store_clips(
            clips,
        ).set_is_paused(id, is_paused),
        catalog.store_clips(clips).insert_result(id) == catalog.insert_result(id),
        catalog.store_clips(clips).lookup_result(id) == catalog.lookup_result(id),
    decreases clips.len(),
{
    if clips.len() > 0 {
        lemma_clips_apart_from_games(catalog, clips.drop_last(), id, name, is_paused);
    }
}

/// A catalog that was reset answers every read as an empty one: it holds
/// no game and no clip, whichever id is asked for.
pub proof fn lemma_reset_reads_empty(id: u64)
    ensures
        !CatalogView::empty().games.contains_key(id),
        !CatalogView::empty().clips.contains_key(id),
        CatalogView::empty().games.dom().len() == 0,
        CatalogView::empty().clips.dom().len() == 0,
        surfaced(CatalogView::empty().lookup_result(id)) == not_found(),
{
}

/// A fetch asked for with both hour counts zero asks the clip source for
/// the clips of the game without a bound on either side, whenever the job
/// starts.
pub proof fn lemma_zero_hours_unbounded(game_id: u64, now: i64)
    ensures
        (FetchJob { game_id, window: RecencyWindow::of_hours(0, 0) }).query_at(now) == Some(
            ClipQuery { game_id, recorded_after: None, recorded_before: None },
        ),
{
}

/// A fetch asked for with hour counts above zero asks for the clips
/// recorded after the moment that lies the first count of hours before the
/// start of the job, and before the moment that lies the second count of
/// hours before it: a bound is missing exactly where its count is zero.
pub proof fn lemma_hours_bound_the_range(
    game_id: u64,
    at_most_hours: u64,
    at_least_hours: u64,
    now: i64,
)
    requires
        hours_in_range(at_most_hours),
        hours_in_range(at_least_hours),
        now - at_most_hours * 3600 >= i64::MIN,
        now - at_least_hours * 3600 >= i64::MIN,
    ensures
        ({
            let job = FetchJob {
                game_id,
                window: RecencyWindow::of_hours(at_most_hours, at_least_hours),
            };
            &&& job.query_at(now) is Some
            &&& job.query_at(now).unwrap().game_id == game_id
            &&& job.query_at(now).unwrap().recorded_after is None <==> at_most_hours == 0
            &&& job.query_at(now).unwrap().recorded_before is None <==> at_least_hours == 0
            &&& at_most_hours > 0 ==> job.query_at(now).unwrap().recorded_after == Some(
                (now - at_most_hours * 3600) as i64,
            )
            &&& at_least_hours > 0 ==> job.query_at(now).unwrap().recorded_before == Some(
                (now - at_least_hours * 3600) as i64,
            )
        }),
{
}

} // verus!
