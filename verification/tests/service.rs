use worker::catalog::{Catalog, Clip, Game};
use worker::job::{ClipQuery, FetchJob};
use worker::service::{reapply_reply, revert_reply, store_reply, RpcWorker};
use worker::status::{Code, Status, StoreError};
use worker::window::{RecencyWindow, MAX_WINDOW_HOURS};

fn fresh() -> RpcWorker {
    RpcWorker::new(Catalog::new())
}

fn not_found() -> Status {
    Status { code: Code::NotFound, message: String::from("game not found") }
}

fn already_exists() -> Status {
    Status { code: Code::InvalidArgument, message: String::from("game already exists") }
}

#[test]
fn add_pause_delete_delete_replies_in_order() {
    let mut worker = fresh();
    assert_eq!(worker.add_game(42, String::from("Chess")), Ok(()));
    assert_eq!(worker.set_is_game_paused(42, true), Ok(()));
    assert_eq!(worker.delete_game(42), Ok(()));
    assert_eq!(worker.delete_game(42), Err(not_found()));
}

#[test]
fn add_then_delete_leaves_catalog_without_game() {
    let mut worker = fresh();
    worker.add_game(1, String::from("Go")).unwrap();
    assert!(!worker.catalog.contains_game(7));
    assert_eq!(worker.add_game(7, String::from("Shogi")), Ok(()));
    assert!(worker.catalog.contains_game(7));
    assert_eq!(worker.catalog.game_count(), 2);
    assert_eq!(worker.delete_game(7), Ok(()));
    assert!(!worker.catalog.contains_game(7));
    assert_eq!(worker.catalog.game(7), None);
    assert_eq!(worker.catalog.game_count(), 1);
    assert_eq!(
        worker.catalog.game(1),
        Some(Game { id: 1, name: String::from("Go"), is_paused: false })
    );
    assert_eq!(worker.delete_game(7), Err(not_found()));
    assert_eq!(worker.catalog.game_count(), 1);
}

#[test]
fn duplicate_add_fails_and_keeps_name() {
    let mut worker = fresh();
    assert_eq!(worker.add_game(42, String::from("Chess")), Ok(()));
    assert_eq!(worker.set_is_game_paused(42, true), Ok(()));
    assert_eq!(worker.add_game(42, String::from("Checkers")), Err(already_exists()));
    assert_eq!(worker.catalog.game_count(), 1);
    assert_eq!(
        worker.catalog.game(42),
        Some(Game { id: 42, name: String::from("Chess"), is_paused: true })
    );
}

#[test]
fn new_game_is_unpaused() {
    let mut worker = fresh();
    worker.add_game(3, String::from("Tetris")).unwrap();
    assert_eq!(
        worker.catalog.game(3),
        Some(Game { id: 3, name: String::from("Tetris"), is_paused: false })
    );
}

#[test]
fn pause_then_resume_restores_flag() {
    let mut worker = fresh();
    worker.add_game(5, String::from("Pong")).unwrap();
    let before = worker.catalog.game(5);
    assert_eq!(worker.set_is_game_paused(5, true), Ok(()));
    assert_eq!(worker.catalog.game(5).unwrap().is_paused, true);
    assert_eq!(worker.catalog.game(5).unwrap().name, "Pong");
    assert_eq!(worker.set_is_game_paused(5, false), Ok(()));
    assert_eq!(worker.catalog.game(5), before);
    assert_eq!(worker.catalog.game_count(), 1);
}

#[test]
fn pausing_a_paused_game_keeps_it_paused() {
    let mut worker = fresh();
    worker.add_game(5, String::from("Pong")).unwrap();
    worker.set_is_game_paused(5, true).unwrap();
    assert_eq!(worker.set_is_game_paused(5, true), Ok(()));
    assert_eq!(worker.catalog.game(5).unwrap().is_paused, true);
}

#[test]
fn pausing_changes_no_other_game() {
    let mut worker = fresh();
    worker.add_game(1, String::from("One")).unwrap();
    worker.add_game(2, String::from("Two")).unwrap();
    worker.add_game(3, String::from("Three")).unwrap();
    worker.set_is_game_paused(2, true).unwrap();
    assert_eq!(worker.catalog.game(1).unwrap().is_paused, false);
    assert_eq!(worker.catalog.game(2).unwrap().is_paused, true);
    assert_eq!(worker.catalog.game(3).unwrap().is_paused, false);
    assert_eq!(worker.catalog.game(2).unwrap().name, "Two");
    assert_eq!(worker.catalog.game_count(), 3);
}

#[test]
fn pause_on_missing_game_is_not_found_both_ways() {
    let mut worker = fresh();
    worker.add_game(1, String::from("Go")).unwrap();
    assert_eq!(worker.set_is_game_paused(9, true), Err(not_found()));
    assert_eq!(worker.set_is_game_paused(9, false), Err(not_found()));
    assert_eq!(worker.catalog.game_count(), 1);
    assert_eq!(worker.catalog.game(9), None);
}

#[test]
fn delete_on_empty_catalog_is_not_found() {
    let mut worker = fresh();
    assert_eq!(worker.delete_game(0), Err(not_found()));
    assert_eq!(worker.catalog.game_count(), 0);
}

#[test]
fn delete_takes_only_the_named_game() {
    let mut worker = fresh();
    for id in 0..5u64 {
        worker.add_game(id, format!("game {id}")).unwrap();
    }
    assert_eq!(worker.delete_game(2), Ok(()));
    assert_eq!(worker.catalog.game_count(), 4);
    for id in [0u64, 1, 3, 4] {
        assert_eq!(worker.catalog.game(id).unwrap().name, format!("game {id}"));
    }
    assert_eq!(worker.catalog.game(2), None);
}

#[test]
fn deleted_id_can_be_added_again() {
    let mut worker = fresh();
    worker.add_game(8, String::from("Old")).unwrap();
    worker.set_is_game_paused(8, true).unwrap();
    worker.delete_game(8).unwrap();
    assert_eq!(worker.add_game(8, String::from("New")), Ok(()));
    assert_eq!(
        worker.catalog.game(8),
        Some(Game { id: 8, name: String::from("New"), is_paused: false })
    );
}

#[test]
fn many_adds_with_distinct_ids_all_land() {
    let mut worker = fresh();
    let n: u64 = 200;
    // 7 is coprime to 200, so this visits every id below 200 once, out of order.
    for step in 0..n {
        let id = (step * 7 + 3) % n;
        assert_eq!(worker.add_game(id, format!("game {id}")), Ok(()));
    }
    assert_eq!(worker.catalog.game_count(), 200);
    for id in 0..n {
        assert_eq!(
            worker.catalog.game(id),
            Some(Game { id, name: format!("game {id}"), is_paused: false })
        );
    }
    assert_eq!(worker.catalog.game(n), None);
}

#[test]
fn adds_in_another_order_give_the_same_catalog() {
    let mut forward = fresh();
    let mut backward = fresh();
    for id in 0..50u64 {
        forward.add_game(id, format!("g{id}")).unwrap();
        backward.add_game(49 - id, format!("g{}", 49 - id)).unwrap();
    }
    assert_eq!(forward.catalog.game_count(), backward.catalog.game_count());
    for id in 0..50u64 {
        assert_eq!(forward.catalog.game(id), backward.catalog.game(id));
    }
}

#[test]
fn begin_fetch_with_zeros_asks_without_bounds() {
    let job = RpcWorker::begin_fetch_new_game_clips(42, 0, 0).unwrap();
    assert_eq!(
        job,
        FetchJob { game_id: 42, window: RecencyWindow { at_most_ago: None, at_least_ago: None } }
    );
    assert_eq!(
        job.query(1_700_000_000),
        Some(ClipQuery { game_id: 42, recorded_after: None, recorded_before: None })
    );
}

#[test]
fn begin_fetch_24_and_1_asks_between_one_and_24_hours_ago() {
    let job = RpcWorker::begin_fetch_new_game_clips(42, 24, 1).unwrap();
    assert_eq!(job.window.at_most_ago, Some(86_400));
    assert_eq!(job.window.at_least_ago, Some(3_600));
    let now = 1_700_000_000;
    assert_eq!(
        job.query(now),
        Some(ClipQuery {
            game_id: 42,
            recorded_after: Some(1_699_913_600),
            recorded_before: Some(1_699_996_400),
        })
    );
}

#[test]
fn begin_fetch_succeeds_with_no_clip_source_in_sight() {
    let worker = fresh();
    let reply = RpcWorker::begin_fetch_new_game_clips(42, 0, 0);
    assert!(reply.is_ok());
    assert_eq!(worker.catalog.game_count(), 0);
    assert_eq!(worker.catalog.clip_count(), 0);
}

#[test]
fn begin_fetch_does_not_ask_for_the_game_to_exist_or_run() {
    let mut worker = fresh();
    assert!(RpcWorker::begin_fetch_new_game_clips(1, 2, 0).is_ok());
    worker.add_game(1, String::from("Go")).unwrap();
    worker.set_is_game_paused(1, true).unwrap();
    let job = RpcWorker::begin_fetch_new_game_clips(1, 2, 0).unwrap();
    assert_eq!(job.game_id, 1);
    assert_eq!(job.window, RecencyWindow { at_most_ago: Some(7_200), at_least_ago: None });
}

#[test]
fn begin_fetch_refuses_hours_out_of_range() {
    let rejected = Status {
        code: Code::InvalidArgument,
        message: String::from("recency window out of range"),
    };
    assert_eq!(
        RpcWorker::begin_fetch_new_game_clips(1, MAX_WINDOW_HOURS + 1, 0),
        Err(rejected.clone())
    );
    assert_eq!(RpcWorker::begin_fetch_new_game_clips(1, 0, u64::MAX), Err(rejected));
    assert!(RpcWorker::begin_fetch_new_game_clips(1, MAX_WINDOW_HOURS, MAX_WINDOW_HOURS).is_ok());
}

#[test]
fn dev_reset_leaves_an_empty_catalog() {
    let mut worker = fresh();
    worker.add_game(1, String::from("Go")).unwrap();
    worker.add_game(2, String::from("Chess")).unwrap();
    let clips = vec![
        Clip { id: 10, game_id: 1, recorded_at: 100 },
        Clip { id: 11, game_id: 2, recorded_at: 200 },
    ];
    assert_eq!(worker.catalog.store_clips(&clips), 2);
    assert_eq!(worker.dev_reset(), Ok(()));
    assert_eq!(worker.catalog.game_count(), 0);
    assert_eq!(worker.catalog.clip_count(), 0);
    assert_eq!(worker.catalog.game(1), None);
    assert_eq!(worker.catalog.game(2), None);
    assert!(!worker.catalog.contains_game(1));
    assert_eq!(worker.catalog.clip(10), None);
    assert_eq!(worker.catalog.clip(11), None);
    assert_eq!(worker.delete_game(1), Err(not_found()));
    assert_eq!(worker.set_is_game_paused(2, true), Err(not_found()));
}

#[test]
fn dev_reset_of_an_empty_catalog_succeeds() {
    let mut worker = fresh();
    assert_eq!(worker.dev_reset(), Ok(()));
    assert_eq!(worker.catalog.game_count(), 0);
    assert_eq!(worker.add_game(1, String::from("Go")), Ok(()));
    assert_eq!(worker.catalog.game_count(), 1);
}

#[test]
fn store_reply_surfaces_each_store_error() {
    assert_eq!(store_reply(Ok(())), Ok(()));
    assert_eq!(store_reply(Err(StoreError::NotFound)), Err(not_found()));
    assert_eq!(store_reply(Err(StoreError::AlreadyExists)), Err(already_exists()));
    assert_eq!(
        store_reply(Err(StoreError::Failure(String::from("disk full")))),
        Err(Status { code: Code::Internal, message: String::from("disk full") })
    );
}

#[test]
fn failed_revert_is_an_internal_error_naming_the_step() {
    assert_eq!(revert_reply(Ok(())), Ok(()));
    assert_eq!(
        revert_reply(Err(StoreError::Failure(String::from("table is locked")))),
        Err(Status {
            code: Code::Internal,
            message: String::from("Failed to down db: table is locked"),
        })
    );
}

#[test]
fn failed_reapply_is_an_internal_error_naming_the_step() {
    assert_eq!(reapply_reply(Ok(())), Ok(()));
    assert_eq!(
        reapply_reply(Err(StoreError::Failure(String::from("out of space")))),
        Err(Status { code: Code::Internal, message: String::from("Failed to up db: out of space") })
    );
    assert_eq!(
        reapply_reply(Err(StoreError::NotFound)),
        Err(Status {
            code: Code::Internal,
            message: String::from("Failed to up db: game not found"),
        })
    );
}
