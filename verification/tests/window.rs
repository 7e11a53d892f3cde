use worker::job::{ClipQuery, FetchJob};
use worker::status::{Code, Status, StoreError};
use worker::window::{RecencyWindow, MAX_WINDOW_HOURS};

#[test]
fn zero_hours_mean_no_bound() {
    assert_eq!(
        RecencyWindow::from_hours(0, 0),
        Some(RecencyWindow { at_most_ago: None, at_least_ago: None })
    );
    assert_eq!(
        RecencyWindow::from_hours(0, 5),
        Some(RecencyWindow { at_most_ago: None, at_least_ago: Some(18_000) })
    );
    assert_eq!(
        RecencyWindow::from_hours(5, 0),
        Some(RecencyWindow { at_most_ago: Some(18_000), at_least_ago: None })
    );
}

#[test]
fn one_hour_is_3600_seconds() {
    assert_eq!(
        RecencyWindow::from_hours(1, 1),
        Some(RecencyWindow { at_most_ago: Some(3_600), at_least_ago: Some(3_600) })
    );
}

#[test]
fn largest_hour_count_is_taken_and_the_next_is_not() {
    assert_eq!(MAX_WINDOW_HOURS, 2_562_047_788_015);
    assert_eq!(
        RecencyWindow::from_hours(MAX_WINDOW_HOURS, 0),
        Some(RecencyWindow { at_most_ago: Some(9_223_372_036_854_000), at_least_ago: None })
    );
    assert_eq!(RecencyWindow::from_hours(MAX_WINDOW_HOURS + 1, 0), None);
    assert_eq!(RecencyWindow::from_hours(0, MAX_WINDOW_HOURS + 1), None);
    assert_eq!(RecencyWindow::from_hours(u64::MAX, u64::MAX), None);
    assert_eq!(RecencyWindow::from_hours(i64::MAX as u64 + 1, 0), None);
}

#[test]
fn window_need_not_be_ordered() {
    assert_eq!(
        RecencyWindow::from_hours(1, 24),
        Some(RecencyWindow { at_most_ago: Some(3_600), at_least_ago: Some(86_400) })
    );
}

#[test]
fn query_counts_back_from_now() {
    let job = FetchJob {
        game_id: 9,
        window: RecencyWindow { at_most_ago: Some(86_400), at_least_ago: Some(3_600) },
    };
    assert_eq!(
        job.query(100_000),
        Some(ClipQuery { game_id: 9, recorded_after: Some(13_600), recorded_before: Some(96_400) })
    );
    assert_eq!(
        job.query(0),
        Some(ClipQuery { game_id: 9, recorded_after: Some(-86_400), recorded_before: Some(-3_600) })
    );
}

#[test]
fn query_with_one_bound_leaves_the_other_side_open() {
    let older = FetchJob {
        game_id: 9,
        window: RecencyWindow { at_most_ago: None, at_least_ago: Some(3_600) },
    };
    assert_eq!(
        older.query(10_000),
        Some(ClipQuery { game_id: 9, recorded_after: None, recorded_before: Some(6_400) })
    );
    let newer = FetchJob {
        game_id: 9,
        window: RecencyWindow { at_most_ago: Some(3_600), at_least_ago: None },
    };
    assert_eq!(
        newer.query(10_000),
        Some(ClipQuery { game_id: 9, recorded_after: Some(6_400), recorded_before: None })
    );
}

#[test]
fn query_fails_where_a_moment_cannot_be_written() {
    let job = FetchJob {
        game_id: 9,
        window: RecencyWindow { at_most_ago: Some(3_600), at_least_ago: None },
    };
    assert_eq!(job.query(i64::MIN), None);
    assert_eq!(job.query(i64::MIN + 3_599), None);
    assert_eq!(
        job.query(i64::MIN + 3_600),
        Some(ClipQuery { game_id: 9, recorded_after: Some(i64::MIN), recorded_before: None })
    );
    let other = FetchJob {
        game_id: 9,
        window: RecencyWindow { at_most_ago: None, at_least_ago: Some(3_600) },
    };
    assert_eq!(other.query(i64::MIN), None);
    let open = FetchJob {
        game_id: 9,
        window: RecencyWindow { at_most_ago: None, at_least_ago: None },
    };
    assert_eq!(
        open.query(i64::MIN),
        Some(ClipQuery { game_id: 9, recorded_after: None, recorded_before: None })
    );
}

#[test]
fn store_errors_describe_themselves() {
    assert_eq!(StoreError::NotFound.describe(), "game not found");
    assert_eq!(StoreError::AlreadyExists.describe(), "game already exists");
    assert_eq!(StoreError::Failure(String::from("disk full")).describe(), "disk full");
}

#[test]
fn statuses_carry_their_class() {
    assert_eq!(
        Status::internal(String::from("x")),
        Status { code: Code::Internal, message: String::from("x") }
    );
    assert_eq!(
        Status::invalid_argument(String::from("y")),
        Status { code: Code::InvalidArgument, message: String::from("y") }
    );
    assert_eq!(
        Status::from_store_error(&StoreError::NotFound),
        Status { code: Code::NotFound, message: String::from("game not found") }
    );
    assert_eq!(
        Status::from_store_error(&StoreError::AlreadyExists),
        Status { code: Code::InvalidArgument, message: String::from("game already exists") }
    );
    assert_eq!(
        Status::from_store_error(&StoreError::Failure(String::from("io"))),
        Status { code: Code::Internal, message: String::from("io") }
    );
}
