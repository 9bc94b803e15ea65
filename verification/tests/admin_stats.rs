use memebucket_server::calendar::SnapshotDate;
use memebucket_server::errors::{AdminError, DecodeError, ServerFault};
use memebucket_server::stats::{
    activity_date_from_text, backfill_next_day, backfill_range, current_snapshot,
    has_complete_storage_history, historical_snapshot, refresh_snapshot_result,
    snapshot_from_row, ActivityCounts, AdminStatsSnapshot, BackfillRange, StorageListing,
};
use memebucket_server::stats_api::{map_stats_snapshot, sort_snapshots_by_date, stats_response};

fn date(year: i32, month: u32, day: u32) -> SnapshotDate {
    SnapshotDate::from_ymd(year, month, day).unwrap()
}

fn counts(users: i64, buckets: i64, images: i64, sends: i64, daily: i64) -> ActivityCounts {
    ActivityCounts {
        user_count: users,
        bucket_count: buckets,
        image_link_count: images,
        send_count: sends,
        daily_send_count: daily,
    }
}

fn seeded(day: SnapshotDate, unique: Option<i64>, objects: Option<i64>, bytes: Option<i64>) -> AdminStatsSnapshot {
    AdminStatsSnapshot {
        snapshot_date: day,
        user_count: 1,
        bucket_count: 1,
        image_link_count: 1,
        unique_file_count: unique,
        send_count: 1,
        daily_send_count: 0,
        b2_object_count: objects,
        b2_bytes: bytes,
    }
}

#[test]
fn dates_are_checked_against_the_calendar() {
    assert!(SnapshotDate::from_ymd(2026, 7, 28).is_some());
    assert!(SnapshotDate::from_ymd(2026, 2, 29).is_none());
    assert!(SnapshotDate::from_ymd(2024, 2, 29).is_some());
    assert!(SnapshotDate::from_ymd(1900, 2, 29).is_none());
    assert!(SnapshotDate::from_ymd(2000, 2, 29).is_some());
    assert!(SnapshotDate::from_ymd(-4, 2, 29).is_some());
    assert!(SnapshotDate::from_ymd(2015, 0, 14).is_none());
    assert!(SnapshotDate::from_ymd(2015, 4, 31).is_none());
    assert!(SnapshotDate::from_ymd(400000, 1, 1).is_none());
    assert!(SnapshotDate::from_ymd(-400000, 1, 1).is_none());
    assert!(SnapshotDate::from_ymd(262142, 12, 31).is_some());
    assert!(SnapshotDate::from_ymd(-262143, 1, 1).is_some());
}

#[test]
fn next_and_previous_day_cross_month_and_year_ends() {
    assert_eq!(date(2026, 7, 28).next_day(), Some(date(2026, 7, 29)));
    assert_eq!(date(2026, 7, 31).next_day(), Some(date(2026, 8, 1)));
    assert_eq!(date(2026, 12, 31).next_day(), Some(date(2027, 1, 1)));
    assert_eq!(date(2024, 2, 28).next_day(), Some(date(2024, 2, 29)));
    assert_eq!(date(2026, 3, 1).previous_day(), Some(date(2026, 2, 28)));
    assert_eq!(date(2024, 3, 1).previous_day(), Some(date(2024, 2, 29)));
    assert_eq!(date(2027, 1, 1).previous_day(), Some(date(2026, 12, 31)));
    assert_eq!(date(262142, 12, 31).next_day(), None);
    assert_eq!(date(-262143, 1, 1).previous_day(), None);
    assert!(date(2026, 7, 27).is_before(&date(2026, 7, 28)));
    assert!(!date(2026, 7, 28).is_before(&date(2026, 7, 28)));
    assert!(date(2026, 7, 28).is_same_day(&date(2026, 7, 28)));
}

#[test]
fn snapshot_dates_are_written_year_month_day() {
    let cases = [
        (date(2026, 7, 28), "2026-07-28"),
        (date(5, 1, 2), "0005-01-02"),
        (date(-5, 1, 2), "-0005-01-02"),
        (date(12345, 11, 30), "+12345-11-30"),
    ];
    for (day, text) in cases {
        let response = map_stats_snapshot(seeded(day, None, None, None));
        assert_eq!(response.snapshot_date, text);
    }
}

#[test]
fn snapshot_rows_are_read_back() {
    let row = (
        "2026-07-28".to_string(),
        2,
        3,
        4,
        Some(1),
        5,
        2,
        Some(11),
        Some(222),
    );
    let snapshot = snapshot_from_row(row).unwrap();
    assert_eq!(snapshot.snapshot_date, date(2026, 7, 28));
    assert_eq!(snapshot.user_count, 2);
    assert_eq!(snapshot.bucket_count, 3);
    assert_eq!(snapshot.image_link_count, 4);
    assert_eq!(snapshot.unique_file_count, Some(1));
    assert_eq!(snapshot.send_count, 5);
    assert_eq!(snapshot.daily_send_count, 2);
    assert_eq!(snapshot.b2_object_count, Some(11));
    assert_eq!(snapshot.b2_bytes, Some(222));
}

#[test]
fn snapshot_rows_with_bad_dates_fail_to_decode() {
    let row = ("28/07/2026".to_string(), 0, 0, 0, None, 0, 0, None, None);
    assert!(matches!(snapshot_from_row(row), Err(DecodeError::InvalidDate(_))));
    let row = ("2026-02-30".to_string(), 0, 0, 0, None, 0, 0, None, None);
    assert!(matches!(snapshot_from_row(row), Err(DecodeError::InvalidDate(_))));
}

#[test]
fn activity_dates_are_optional() {
    assert_eq!(activity_date_from_text(None).unwrap(), None);
    assert_eq!(
        activity_date_from_text(Some("2026-07-26".to_string())).unwrap(),
        Some(date(2026, 7, 26))
    );
    assert!(activity_date_from_text(Some("yesterday".to_string())).is_err());
}

#[test]
fn current_snapshot_keeps_counts_and_leaves_storage_metrics_unknown() {
    let snapshot = current_snapshot(date(2026, 7, 28), counts(2, 3, 4, 5, 1), 1);
    assert_eq!(snapshot.user_count, 2);
    assert_eq!(snapshot.bucket_count, 3);
    assert_eq!(snapshot.image_link_count, 4);
    assert_eq!(snapshot.send_count, 5);
    assert_eq!(snapshot.daily_send_count, 1);
    assert_eq!(snapshot.unique_file_count, Some(1));
    assert!(snapshot.b2_object_count.is_none());
    assert!(snapshot.b2_bytes.is_none());
}

#[test]
fn historical_snapshot_leaves_file_and_storage_metrics_unknown() {
    let snapshot = historical_snapshot(date(2026, 7, 27), counts(1, 1, 0, 0, 0));
    assert_eq!(snapshot.snapshot_date, date(2026, 7, 27));
    assert_eq!(snapshot.user_count, 1);
    assert_eq!(snapshot.bucket_count, 1);
    assert_eq!(snapshot.image_link_count, 0);
    assert_eq!(snapshot.send_count, 0);
    assert!(snapshot.unique_file_count.is_none());
    assert!(snapshot.b2_object_count.is_none());
    assert!(snapshot.b2_bytes.is_none());
}

#[test]
fn unconfigured_storage_keeps_snapshot_and_reports_unavailable() {
    let snapshot = current_snapshot(date(2026, 7, 28), counts(2, 3, 4, 5, 0), 1);
    let refreshed = refresh_snapshot_result(snapshot, StorageListing::NotConfigured);
    assert_eq!(refreshed.snapshot.user_count, 2);
    assert_eq!(refreshed.snapshot.bucket_count, 3);
    assert_eq!(refreshed.snapshot.image_link_count, 4);
    assert_eq!(refreshed.snapshot.unique_file_count, Some(1));
    assert_eq!(refreshed.snapshot.send_count, 5);
    assert!(refreshed.snapshot.b2_object_count.is_none());
    assert!(refreshed.snapshot.b2_bytes.is_none());
    assert!(!refreshed.storage_available);
}

#[test]
fn listed_storage_metrics_replace_snapshot_metrics() {
    let snapshot = current_snapshot(date(2026, 7, 28), counts(2, 3, 4, 5, 0), 1);
    let refreshed = refresh_snapshot_result(
        snapshot,
        StorageListing::Listed { object_count: 2, bytes: 35 },
    );
    assert_eq!(refreshed.snapshot.unique_file_count, Some(1));
    assert_eq!(refreshed.snapshot.b2_object_count, Some(2));
    assert_eq!(refreshed.snapshot.b2_bytes, Some(35));
    assert_eq!(refreshed.snapshot.user_count, 2);
    assert!(refreshed.storage_available);
}

#[test]
fn failed_storage_listing_keeps_snapshot_metrics() {
    let stored = AdminStatsSnapshot {
        snapshot_date: date(2026, 7, 28),
        user_count: 2,
        bucket_count: 3,
        image_link_count: 5,
        unique_file_count: Some(2),
        send_count: 5,
        daily_send_count: 0,
        b2_object_count: Some(11),
        b2_bytes: Some(222),
    };
    let refreshed = refresh_snapshot_result(stored, StorageListing::Failed);
    assert_eq!(refreshed.snapshot, stored);
    assert_eq!(refreshed.snapshot.b2_object_count, Some(11));
    assert_eq!(refreshed.snapshot.b2_bytes, Some(222));
    assert!(!refreshed.storage_available);
}

#[test]
fn backfill_runs_from_first_activity_to_yesterday() {
    let range = backfill_range(Some(date(2026, 7, 26)), date(2026, 7, 29)).unwrap();
    assert_eq!(range, BackfillRange { first: date(2026, 7, 26), last: date(2026, 7, 28) });
    let mut days = vec![range.first];
    let mut day = range.first;
    while let Some(next) = backfill_next_day(day, range.last) {
        days.push(next);
        day = next;
    }
    assert_eq!(days, vec![date(2026, 7, 26), date(2026, 7, 27), date(2026, 7, 28)]);
}

#[test]
fn backfill_crosses_month_ends() {
    let range = backfill_range(Some(date(2026, 2, 27)), date(2026, 3, 2)).unwrap();
    let mut days = vec![range.first];
    let mut day = range.first;
    while let Some(next) = backfill_next_day(day, range.last) {
        days.push(next);
        day = next;
    }
    assert_eq!(days, vec![date(2026, 2, 27), date(2026, 2, 28), date(2026, 3, 1)]);
}

#[test]
fn backfill_skips_without_past_activity() {
    assert_eq!(backfill_range(None, date(2026, 7, 28)), None);
    assert_eq!(backfill_range(Some(date(2026, 7, 28)), date(2026, 7, 28)), None);
    assert_eq!(backfill_range(Some(date(2026, 7, 30)), date(2026, 7, 28)), None);
    assert_eq!(backfill_range(Some(date(-262143, 1, 1)), date(-262143, 1, 1)), None);
    let single = backfill_range(Some(date(2026, 7, 27)), date(2026, 7, 28)).unwrap();
    assert_eq!(single.first, single.last);
    assert_eq!(backfill_next_day(single.first, single.last), None);
}

#[test]
fn complete_storage_history_needs_all_three_metrics() {
    let day = date(2026, 7, 28);
    assert!(has_complete_storage_history(&seeded(day, Some(1), Some(2), Some(3))));
    assert!(!has_complete_storage_history(&seeded(day, None, Some(2), Some(3))));
    assert!(!has_complete_storage_history(&seeded(day, Some(1), None, Some(3))));
    assert!(!has_complete_storage_history(&seeded(day, Some(1), Some(2), None)));
}

#[test]
fn stats_page_lists_history_oldest_first() {
    let stored = vec![
        seeded(date(2026, 7, 28), Some(0), None, None),
        seeded(date(2026, 7, 27), Some(0), None, None),
    ];
    let page = stats_response(stored, false).ok().unwrap();
    assert_eq!(page.history.len(), 2);
    assert_eq!(page.history[0].snapshot_date, "2026-07-27");
    assert_eq!(page.history[1].snapshot_date, "2026-07-28");
    assert_eq!(page.current.snapshot_date, "2026-07-28");
    assert!(!page.storage.configured);
    assert!(!page.storage.available);
    assert!(page.storage.first_complete_history_date.is_none());
}

#[test]
fn stats_report_first_complete_day_and_availability() {
    let stored = vec![
        seeded(date(2026, 7, 28), Some(1), Some(2), Some(35)),
        seeded(date(2026, 7, 26), None, None, None),
        seeded(date(2026, 7, 27), Some(1), Some(2), Some(30)),
    ];
    let page = stats_response(stored, true).ok().unwrap();
    let dates: Vec<&str> = page.history.iter().map(|day| day.snapshot_date.as_str()).collect();
    assert_eq!(dates, vec!["2026-07-26", "2026-07-27", "2026-07-28"]);
    assert_eq!(page.current.b2_bytes, Some(35));
    assert!(page.storage.configured);
    assert!(page.storage.available);
    assert_eq!(page.storage.first_complete_history_date, Some("2026-07-27".to_string()));
}

#[test]
fn stats_without_current_storage_metrics_are_not_available() {
    let stored = vec![
        seeded(date(2026, 7, 27), Some(1), Some(2), Some(30)),
        seeded(date(2026, 7, 28), Some(1), None, None),
    ];
    let page = stats_response(stored, true).ok().unwrap();
    assert!(page.storage.configured);
    assert!(!page.storage.available);
    assert_eq!(page.storage.first_complete_history_date, Some("2026-07-27".to_string()));
}

#[test]
fn stats_without_snapshots_are_unavailable() {
    match stats_response(Vec::new(), true) {
        Err(error) => {
            assert_eq!(error, AdminError::InternalServerError(ServerFault::StatsUnavailable))
        }
        Ok(_) => panic!("expected an error"),
    }
}

#[test]
fn sorting_keeps_same_day_order() {
    let mut first = seeded(date(2026, 7, 28), None, None, None);
    first.user_count = 10;
    let mut second = seeded(date(2026, 7, 28), None, None, None);
    second.user_count = 20;
    let early = seeded(date(2025, 1, 1), None, None, None);
    let sorted = sort_snapshots_by_date(vec![first, early, second]);
    assert_eq!(sorted, vec![early, first, second]);
}
