//! Daily statistics snapshots: how they are read from stored rows, built
//! from activity counts, completed with the storage provider's metrics, and
//! which past days a backfill writes.

use vstd::prelude::*;

use crate::calendar::chrono_parsed_date;
use crate::calendar::first_supported_day;
use crate::calendar::is_valid_ymd;
use crate::calendar::lemma_successor_is_next;
use crate::calendar::lemma_successor_then_predecessor;
use crate::calendar::parse_iso_date;
use crate::calendar::ymd_before;
use crate::calendar::ymd_not_after;
use crate::calendar::ymd_predecessor;
use crate::calendar::ymd_successor;
use crate::calendar::SnapshotDate;
use crate::errors::DecodeError;

verus! {

/// The service-wide statistics of one day.
#[derive(Clone, Copy, Debug, PartialEq, Eq, Structural)]
pub struct AdminStatsSnapshot {
    pub snapshot_date: SnapshotDate,
    pub user_count: i64,
    pub bucket_count: i64,
    pub image_link_count: i64,
    pub unique_file_count: Option<i64>,
    pub send_count: i64,
    pub daily_send_count: i64,
    pub b2_object_count: Option<i64>,
    pub b2_bytes: Option<i64>,
}

/// A stored snapshot row: date text, user count, bucket count, image link
/// count, unique file count, send count, daily send count, storage object
/// count, storage bytes.
pub type SnapshotRow = (
    String,
    i64,
    i64,
    i64,
    Option<i64>,
    i64,
    i64,
    Option<i64>,
    Option<i64>,
);

/// A snapshot holds the values of its stored row.
pub open spec fn snapshot_matches_row(snapshot: AdminStatsSnapshot, row: SnapshotRow) -> bool {
    &&& chrono_parsed_date(row.0@) == Some(snapshot.snapshot_date@)
    &&& snapshot.user_count == row.1
    &&& snapshot.bucket_count == row.2
    &&& snapshot.image_link_count == row.3
    &&& snapshot.unique_file_count == row.4
    &&& snapshot.send_count == row.5
    &&& snapshot.daily_send_count == row.6
    &&& snapshot.b2_object_count == row.7
    &&& snapshot.b2_bytes == row.8
}

/// Reads a stored snapshot row; the date must be a `YYYY-MM-DD` date.
pub fn snapshot_from_row(row: SnapshotRow) -> (snapshot: Result<AdminStatsSnapshot, DecodeError>)
    ensures
        snapshot is Ok <==> chrono_parsed_date(row.0@) is Some,
        snapshot matches Ok(s) ==> snapshot_matches_row(s, row),
        snapshot matches Err(e) ==> e is InvalidDate,
{
    let (
        snapshot_date,
        user_count,
        bucket_count,
        image_link_count,
        unique_file_count,
        send_count,
        daily_send_count,
        b2_object_count,
        b2_bytes,
    ) = row;
    let snapshot_date = match parse_iso_date(snapshot_date.as_str()) {
        Ok(date) => date,
        Err(error) => {
            return Err(DecodeError::InvalidDate(error));
        },
    };
    Ok(
        AdminStatsSnapshot {
            snapshot_date,
            user_count,
            bucket_count,
            image_link_count,
            unique_file_count,
            send_count,
            daily_send_count,
            b2_object_count,
            b2_bytes,
        },
    )
}

/// Reads the earliest activity date, when there is any activity.
pub fn activity_date_from_text(text: Option<String>) -> (date: Result<
    Option<SnapshotDate>,
    DecodeError,
>)
    ensures
        text is None ==> date == Ok::<Option<SnapshotDate>, DecodeError>(None),
        text matches Some(t) ==> (date is Ok <==> chrono_parsed_date(t@) is Some),
        text matches Some(t) ==> (date matches Ok(d) ==> d is Some && chrono_parsed_date(t@)
            == Some(d->0@)),
        date matches Err(e) ==> e is InvalidDate,
{
    match text {
        Some(t) => match parse_iso_date(t.as_str()) {
            Ok(date) => Ok(Some(date)),
            Err(error) => Err(DecodeError::InvalidDate(error)),
        },
        None => Ok(None),
    }
}

/// A snapshot whose file count and both storage provider metrics are known.
pub open spec fn is_complete_storage_snapshot(snapshot: AdminStatsSnapshot) -> bool {
    snapshot.unique_file_count is Some && snapshot.b2_object_count is Some
        && snapshot.b2_bytes is Some
}

/// Whether a snapshot holds the file count and both storage metrics.
pub fn has_complete_storage_history(snapshot: &AdminStatsSnapshot) -> (complete: bool)
    ensures
        complete == is_complete_storage_snapshot(*snapshot),
{
    snapshot.unique_file_count.is_some() && snapshot.b2_object_count.is_some()
        && snapshot.b2_bytes.is_some()
}

/// The activity counts a snapshot records for its day.
#[derive(Clone, Copy, Debug, PartialEq, Eq, Structural)]
pub struct ActivityCounts {
    pub user_count: i64,
    pub bucket_count: i64,
    pub image_link_count: i64,
    pub send_count: i64,
    pub daily_send_count: i64,
}

/// A snapshot holds a day and that day's activity counts.
pub open spec fn snapshot_has_counts(
    snapshot: AdminStatsSnapshot,
    date: SnapshotDate,
    counts: ActivityCounts,
) -> bool {
    &&& snapshot.snapshot_date == date
    &&& snapshot.user_count == counts.user_count
    &&& snapshot.bucket_count == counts.bucket_count
    &&& snapshot.image_link_count == counts.image_link_count
    &&& snapshot.send_count == counts.send_count
    &&& snapshot.daily_send_count == counts.daily_send_count
}

/// The snapshot of today, taken from the live tables: the number of
/// distinct stored files is known, the storage provider metrics are not
/// (they are filled in separately).
pub fn current_snapshot(date: SnapshotDate, counts: ActivityCounts, unique_file_count: i64) -> (snapshot:
    AdminStatsSnapshot)
    ensures
        snapshot_has_counts(snapshot, date, counts),
        snapshot.unique_file_count == Some(unique_file_count),
        snapshot.b2_object_count is None,
        snapshot.b2_bytes is None,
{
    AdminStatsSnapshot {
        snapshot_date: date,
        user_count: counts.user_count,
        bucket_count: counts.bucket_count,
        image_link_count: counts.image_link_count,
        unique_file_count: Some(unique_file_count),
        send_count: counts.send_count,
        daily_send_count: counts.daily_send_count,
        b2_object_count: None,
        b2_bytes: None,
    }
}

/// The snapshot of a past day rebuilt from creation dates: file and storage
/// metrics of past days cannot be recovered and stay unknown.
pub fn historical_snapshot(date: SnapshotDate, counts: ActivityCounts) -> (snapshot:
    AdminStatsSnapshot)
    ensures
        snapshot_has_counts(snapshot, date, counts),
        snapshot.unique_file_count is None,
        snapshot.b2_object_count is None,
        snapshot.b2_bytes is None,
{
    AdminStatsSnapshot {
        snapshot_date: date,
        user_count: counts.user_count,
        bucket_count: counts.bucket_count,
        image_link_count: counts.image_link_count,
        unique_file_count: None,
        send_count: counts.send_count,
        daily_send_count: counts.daily_send_count,
        b2_object_count: None,
        b2_bytes: None,
    }
}

/// What listing the storage provider's objects gave.
#[derive(Clone, Copy, Debug, PartialEq, Eq, Structural)]
pub enum StorageListing {
    /// No storage provider is configured.
    NotConfigured,
    /// The provider holds this many objects of this many bytes in all.
    Listed { object_count: i64, bytes: i64 },
    /// The listing failed.
    Failed,
}

/// A refreshed snapshot, and whether the storage provider answered.
#[derive(Clone, Copy, Debug, PartialEq, Eq, Structural)]
pub struct RefreshSnapshotResult {
    pub snapshot: AdminStatsSnapshot,
    pub storage_available: bool,
}

/// A snapshot with the storage provider's metrics put in.
pub open spec fn with_storage_metrics(
    snapshot: AdminStatsSnapshot,
    object_count: i64,
    bytes: i64,
) -> AdminStatsSnapshot {
    AdminStatsSnapshot { b2_object_count: Some(object_count), b2_bytes: Some(bytes), ..snapshot }
}

/// Completes a refreshed snapshot with the storage listing: a listing puts
/// its metrics in and marks the storage available; without a provider, or
/// when the listing fails, the snapshot keeps the metrics it had.
pub fn refresh_snapshot_result(snapshot: AdminStatsSnapshot, listing: StorageListing) -> (result:
    RefreshSnapshotResult)
    ensures
        result.storage_available == (listing is Listed),
        listing matches StorageListing::Listed { object_count, bytes } ==> result.snapshot
            == with_storage_metrics(snapshot, object_count, bytes),
        !(listing is Listed) ==> result.snapshot == snapshot,
        result.snapshot.snapshot_date == snapshot.snapshot_date,
        result.snapshot.user_count == snapshot.user_count,
        result.snapshot.bucket_count == snapshot.bucket_count,
        result.snapshot.image_link_count == snapshot.image_link_count,
        result.snapshot.unique_file_count == snapshot.unique_file_count,
        result.snapshot.send_count == snapshot.send_count,
        result.snapshot.daily_send_count == snapshot.daily_send_count,
{
    match listing {
        StorageListing::Listed { object_count, bytes } => RefreshSnapshotResult {
            snapshot: AdminStatsSnapshot {
                b2_object_count: Some(object_count),
                b2_bytes: Some(bytes),
                ..snapshot
            },
            storage_available: true,
        },
        _ => RefreshSnapshotResult { snapshot, storage_available: false },
    }
}

/// The past days a backfill writes: from the first day with activity to
/// yesterday, both included.
#[derive(Clone, Copy, Debug, PartialEq, Eq, Structural)]
pub struct BackfillRange {
    pub first: SnapshotDate,
    pub last: SnapshotDate,
}

/// The days to backfill before `current_date`: none without activity, none
/// when the first activity is after yesterday (or there is no yesterday),
/// otherwise from the first activity to yesterday.
pub fn backfill_range(earliest_activity: Option<SnapshotDate>, current_date: SnapshotDate) -> (range:
    Option<BackfillRange>)
    ensures
        range is Some <==> (earliest_activity is Some && current_date@ != first_supported_day()
            && ymd_not_after(earliest_activity->0@, ymd_predecessor(current_date@))),
        range matches Some(r) ==> r.first == earliest_activity->0 && r.last@ == ymd_predecessor(
            current_date@,
        ),
{
    let first = match earliest_activity {
        Some(first) => first,
        None => {
            return None;
        },
    };
    let last = match current_date.previous_day() {
        Some(yesterday) => yesterday,
        None => {
            return None;
        },
    };
    if last.is_before(&first) {
        return None;
    }
    Some(BackfillRange { first, last })
}

/// The day a backfill writes after `day`: the following day while `day` is
/// before the last day of the range, nothing once the last day is reached.
pub fn backfill_next_day(day: SnapshotDate, last: SnapshotDate) -> (next: Option<SnapshotDate>)
    ensures
        next is Some <==> ymd_before(day@, last@),
        next matches Some(n) ==> n@ == ymd_successor(day@) && ymd_not_after(n@, last@),
{
    if !day.is_before(&last) {
        return None;
    }
    proof {
        use_type_invariant(&day);
        use_type_invariant(&last);
    }
    day.next_day()
}

/// An upper bound of the days from `day` to `last`; it falls by at least
/// one from a day to the following day.
pub open spec fn days_left_bound(day: (int, int, int), last: (int, int, int)) -> int {
    (last.0 - day.0) * 372 + (last.1 - day.1) * 31 + (last.2 - day.2)
}

/// The days a backfill writes when it starts at `day` and ends at `last`:
/// `day`, and while `day` is before `last`, the days from the following day
/// on. Writing `range.first` and then each day `backfill_next_day` gives,
/// until it gives none, writes exactly these days.
pub open spec fn backfill_days(day: (int, int, int), last: (int, int, int)) -> Seq<(int, int, int)>
    decreases days_left_bound(day, last),
    when is_valid_ymd(day) && is_valid_ymd(last)
{
    if ymd_before(day, last) {
        proof {
            lemma_successor_then_predecessor(day);
            lemma_successor_is_next(day, last);
        }
        seq![day] + backfill_days(ymd_successor(day), last)
    } else {
        seq![day]
    }
}

/// A backfill from `first` to `last` writes every valid day from `first` to
/// `last`, each exactly once, in chronological order, and no other day.
pub proof fn lemma_backfill_writes_each_day_once(first: (int, int, int), last: (int, int, int))
    requires
        is_valid_ymd(first),
        is_valid_ymd(last),
        ymd_not_after(first, last),
    ensures
        backfill_days(first, last).len() > 0,
        backfill_days(first, last)[0] == first,
        backfill_days(first, last).last() == last,
        forall|i: int|
            0 <= i < backfill_days(first, last).len() ==> is_valid_ymd(
                #[trigger] backfill_days(first, last)[i],
            ) && ymd_not_after(first, backfill_days(first, last)[i]) && ymd_not_after(
                backfill_days(first, last)[i],
                last,
            ),
        forall|i: int, j: int|
            0 <= i < j < backfill_days(first, last).len() ==> ymd_before(
                #[trigger] backfill_days(first, last)[i],
                #[trigger] backfill_days(first, last)[j],
            ),
        forall|day: (int, int, int)|
            is_valid_ymd(day) && ymd_not_after(first, day) && ymd_not_after(day, last)
                ==> #[trigger] backfill_days(first, last).contains(day),
    decreases days_left_bound(first, last),
{
    let days = backfill_days(first, last);
    if ymd_before(first, last) {
        lemma_successor_then_predecessor(first);
        lemma_successor_is_next(first, last);
        let next = ymd_successor(first);
        lemma_backfill_writes_each_day_once(next, last);
        let rest = backfill_days(next, last);
        assert(days == seq![first] + rest);
        assert forall|i: int| 0 <= i < days.len() implies is_valid_ymd(#[trigger] days[i])
            && ymd_not_after(first, days[i]) && ymd_not_after(days[i], last) by {
            if i > 0 {
                assert(days[i] == rest[i - 1]);
            }
        }
        assert forall|i: int, j: int| 0 <= i < j < days.len() implies ymd_before(
            #[trigger] days[i],
            #[trigger] days[j],
        ) by {
            assert(days[j] == rest[j - 1]);
            if i > 0 {
                assert(days[i] == rest[i - 1]);
            } else {
                assert(ymd_not_after(next, rest[j - 1]));
            }
        }
        assert forall|day: (int, int, int)|
            is_valid_ymd(day) && ymd_not_after(first, day) && ymd_not_after(
                day,
                last,
            ) implies #[trigger] days.contains(day) by {
            if day == first {
                assert(days[0] == day);
            } else {
                lemma_successor_is_next(first, day);
                assert(rest.contains(day));
                let k = choose|k: int| 0 <= k < rest.len() && rest[k] == day;
                assert(days[k + 1] == day);
            }
        }
        assert(days.last() == rest.last());
    } else {
        assert(first == last);
        assert(days == seq![first]);
        assert forall|day: (int, int, int)|
            is_valid_ymd(day) && ymd_not_after(first, day) && ymd_not_after(
                day,
                last,
            ) implies #[trigger] days.contains(day) by {
            assert(day == first);
            assert(days[0] == day);
        }
    }
}

/// Putting in the storage provider's metrics changes only the storage
/// object count and bytes: the day and every activity and file count stay
/// as they were.
pub proof fn lemma_storage_metrics_change_only_storage_fields(
    snapshot: AdminStatsSnapshot,
    object_count: i64,
    bytes: i64,
)
    ensures
        with_storage_metrics(snapshot, object_count, bytes).snapshot_date == snapshot.snapshot_date,
        with_storage_metrics(snapshot, object_count, bytes).user_count == snapshot.user_count,
        with_storage_metrics(snapshot, object_count, bytes).bucket_count == snapshot.bucket_count,
        with_storage_metrics(snapshot, object_count, bytes).image_link_count
            == snapshot.image_link_count,
        with_storage_metrics(snapshot, object_count, bytes).unique_file_count
            == snapshot.unique_file_count,
        with_storage_metrics(snapshot, object_count, bytes).send_count == snapshot.send_count,
        with_storage_metrics(snapshot, object_count, bytes).daily_send_count
            == snapshot.daily_send_count,
        with_storage_metrics(snapshot, object_count, bytes).b2_object_count == Some(object_count),
        with_storage_metrics(snapshot, object_count, bytes).b2_bytes == Some(bytes),
{
}

} // verus!
