//! The statistics page: the stored snapshots put in date order and turned
//! into the response the admin endpoint sends.

use vstd::prelude::*;

use crate::calendar::format_iso_date;
use crate::calendar::iso_date_text;
use crate::calendar::ymd_before;
use crate::calendar::ymd_not_after;
use crate::errors::AdminError;
use crate::errors::ServerFault;
use crate::stats::has_complete_storage_history;
use crate::stats::is_complete_storage_snapshot;
use crate::stats::AdminStatsSnapshot;

verus! {

broadcast use vstd::seq_lib::group_seq_properties, vstd::seq_lib::group_to_multiset_ensures;

/// The snapshots of one day.
pub open spec fn on_day(day: (int, int, int)) -> spec_fn(AdminStatsSnapshot) -> bool {
    |snapshot: AdminStatsSnapshot| snapshot.snapshot_date@ == day
}

/// Snapshots in chronological order (the same day may repeat).
pub open spec fn is_date_sorted(snapshots: Seq<AdminStatsSnapshot>) -> bool {
    forall|i: int, j: int|
        0 <= i < j < snapshots.len() ==> ymd_not_after(
            #[trigger] snapshots[i].snapshot_date@,
            #[trigger] snapshots[j].snapshot_date@,
        )
}

/// `ordered` is `history` sorted by date, stably: it is in date order and
/// holds the snapshots of each day in the order `history` holds them.
pub open spec fn is_date_ordering(
    history: Seq<AdminStatsSnapshot>,
    ordered: Seq<AdminStatsSnapshot>,
) -> bool {
    &&& is_date_sorted(ordered)
    &&& forall|day: (int, int, int)| #[trigger]
        ordered.filter(on_day(day)) == history.filter(on_day(day))
}

proof fn lemma_filter_absent(s: Seq<AdminStatsSnapshot>, day: (int, int, int))
    requires
        forall|i: int| 0 <= i < s.len() ==> (#[trigger] s[i]).snapshot_date@ != day,
    ensures
        s.filter(on_day(day)) =~= Seq::<AdminStatsSnapshot>::empty(),
    decreases s.len(),
{
    reveal(Seq::filter);
    if s.len() > 0 {
        lemma_filter_absent(s.drop_last(), day);
    }
}

proof fn lemma_filter_of_nonempty(s: Seq<AdminStatsSnapshot>, day: (int, int, int))
    requires
        s.len() > 0,
    ensures
        s.filter(on_day(day)) == if s.last().snapshot_date@ == day {
            s.drop_last().filter(on_day(day)).push(s.last())
        } else {
            s.drop_last().filter(on_day(day))
        },
{
    reveal(Seq::filter);
}

/// Inserting a snapshot at the place where every earlier snapshot is not
/// later and every later snapshot is later keeps a stable date ordering.
proof fn lemma_insert_keeps_ordering(
    history: Seq<AdminStatsSnapshot>,
    sorted: Seq<AdminStatsSnapshot>,
    at: int,
    item: AdminStatsSnapshot,
)
    requires
        is_date_ordering(history, sorted),
        0 <= at <= sorted.len(),
        forall|k: int| 0 <= k < at ==> !ymd_before(item.snapshot_date@, #[trigger] sorted[k].snapshot_date@),
        forall|k: int|
            at <= k < sorted.len() ==> ymd_before(item.snapshot_date@, #[trigger] sorted[k].snapshot_date@),
    ensures
        is_date_ordering(history.push(item), sorted.insert(at, item)),
{
    let result = sorted.insert(at, item);
    let front = sorted.take(at);
    let back = sorted.skip(at);
    assert(result =~= front + seq![item] + back);
    assert(sorted =~= front + back);
    assert forall|i: int, j: int| 0 <= i < j < result.len() implies ymd_not_after(
        #[trigger] result[i].snapshot_date@,
        #[trigger] result[j].snapshot_date@,
    ) by {
        if j < at {
            assert(result[i] == sorted[i] && result[j] == sorted[j]);
        } else if j == at {
            assert(result[i] == sorted[i]);
        } else if i < at {
            assert(result[i] == sorted[i] && result[j] == sorted[j - 1]);
            assert(ymd_before(item.snapshot_date@, sorted[j - 1].snapshot_date@));
        } else if i == at {
            assert(result[j] == sorted[j - 1]);
        } else {
            assert(result[i] == sorted[i - 1] && result[j] == sorted[j - 1]);
        }
    }
    assert forall|day: (int, int, int)| #[trigger]
        result.filter(on_day(day)) == history.push(item).filter(on_day(day)) by {
        Seq::filter_distributes_over_add(front + seq![item], back, on_day(day));
        Seq::filter_distributes_over_add(front, seq![item], on_day(day));
        Seq::filter_distributes_over_add(front, back, on_day(day));
        history.lemma_filter_push(item, on_day(day));
        reveal(Seq::filter);
        assert(seq![item].drop_last() =~= Seq::<AdminStatsSnapshot>::empty());
        if day == item.snapshot_date@ {
            assert forall|k: int| 0 <= k < back.len() implies (#[trigger] back[k]).snapshot_date@
                != day by {
                assert(back[k] == sorted[at + k]);
            }
            lemma_filter_absent(back, day);
            assert(front.filter(on_day(day)) + seq![item] + back.filter(on_day(day))
                =~= front.filter(on_day(day)).push(item));
            assert(front.filter(on_day(day)) + back.filter(on_day(day)) =~= front.filter(
                on_day(day),
            ));
        } else {
            assert(seq![item].filter(on_day(day)) =~= Seq::<AdminStatsSnapshot>::empty());
            assert(front.filter(on_day(day)) + Seq::<AdminStatsSnapshot>::empty() =~= front.filter(
                on_day(day),
            ));
        }
    }
}

/// Sorts the snapshots by date, keeping the order of snapshots of the same
/// day (a stable sort).
pub fn sort_snapshots_by_date(history: Vec<AdminStatsSnapshot>) -> (sorted: Vec<AdminStatsSnapshot>)
    ensures
        is_date_ordering(history@, sorted@),
        sorted@.to_multiset() == history@.to_multiset(),
{
    let mut sorted: Vec<AdminStatsSnapshot> = Vec::new();
    let mut i: usize = 0;
    proof {
        assert forall|day: (int, int, int)| #[trigger]
            sorted@.filter(on_day(day)) == history@.take(0).filter(on_day(day)) by {
            reveal(Seq::filter);
        }
    }
    while i < history.len()
        invariant
            i <= history@.len(),
            is_date_ordering(history@.take(i as int), sorted@),
            sorted@.to_multiset() == history@.take(i as int).to_multiset(),
        decreases history@.len() - i,
    {
        let item = history[i];
        let mut at: usize = 0;
        while at < sorted.len() && !item.snapshot_date.is_before(&sorted[at].snapshot_date)
            invariant
                at <= sorted@.len(),
                forall|k: int|
                    0 <= k < at ==> !ymd_before(
                        item.snapshot_date@,
                        #[trigger] sorted@[k].snapshot_date@,
                    ),
            decreases sorted@.len() - at,
        {
            at = at + 1;
        }
        proof {
            assert forall|k: int| at <= k < sorted@.len() implies ymd_before(
                item.snapshot_date@,
                #[trigger] sorted@[k].snapshot_date@,
            ) by {
                assert(ymd_before(item.snapshot_date@, sorted@[at as int].snapshot_date@));
                if k > at {
                    assert(ymd_not_after(
                        sorted@[at as int].snapshot_date@,
                        sorted@[k].snapshot_date@,
                    ));
                }
            }
            lemma_insert_keeps_ordering(history@.take(i as int), sorted@, at as int, item);
            assert(history@.take(i + 1) =~= history@.take(i as int).push(item));
        }
        sorted.insert(at, item);
        i = i + 1;
    }
    assert(history@.take(history@.len() as int) =~= history@);
    sorted
}

/// Two stable date orderings of the same history are the same sequence:
/// the sort leaves nothing to choose.
pub proof fn lemma_date_ordering_unique(
    history: Seq<AdminStatsSnapshot>,
    first: Seq<AdminStatsSnapshot>,
    second: Seq<AdminStatsSnapshot>,
)
    requires
        is_date_ordering(history, first),
        is_date_ordering(history, second),
    ensures
        first == second,
{
    assert forall|day: (int, int, int)| #[trigger]
        first.filter(on_day(day)) == second.filter(on_day(day)) by {
        assert(first.filter(on_day(day)) == history.filter(on_day(day)));
        assert(second.filter(on_day(day)) == history.filter(on_day(day)));
    }
    lemma_sorted_same_days_equal(first, second);
}

proof fn lemma_sorted_same_days_equal(a: Seq<AdminStatsSnapshot>, b: Seq<AdminStatsSnapshot>)
    requires
        is_date_sorted(a),
        is_date_sorted(b),
        forall|day: (int, int, int)| #[trigger] a.filter(on_day(day)) == b.filter(on_day(day)),
    ensures
        a == b,
    decreases a.len() + b.len(),
{
    if a.len() == 0 || b.len() == 0 {
        if a.len() > 0 {
            let x = a.last();
            a.lemma_filter_contains(on_day(x.snapshot_date@), a.len() - 1);
            assert(b.filter(on_day(x.snapshot_date@)).contains(x));
            b.lemma_filter_contains_rev(on_day(x.snapshot_date@), x);
        }
        if b.len() > 0 {
            let y = b.last();
            b.lemma_filter_contains(on_day(y.snapshot_date@), b.len() - 1);
            assert(a.filter(on_day(y.snapshot_date@)).contains(y));
            a.lemma_filter_contains_rev(on_day(y.snapshot_date@), y);
        }
        assert(a =~= b);
    } else {
        let x = a.last();
        let y = b.last();
        let dx = x.snapshot_date@;
        let dy = y.snapshot_date@;
        a.lemma_filter_contains(on_day(dx), a.len() - 1);
        assert(b.filter(on_day(dx)).contains(x));
        b.lemma_filter_contains_rev(on_day(dx), x);
        let kb = choose|k: int| 0 <= k < b.len() && b[k] == x;
        assert(ymd_not_after(b[kb].snapshot_date@, dy)) by {
            if kb < b.len() - 1 {
                assert(ymd_not_after(b[kb].snapshot_date@, b[b.len() - 1].snapshot_date@));
            }
        }
        b.lemma_filter_contains(on_day(dy), b.len() - 1);
        assert(a.filter(on_day(dy)).contains(y));
        a.lemma_filter_contains_rev(on_day(dy), y);
        let ka = choose|k: int| 0 <= k < a.len() && a[k] == y;
        assert(ymd_not_after(a[ka].snapshot_date@, dx)) by {
            if ka < a.len() - 1 {
                assert(ymd_not_after(a[ka].snapshot_date@, a[a.len() - 1].snapshot_date@));
            }
        }
        assert(dx == dy);
        let ra = a.drop_last();
        let rb = b.drop_last();
        lemma_filter_of_nonempty(a, dx);
        lemma_filter_of_nonempty(b, dx);
        assert(ra.filter(on_day(dx)).push(x) == rb.filter(on_day(dx)).push(y));
        assert(x == ra.filter(on_day(dx)).push(x).last());
        assert(y == rb.filter(on_day(dx)).push(y).last());
        assert(ra.filter(on_day(dx)) =~= ra.filter(on_day(dx)).push(x).drop_last());
        assert(rb.filter(on_day(dx)) =~= rb.filter(on_day(dx)).push(y).drop_last());
        assert forall|day: (int, int, int)| #[trigger]
            ra.filter(on_day(day)) == rb.filter(on_day(day)) by {
            lemma_filter_of_nonempty(a, day);
            lemma_filter_of_nonempty(b, day);
        }
        assert(is_date_sorted(ra)) by {
            assert forall|i: int, j: int| 0 <= i < j < ra.len() implies ymd_not_after(
                #[trigger] ra[i].snapshot_date@,
                #[trigger] ra[j].snapshot_date@,
            ) by {
                assert(ra[i] == a[i] && ra[j] == a[j]);
            }
        }
        assert(is_date_sorted(rb)) by {
            assert forall|i: int, j: int| 0 <= i < j < rb.len() implies ymd_not_after(
                #[trigger] rb[i].snapshot_date@,
                #[trigger] rb[j].snapshot_date@,
            ) by {
                assert(rb[i] == b[i] && rb[j] == b[j]);
            }
        }
        lemma_sorted_same_days_equal(ra, rb);
        assert(a =~= ra.push(x));
        assert(b =~= rb.push(y));
    }
}

/// One day's statistics as the statistics page shows them.
pub struct AdminStatsSnapshotResponse {
    pub snapshot_date: String,
    pub user_count: i64,
    pub bucket_count: i64,
    pub image_link_count: i64,
    pub unique_file_count: Option<i64>,
    pub send_count: i64,
    pub daily_send_count: i64,
    pub b2_object_count: Option<i64>,
    pub b2_bytes: Option<i64>,
}

/// Whether storage metrics are configured and known, and since when the
/// history holds them.
pub struct AdminStatsStorageResponse {
    pub configured: bool,
    pub available: bool,
    pub first_complete_history_date: Option<String>,
}

/// The statistics page: the latest day, every day in date order, and the
/// state of the storage metrics.
pub struct AdminStatsResponse {
    pub current: AdminStatsSnapshotResponse,
    pub history: Vec<AdminStatsSnapshotResponse>,
    pub storage: AdminStatsStorageResponse,
}

/// A shown day holds the values of its snapshot, the date as `YYYY-MM-DD`.
pub open spec fn snapshot_response_matches(
    response: AdminStatsSnapshotResponse,
    snapshot: AdminStatsSnapshot,
) -> bool {
    &&& response.snapshot_date@ == iso_date_text(snapshot.snapshot_date@)
    &&& response.user_count == snapshot.user_count
    &&& response.bucket_count == snapshot.bucket_count
    &&& response.image_link_count == snapshot.image_link_count
    &&& response.unique_file_count == snapshot.unique_file_count
    &&& response.send_count == snapshot.send_count
    &&& response.daily_send_count == snapshot.daily_send_count
    &&& response.b2_object_count == snapshot.b2_object_count
    &&& response.b2_bytes == snapshot.b2_bytes
}

/// Turns a snapshot into the day the statistics page shows.
pub fn map_stats_snapshot(snapshot: AdminStatsSnapshot) -> (response: AdminStatsSnapshotResponse)
    ensures
        snapshot_response_matches(response, snapshot),
{
    AdminStatsSnapshotResponse {
        snapshot_date: format_iso_date(snapshot.snapshot_date),
        user_count: snapshot.user_count,
        bucket_count: snapshot.bucket_count,
        image_link_count: snapshot.image_link_count,
        unique_file_count: snapshot.unique_file_count,
        send_count: snapshot.send_count,
        daily_send_count: snapshot.daily_send_count,
        b2_object_count: snapshot.b2_object_count,
        b2_bytes: snapshot.b2_bytes,
    }
}

/// `index` is the first snapshot of `ordered` with complete storage metrics.
pub open spec fn is_first_complete_index(ordered: Seq<AdminStatsSnapshot>, index: int) -> bool {
    &&& 0 <= index < ordered.len()
    &&& is_complete_storage_snapshot(ordered[index])
    &&& forall|j: int| 0 <= j < index ==> !is_complete_storage_snapshot(#[trigger] ordered[j])
}

/// A statistics page describes a non-empty date-ordered history: every day
/// in order, the last day as the current one, the storage state, and the
/// date of the first day with complete storage metrics.
pub open spec fn describes_stats(
    response: AdminStatsResponse,
    ordered: Seq<AdminStatsSnapshot>,
    storage_configured: bool,
) -> bool {
    &&& ordered.len() > 0
    &&& response.history@.len() == ordered.len()
    &&& forall|i: int|
        0 <= i < ordered.len() ==> snapshot_response_matches(
            #[trigger] response.history@[i],
            ordered[i],
        )
    &&& snapshot_response_matches(response.current, ordered.last())
    &&& response.storage.configured == storage_configured
    &&& response.storage.available == (storage_configured && is_complete_storage_snapshot(
        ordered.last(),
    ))
    &&& (response.storage.first_complete_history_date is None <==> forall|i: int|
        0 <= i < ordered.len() ==> !is_complete_storage_snapshot(#[trigger] ordered[i]))
    &&& (response.storage.first_complete_history_date matches Some(text) ==> exists|i: int|
        #[trigger] is_first_complete_index(ordered, i) && text@ == iso_date_text(
            ordered[i].snapshot_date@,
        ))
}

/// Builds the statistics page from the stored snapshots (in any order) and
/// whether a storage provider is configured; without any snapshot the page
/// cannot be built.
pub fn stats_response(history: Vec<AdminStatsSnapshot>, storage_configured: bool) -> (response:
    Result<AdminStatsResponse, AdminError>)
    ensures
        response is Err <==> history@.len() == 0,
        response matches Err(e) ==> e == AdminError::InternalServerError(
            ServerFault::StatsUnavailable,
        ),
        response matches Ok(page) ==> exists|ordered: Seq<AdminStatsSnapshot>|
            #[trigger] is_date_ordering(history@, ordered) && describes_stats(
                page,
                ordered,
                storage_configured,
            ),
{
    let ghost stored = history@;
    let sorted = sort_snapshots_by_date(history);
    proof {
        vstd::seq_lib::to_multiset_len(stored);
        vstd::seq_lib::to_multiset_len(sorted@);
    }
    if sorted.len() == 0 {
        return Err(AdminError::InternalServerError(ServerFault::StatsUnavailable));
    }
    let current = sorted[sorted.len() - 1];
    let mut days: Vec<AdminStatsSnapshotResponse> = Vec::new();
    let mut first_complete: Option<String> = None;
    let ghost mut first_index: int = 0;
    let mut i: usize = 0;
    while i < sorted.len()
        invariant
            i <= sorted@.len(),
            days@.len() == i,
            forall|j: int|
                0 <= j < i ==> snapshot_response_matches(#[trigger] days@[j], sorted@[j]),
            first_complete is None <==> forall|j: int|
                0 <= j < i ==> !is_complete_storage_snapshot(#[trigger] sorted@[j]),
            first_complete matches Some(text) ==> 0 <= first_index < i && is_first_complete_index(
                sorted@,
                first_index,
            ) && text@ == iso_date_text(sorted@[first_index].snapshot_date@),
        decreases sorted@.len() - i,
    {
        let snapshot = sorted[i];
        if first_complete.is_none() && has_complete_storage_history(&snapshot) {
            first_complete = Some(format_iso_date(snapshot.snapshot_date));
            proof {
                first_index = i as int;
            }
        }
        days.push(map_stats_snapshot(snapshot));
        i = i + 1;
    }
    let available = storage_configured && has_complete_storage_history(&current);
    let page = AdminStatsResponse {
        current: map_stats_snapshot(current),
        history: days,
        storage: AdminStatsStorageResponse {
            configured: storage_configured,
            available,
            first_complete_history_date: first_complete,
        },
    };
    proof {
        if page.storage.first_complete_history_date is Some {
            assert(is_first_complete_index(sorted@, first_index));
        }
        assert(describes_stats(page, sorted@, storage_configured));
    }
    Ok(page)
}

/// Every stored snapshot is on the statistics page, and the page's current
/// day is the latest stored day.
pub proof fn lemma_current_day_is_latest(
    history: Seq<AdminStatsSnapshot>,
    ordered: Seq<AdminStatsSnapshot>,
)
    requires
        is_date_ordering(history, ordered),
        ordered.len() > 0,
    ensures
        forall|i: int| 0 <= i < history.len() ==> ordered.contains(#[trigger] history[i]),
        forall|i: int|
            0 <= i < history.len() ==> ymd_not_after(
                (#[trigger] history[i]).snapshot_date@,
                ordered.last().snapshot_date@,
            ),
{
    assert forall|i: int| 0 <= i < history.len() implies ordered.contains(#[trigger] history[i])
        && ymd_not_after(history[i].snapshot_date@, ordered.last().snapshot_date@) by {
        let day = history[i].snapshot_date@;
        history.lemma_filter_contains(on_day(day), i);
        assert(ordered.filter(on_day(day)) == history.filter(on_day(day)));
        ordered.lemma_filter_contains_rev(on_day(day), history[i]);
        let k = choose|k: int| 0 <= k < ordered.len() && ordered[k] == history[i];
        if k < ordered.len() - 1 {
            assert(ymd_not_after(ordered[k].snapshot_date@, ordered[ordered.len() - 1].snapshot_date@));
        }
    }
}

/// The storage metrics are only reported available when a storage provider
/// is configured and the current day holds them all.
pub proof fn lemma_available_storage_is_configured(
    page: AdminStatsResponse,
    ordered: Seq<AdminStatsSnapshot>,
    storage_configured: bool,
)
    requires
        describes_stats(page, ordered, storage_configured),
    ensures
        page.storage.available ==> page.storage.configured && is_complete_storage_snapshot(
            ordered.last(),
        ),
        page.storage.available ==> page.storage.first_complete_history_date is Some,
{
    if page.storage.available {
        assert(!is_complete_storage_snapshot(ordered[ordered.len() - 1]) ==> false);
    }
}

/// The statistics page shows the latest stored day as its current day,
/// whatever storage metrics that day holds, and reports storage metrics
/// available exactly when storage is configured and that day holds them all.
pub proof fn lemma_page_current_is_latest_stored_day(
    history: Seq<AdminStatsSnapshot>,
    page: AdminStatsResponse,
    ordered: Seq<AdminStatsSnapshot>,
    storage_configured: bool,
)
    requires
        is_date_ordering(history, ordered),
        describes_stats(page, ordered, storage_configured),
    ensures
        exists|i: int|
            0 <= i < history.len() && snapshot_response_matches(page.current, #[trigger] history[i])
                && (forall|j: int|
                0 <= j < history.len() ==> ymd_not_after(
                    (#[trigger] history[j]).snapshot_date@,
                    history[i].snapshot_date@,
                )) && page.storage.available == (storage_configured
                && is_complete_storage_snapshot(history[i])),
{
    let last = ordered.last();
    let day = last.snapshot_date@;
    ordered.lemma_filter_contains(on_day(day), ordered.len() - 1);
    assert(history.filter(on_day(day)).contains(last));
    history.lemma_filter_contains_rev(on_day(day), last);
    let i = choose|i: int| 0 <= i < history.len() && history[i] == last;
    lemma_current_day_is_latest(history, ordered);
    assert(forall|j: int|
        0 <= j < history.len() ==> ymd_not_after(
            (#[trigger] history[j]).snapshot_date@,
            history[i].snapshot_date@,
        ));
    assert(snapshot_response_matches(page.current, history[i]));
}

/// The stored snapshots and the date-ordered ones hold the same snapshots.
proof fn lemma_ordering_same_members(
    history: Seq<AdminStatsSnapshot>,
    ordered: Seq<AdminStatsSnapshot>,
)
    requires
        is_date_ordering(history, ordered),
    ensures
        forall|i: int| 0 <= i < history.len() ==> ordered.contains(#[trigger] history[i]),
        forall|k: int| 0 <= k < ordered.len() ==> history.contains(#[trigger] ordered[k]),
{
    assert forall|i: int| 0 <= i < history.len() implies ordered.contains(#[trigger] history[i]) by {
        let day = history[i].snapshot_date@;
        history.lemma_filter_contains(on_day(day), i);
        assert(ordered.filter(on_day(day)) == history.filter(on_day(day)));
        ordered.lemma_filter_contains_rev(on_day(day), history[i]);
    }
    assert forall|k: int| 0 <= k < ordered.len() implies history.contains(#[trigger] ordered[k]) by {
        let day = ordered[k].snapshot_date@;
        ordered.lemma_filter_contains(on_day(day), k);
        assert(ordered.filter(on_day(day)) == history.filter(on_day(day)));
        history.lemma_filter_contains_rev(on_day(day), ordered[k]);
    }
}

/// The page names a first day with complete storage history exactly when a
/// stored snapshot holds the file count and both storage metrics, and that
/// day is the date of such a snapshot no later than any other such snapshot.
pub proof fn lemma_first_complete_day_is_earliest(
    history: Seq<AdminStatsSnapshot>,
    page: AdminStatsResponse,
    ordered: Seq<AdminStatsSnapshot>,
    storage_configured: bool,
)
    requires
        is_date_ordering(history, ordered),
        describes_stats(page, ordered, storage_configured),
    ensures
        page.storage.first_complete_history_date is None <==> forall|i: int|
            0 <= i < history.len() ==> (#[trigger] history[i]).unique_file_count is None
                || history[i].b2_object_count is None || history[i].b2_bytes is None,
        page.storage.first_complete_history_date matches Some(text) ==> exists|i: int|
            0 <= i < history.len() && (#[trigger] history[i]).unique_file_count is Some
                && history[i].b2_object_count is Some && history[i].b2_bytes is Some && text@
                == iso_date_text(history[i].snapshot_date@) && forall|j: int|
                0 <= j < history.len() && history[j].unique_file_count is Some
                    && history[j].b2_object_count is Some && history[j].b2_bytes is Some
                    ==> ymd_not_after(history[i].snapshot_date@, (#[trigger] history[j]).snapshot_date@),
{
    lemma_ordering_same_members(history, ordered);
    if page.storage.first_complete_history_date is None {
        assert forall|i: int| 0 <= i < history.len() implies !is_complete_storage_snapshot(
            #[trigger] history[i],
        ) by {
            assert(ordered.contains(history[i]));
            let k = choose|k: int| 0 <= k < ordered.len() && ordered[k] == history[i];
            assert(!is_complete_storage_snapshot(ordered[k]));
        }
    } else {
        let text = page.storage.first_complete_history_date->0;
        let f = choose|f: int|
            #[trigger] is_first_complete_index(ordered, f) && text@ == iso_date_text(
                ordered[f].snapshot_date@,
            );
        assert(history.contains(ordered[f]));
        let i = choose|i: int| 0 <= i < history.len() && history[i] == ordered[f];
        assert forall|j: int|
            0 <= j < history.len() && history[j].unique_file_count is Some
                && history[j].b2_object_count is Some && history[j].b2_bytes is Some implies ymd_not_after(
            history[i].snapshot_date@,
            (#[trigger] history[j]).snapshot_date@,
        ) by {
            assert(ordered.contains(history[j]));
            let k = choose|k: int| 0 <= k < ordered.len() && ordered[k] == history[j];
            if k < f {
                assert(!is_complete_storage_snapshot(ordered[k]));
            }
            if f < k {
                assert(ymd_not_after(ordered[f].snapshot_date@, ordered[k].snapshot_date@));
            }
        }
        assert(is_complete_storage_snapshot(history[i]));
    }
}

} // verus!
