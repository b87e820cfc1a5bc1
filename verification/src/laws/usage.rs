//! Laws of reading usage: windows, freshness, and the two sources together.

use vstd::prelude::*;

use crate::appcache::{
    app_file_usage, record_metric, recorded_usage, scoped_entries, scoped_entry, AppView,
};
use crate::files::FileRead;
use crate::json::{JsonNumber, Tree};
use crate::percent::Percent;
use crate::source::{
    bytes_have_limits, cache_snapshot, file_snapshot, freshness, has_limits, keeps_data, limits_in, merged, mtime_at,
    percent_member, polled, rolled_over, staged, statusline_metric, text_snapshot, Metric,
    RateLimits, SnapshotState, SnapshotView,
};
use crate::time::{timestamp_in, Timestamp};

verus! {

/// A window whose reset is known and strictly past has nothing used, where a
/// percentage was read at all; any other window shows what was read. The reset
/// is what was read in either case.
pub proof fn rolled_over_window_is_unused(
    percent: Option<Percent>,
    resets_at: Option<Timestamp>,
    now: Timestamp,
)
    ensures
        rolled_over(percent, resets_at, now).resets_at == resets_at,
        rolled_over(percent, resets_at, now).percent is Some <==> percent is Some,
        (resets_at matches Some(r) && r.nanos() < now.nanos()) ==> (rolled_over(
            percent,
            resets_at,
            now,
        ).percent matches Some(p) ==> p.value() == 0),
        !(resets_at matches Some(r) && r.nanos() < now.nanos()) ==> rolled_over(
            percent,
            resets_at,
            now,
        ).percent == percent,
        (percent matches Some(p) && p.value() == 0) ==> rolled_over(
            percent,
            resets_at,
            now,
        ).percent == percent,
{
    Percent::none_used_is_zero();
}

/// A cache is stale exactly when it is known to be more than ten minutes old,
/// and fresh otherwise; by age alone it is never missing. Growing older never
/// makes it fresh again.
pub proof fn stale_after_ten_minutes(at: Timestamp, now: Timestamp, later: Timestamp)
    ensures
        freshness(Some(at), now) == SnapshotState::Stale <==> now.secs() > at.secs() + 600,
        freshness(Some(at), now) == SnapshotState::Fresh <==> now.secs() <= at.secs() + 600,
        freshness(None, now) == SnapshotState::Fresh,
        later.secs() >= now.secs() && freshness(Some(at), now) == SnapshotState::Stale ==> freshness(
            Some(at),
            later,
        ) == SnapshotState::Stale,
{
}

/// A modification time is as far from the epoch as it says, on the side that it
/// says, where a timestamp can hold it.
pub proof fn modification_time_is_kept(secs: u64, before_epoch: bool)
    ensures
        mtime_at(secs, before_epoch) matches Some(at) ==> at.nanos() == (if before_epoch {
            -secs * 1_000_000_000
        } else {
            secs * 1_000_000_000
        }),
        secs <= 253402207200 && !before_epoch ==> mtime_at(secs, before_epoch) is Some,
        secs <= 377705023201 && before_epoch ==> mtime_at(secs, before_epoch) is Some,
{
    if secs <= i64::MAX {
        let second = if before_epoch {
            -(secs as int)
        } else {
            secs as int
        };
        if Timestamp::at_second(second) is Some {
            Timestamp::instant_is_there(second * 1_000_000_000);
        }
    }
}

/// A second that a document gives becomes the time at that second.
pub proof fn second_is_that_second(second: int)
    requires
        Timestamp::at_second(second) is Some,
    ensures
        Timestamp::at_second(second)->0.secs() == second,
        Timestamp::at_second(second)->0.nanos() == second * 1_000_000_000,
{
    Timestamp::instant_is_there(second * 1_000_000_000);
}

/// A window of a statusline document: its percentage is that of the member
/// `used_percentage` and its reset the second that `resets_at` gives; the first
/// counts as nothing used once the second is past.
pub proof fn statusline_window_is_read(tree: Tree, now: Timestamp)
    ensures
        ({
            let metric = statusline_metric(tree, now);
            &&& metric.resets_at matches Some(r) ==> tree.member("resets_at"@) matches Some(m)
                && m.integer() matches Some(s) && r.secs() == s && r.nanos() == s * 1_000_000_000
            &&& (tree.member("resets_at"@) matches Some(m) && m.integer() matches Some(s)
                && -377705023201 <= s <= 253402207200) ==> metric.resets_at is Some
            &&& metric.percent is Some <==> (tree.member("used_percentage"@) matches Some(m)
                && m.number() is Some && percent_member(tree, "used_percentage"@) is Some)
            &&& (metric.resets_at matches Some(r) && r.nanos() < now.nanos()) ==> (
            metric.percent matches Some(p) ==> p.value() == 0)
            &&& !(metric.resets_at matches Some(r) && r.nanos() < now.nanos()) ==> metric.percent
                == percent_member(tree, "used_percentage"@)
        }),
{
    Percent::none_used_is_zero();
    if let Some(m) = tree.member("resets_at"@) {
        if let Some(s) = m.integer() {
            if Timestamp::at_second(s as int) is Some {
                second_is_that_second(s as int);
            }
        }
    }
}

/// The session is the window `five_hour` of `rate_limits` and the week is
/// `seven_day`, each read as a window of its own; a window that is not there is
/// not made up, and nothing else in the document counts.
pub proof fn limits_are_read_by_name(tree: Tree, limits: Tree, now: Timestamp)
    requires
        tree.member("rate_limits"@) == Some(limits),
    ensures
        limits_in(tree, now).session is Some <==> limits.member("five_hour"@) is Some,
        limits_in(tree, now).weekly is Some <==> limits.member("seven_day"@) is Some,
        limits.member("five_hour"@) matches Some(w) ==> limits_in(tree, now).session == Some(
            statusline_metric(w, now),
        ),
        limits.member("seven_day"@) matches Some(w) ==> limits_in(tree, now).weekly == Some(
            statusline_metric(w, now),
        ),
{
}

/// A document without `rate_limits` reports no window.
pub proof fn no_limits_no_windows(tree: Tree, now: Timestamp)
    requires
        tree.member("rate_limits"@) is None,
    ensures
        limits_in(tree, now).session is None,
        limits_in(tree, now).weekly is None,
{
}

/// A document counts as having usage data exactly when it is an object whose
/// member `rate_limits` is there and is not null.
pub proof fn data_is_told_by_rate_limits(members: Map<Seq<char>, Tree>, other: Tree)
    ensures
        has_limits(Tree::Object(members)) <==> members.contains_key("rate_limits"@)
            && members["rate_limits"@] != Tree::Null,
        !(other is Object) ==> !has_limits(other),
{
}

/// Bytes that are no document have no usage data; those of a document have what
/// it has. So a cache is overwritten by them exactly as by the document.
pub proof fn bytes_have_what_their_document_has(bytes: Seq<u8>)
    ensures
        crate::json::parsed_json_bytes(bytes) is None ==> !bytes_have_limits(bytes),
        crate::json::parsed_json_bytes(bytes) matches Some(tree) ==> bytes_have_limits(bytes)
            == has_limits(tree),
{
}

/// A timestamp is made of a second in its range and less than a second more or
/// less, but for less than the first second.
pub proof fn timestamps_have_their_range(second: i64, nanosecond: i32)
    ensures
        crate::time::in_limits(second, nanosecond) <==> in_range(second as int) && -1_000_000_000
            < nanosecond < 1_000_000_000 && (second == -377705023201 ==> nanosecond >= 0),
        Timestamp::at_second(second as int) is Some <==> in_range(second as int),
{
}

/// The member of an object is what stands under its key, and nothing else has
/// members.
pub proof fn members_stand_under_their_keys(
    members: Map<Seq<char>, Tree>,
    key: Seq<char>,
    other: Tree,
)
    ensures
        members.contains_key(key) ==> Tree::Object(members).member(key) == Some(members[key]),
        !members.contains_key(key) ==> Tree::Object(members).member(key) is None,
        !(other is Object) ==> other.member(key) is None,
{
}

/// What a plain JSON value says: a string its text, an integer its value where
/// 64 signed bits hold it, a list its items, and no other value any of these.
pub proof fn values_say_what_they_are(tree: Tree)
    ensures
        tree.text() is Some <==> tree is Text,
        tree.text() matches Some(s) ==> tree == Tree::Text(s),
        tree.items() is Some <==> tree is List,
        tree.items() matches Some(v) ==> tree == Tree::List(v),
        tree.number() is Some <==> tree is Number,
        tree.number() matches Some(n) ==> tree == Tree::Number(n),
        tree.integer() matches Some(n) ==> (tree == Tree::Number(JsonNumber::NegInt(n)) || (n >= 0
            && tree == Tree::Number(JsonNumber::PosInt(n as u64)))),
        forall|n: u64|
            n <= i64::MAX ==> #[trigger] Tree::Number(JsonNumber::PosInt(n)).integer() == Some(
                n as i64,
            ),
        forall|n: i64| #[trigger] Tree::Number(JsonNumber::NegInt(n)).integer() == Some(n),
{
}

/// A cache that was JSON gives its windows and its age and nothing more; one
/// that was not, and one that could not be read, give nothing, and say that the
/// hook is missing.
pub proof fn cache_gives_its_windows(
    limits: RateLimits,
    written_at: Option<Timestamp>,
    now: Timestamp,
    reason: String,
)
    ensures
        ({
            let read = cache_snapshot(Some(limits), written_at, now);
            &&& read.session == limits.session
            &&& read.weekly == limits.weekly
            &&& read.written_at == written_at
            &&& read.scoped.len() == 0
            &&& read.scoped_fetched_at is None
            &&& !read.hook_missing
            &&& read.state == SnapshotState::Stale <==> (written_at matches Some(at) && now.secs()
                > at.secs() + 600)
            &&& read.state != SnapshotState::Missing
        }),
        holds_nothing(cache_snapshot(None, written_at, now)),
        holds_nothing(file_snapshot(FileRead::NotFound, written_at, now)),
        holds_nothing(file_snapshot(FileRead::Failed(reason), written_at, now)),
{
}

/// A snapshot of no data at all.
pub open spec fn holds_nothing(snapshot: SnapshotView) -> bool {
    &&& snapshot.session is None
    &&& snapshot.weekly is None
    &&& snapshot.scoped.len() == 0
    &&& snapshot.scoped_fetched_at is None
    &&& snapshot.written_at is None
    &&& snapshot.state == SnapshotState::Missing
    &&& snapshot.hook_missing
}

/// What is read of a cache file is what its text gives.
pub proof fn cache_file_is_its_text(body: String, at: Option<Timestamp>, now: Timestamp)
    ensures
        file_snapshot(FileRead::Text(body), at, now) == text_snapshot(body@, at, now),
        crate::json::parsed_json(body@) is Err ==> holds_nothing(text_snapshot(body@, at, now)),
        crate::json::parsed_json(body@) matches Ok(tree) ==> text_snapshot(body@, at, now).session
            == limits_in(tree, now).session && text_snapshot(body@, at, now).weekly == limits_in(
            tree,
            now,
        ).weekly && text_snapshot(body@, at, now).written_at == at,
{
}

/// Writing is refused in the one case where it would lose data: what comes in
/// has none and what is there has some.
pub proof fn writing_is_refused_once(incoming_has: bool, existing_has: Option<bool>)
    ensures
        !keeps_data(incoming_has, existing_has) <==> !incoming_has && existing_has == Some(true),
{
}

// ---------------------------------------------------------------------------
// The two sources together
// ---------------------------------------------------------------------------

/// A merged snapshot that has data is stale exactly when the report that it
/// shows is more than ten minutes old, and fresh otherwise.
pub proof fn merged_age_is_its_own(hook: SnapshotView, app: AppView, now: Timestamp)
    ensures
        ({
            let shown = merged(hook, Some(app), now);
            &&& shown.state == SnapshotState::Missing <==> {
                &&& hook.state == SnapshotState::Missing
                &&& shown.session is None
                &&& shown.weekly is None
                &&& shown.scoped.len() == 0
            }
            &&& shown.state != SnapshotState::Missing ==> (shown.state == SnapshotState::Stale <==> (
            shown.written_at matches Some(at) && now.secs() > at.secs() + 600))
            &&& shown.hook_missing <==> hook.state == SnapshotState::Missing
        }),
{
}

/// Whether the record's report counts as the later: only a record that is dated
/// can, and it does where the hook is undated or older.
pub open spec fn record_is_later(hook: SnapshotView, app: AppView) -> bool {
    app.fetched_at matches Some(a) && (hook.written_at matches Some(h) ==> a.nanos() > h.nanos())
}

/// Each window shown is that of the later report, or of the other where the
/// later has none; the time shown is that of the later report, or of the only
/// dated one; and the per-model windows are the record's, with its time.
pub proof fn later_report_wins(hook: SnapshotView, app: AppView, now: Timestamp)
    ensures
        ({
            let shown = merged(hook, Some(app), now);
            &&& record_is_later(hook, app) ==> {
                &&& app.session is Some ==> shown.session == app.session
                &&& app.session is None ==> shown.session == hook.session
                &&& app.weekly is Some ==> shown.weekly == app.weekly
                &&& app.weekly is None ==> shown.weekly == hook.weekly
                &&& shown.written_at == app.fetched_at
            }
            &&& !record_is_later(hook, app) ==> {
                &&& hook.session is Some ==> shown.session == hook.session
                &&& hook.session is None ==> shown.session == app.session
                &&& hook.weekly is Some ==> shown.weekly == hook.weekly
                &&& hook.weekly is None ==> shown.weekly == app.weekly
                &&& hook.written_at is Some ==> shown.written_at == hook.written_at
                &&& hook.written_at is None ==> shown.written_at is None
            }
            &&& shown.scoped == app.scoped
            &&& shown.scoped_fetched_at == app.fetched_at
        }),
        merged(hook, None, now) == hook,
{
}

/// The fixture, where there is one, is all that is shown, whatever the real
/// sources say; without it the two sources are merged; and one that cannot be
/// read shows nothing.
pub proof fn fixture_comes_first(
    body: String,
    reason: String,
    at: Option<Timestamp>,
    cache: FileRead,
    cache_at: Option<Timestamp>,
    record: FileRead,
    other_cache: FileRead,
    other_at: Option<Timestamp>,
    other_record: FileRead,
    now: Timestamp,
)
    ensures
        polled(FileRead::Text(body), at, cache, cache_at, record, now) == polled(
            FileRead::Text(body),
            at,
            other_cache,
            other_at,
            other_record,
            now,
        ),
        crate::json::parsed_json(body@) matches Ok(tree) ==> polled(
            FileRead::Text(body),
            at,
            cache,
            cache_at,
            record,
            now,
        ) == staged(tree, at, now),
        crate::json::parsed_json(body@) is Err ==> holds_nothing(
            polled(FileRead::Text(body), at, cache, cache_at, record, now),
        ),
        holds_nothing(polled(FileRead::Failed(reason), at, cache, cache_at, record, now)),
        polled(FileRead::NotFound, at, cache, cache_at, record, now) == merged(
            file_snapshot(cache, cache_at, now),
            app_file_usage(record, now),
            now,
        ),
{
}

/// The whole number under a key, or another where there is none.
pub open spec fn whole_or(tree: Tree, key: Seq<char>, otherwise: int) -> int {
    match tree.member(key) {
        Some(m) => match m.integer() {
            Some(n) => n as int,
            None => otherwise,
        },
        None => otherwise,
    }
}

/// Whether a second is one that a timestamp can have.
pub open spec fn in_range(second: int) -> bool {
    -377705023201 <= second <= 253402207200
}

/// A staged snapshot is as the fixture says: written so many minutes before now,
/// with the session to reset so many minutes after the fixture was edited, three
/// hours where it does not say, and the week so many days after it, four where
/// it does not say. Percentages are taken as they are, even past a reset.
pub proof fn fixture_is_staged_as_it_says(tree: Tree, edited: Option<Timestamp>, now: Timestamp)
    ensures
        ({
            let shown = staged(tree, edited, now);
            let from = match edited {
                Some(at) => at.secs(),
                None => now.secs(),
            };
            &&& shown.written_at matches Some(at) ==> at.secs() == now.secs() - 60 * whole_or(
                tree,
                "age_minutes"@,
                0,
            )
            &&& shown.session matches Some(s) && s.percent == percent_member(tree, "session"@) && (
            s.resets_at matches Some(r) ==> r.secs() == from + 60 * whole_or(
                tree,
                "session_resets_in_minutes"@,
                180,
            ))
            &&& shown.weekly matches Some(w) && w.percent == percent_member(tree, "weekly"@) && (
            w.resets_at matches Some(r) ==> r.secs() == from + 86_400 * whole_or(
                tree,
                "weekly_resets_in_days"@,
                4,
            ))
            &&& in_range(now.secs() - 60 * whole_or(tree, "age_minutes"@, 0))
                ==> shown.written_at is Some
            &&& in_range(from + 60 * whole_or(tree, "session_resets_in_minutes"@, 180))
                ==> shown.session->0.resets_at is Some
            &&& in_range(from + 86_400 * whole_or(tree, "weekly_resets_in_days"@, 4))
                ==> shown.weekly->0.resets_at is Some
            &&& percent_member(tree, "fable"@) matches Some(p) ==> shown.scoped == seq![
                (
                    "Fable"@,
                    Metric { percent: Some(p), resets_at: shown.weekly->0.resets_at },
                ),
            ]
            &&& percent_member(tree, "fable"@) is None ==> shown.scoped.len() == 0
            &&& shown.scoped_fetched_at == shown.written_at
            &&& !shown.hook_missing
            &&& shown.state != SnapshotState::Missing
            &&& shown.state == SnapshotState::Stale <==> (shown.written_at matches Some(at)
                && now.secs() > at.secs() + 600)
        }),
{
    let from = match edited {
        Some(at) => at.secs(),
        None => now.secs(),
    };
    let a = now.secs() - 60 * whole_or(tree, "age_minutes"@, 0);
    let b = from + 60 * whole_or(tree, "session_resets_in_minutes"@, 180);
    let c = from + 86_400 * whole_or(tree, "weekly_resets_in_days"@, 4);
    if Timestamp::at_second(a) is Some {
        second_is_that_second(a);
    }
    if Timestamp::at_second(b) is Some {
        second_is_that_second(b);
    }
    if Timestamp::at_second(c) is Some {
        second_is_that_second(c);
    }
}

// ---------------------------------------------------------------------------
// The assistant's own record
// ---------------------------------------------------------------------------

/// A window of the record: its percentage is that of the member with the given
/// name, its reset the time that the text `resets_at` gives; the first counts as
/// nothing used once the second is past.
pub proof fn record_window_is_read(tree: Tree, key: Seq<char>, now: Timestamp)
    ensures
        ({
            let metric = record_metric(tree, key, now);
            &&& metric.resets_at == (match tree.member("resets_at"@) {
                Some(Tree::Text(text)) => timestamp_in(text),
                _ => None,
            })
            &&& metric.percent is Some <==> percent_member(tree, key) is Some
            &&& (metric.resets_at matches Some(r) && r.nanos() < now.nanos()) ==> (
            metric.percent matches Some(p) ==> p.value() == 0)
            &&& !(metric.resets_at matches Some(r) && r.nanos() < now.nanos()) ==> metric.percent
                == percent_member(tree, key)
        }),
{
    Percent::none_used_is_zero();
}

/// The record's usage stands in `cachedUsageUtilization`: its session under
/// `five_hour` and its week under `seven_day` of `utilization`, each an object
/// with its own `utilization`, and the time in `fetchedAtMs`.
pub proof fn record_is_read_by_name(
    tree: Tree,
    cached: Map<Seq<char>, Tree>,
    used: Tree,
    now: Timestamp,
)
    requires
        tree.member("cachedUsageUtilization"@) == Some(Tree::Object(cached)),
        cached.contains_key("utilization"@),
        cached["utilization"@] == used,
    ensures
        recorded_usage(tree, now) matches Some(usage) && {
            &&& usage.session is Some <==> (used.member("five_hour"@) matches Some(w) && w is Object)
            &&& usage.weekly is Some <==> (used.member("seven_day"@) matches Some(w) && w is Object)
            &&& usage.session matches Some(m) ==> m == record_metric(
                used.member("five_hour"@)->0,
                "utilization"@,
                now,
            )
            &&& usage.weekly matches Some(m) ==> m == record_metric(
                used.member("seven_day"@)->0,
                "utilization"@,
                now,
            )
            &&& usage.scoped == (match used.member("limits"@) {
                Some(Tree::List(entries)) => scoped_entries(entries, now),
                _ => seq![],
            })
            &&& usage.fetched_at matches Some(at) ==> (Tree::Object(cached).member(
                "fetchedAtMs"@,
            ) matches Some(m) && m.integer() matches Some(ms) && at.nanos() == ms * 1_000_000)
            &&& (Tree::Object(cached).member("fetchedAtMs"@) matches Some(m)
                && m.integer() matches Some(ms) && -377705023201000 <= ms <= 253402207200000)
                ==> usage.fetched_at is Some
        },
{
    if let Some(m) = Tree::Object(cached).member("fetchedAtMs"@) {
        if let Some(ms) = m.integer() {
            if Timestamp::at_millisecond(ms as int) is Some {
                Timestamp::instant_is_there(ms * 1_000_000);
            }
        }
    }
}

/// A record without usage, or with usage that is no object, gives none; nor
/// does a file that is not JSON or could not be read.
pub proof fn no_record_no_usage(tree: Tree, body: String, reason: String, now: Timestamp)
    ensures
        !(tree.member("cachedUsageUtilization"@) matches Some(c) && c is Object) ==> recorded_usage(
            tree,
            now,
        ) is None,
        app_file_usage(FileRead::NotFound, now) is None,
        app_file_usage(FileRead::Failed(reason), now) is None,
        crate::json::parsed_json(body@) is Err ==> app_file_usage(FileRead::Text(body), now)
            is None,
        crate::json::parsed_json(body@) matches Ok(t) ==> app_file_usage(FileRead::Text(body), now)
            == recorded_usage(t, now),
{
}

/// An entry of `limits` is a per-model window exactly when its kind is
/// `weekly_scoped` and its model has a name; the window has that name and the
/// entry's `percent`.
pub proof fn scoped_entry_is_named(tree: Tree, now: Timestamp)
    ensures
        scoped_entry(tree, now) is Some <==> {
            &&& tree.member("kind"@) == Some(Tree::Text("weekly_scoped"@))
            &&& tree.member("scope"@) matches Some(s) && s.member("model"@) matches Some(m)
                && m.member("display_name"@) matches Some(n) && n is Text
        },
        scoped_entry(tree, now) matches Some(found) ==> {
            &&& tree.member("scope"@)->0.member("model"@)->0.member("display_name"@) == Some(
                Tree::Text(found.0),
            )
            &&& found.1 == record_metric(tree, "percent"@, now)
        },
{
}

/// The per-model windows are those of the entries that are such, in order, and
/// each of them once.
pub proof fn scoped_entries_are_in_order(entries: Seq<Tree>, last: Tree, now: Timestamp)
    ensures
        scoped_entries(entries, now).len() <= entries.len(),
        scoped_entry(last, now) matches Some(found) ==> scoped_entries(entries.push(last), now)
            == scoped_entries(entries, now).push(found),
        scoped_entry(last, now) is None ==> scoped_entries(entries.push(last), now)
            == scoped_entries(entries, now),
        scoped_entries(Seq::empty(), now).len() == 0,
    decreases entries.len(),
{
    assert(entries.push(last).drop_last() == entries);
    if entries.len() > 0 {
        scoped_entries_are_in_order(entries.drop_last(), entries.last(), now);
    }
}

} // verus!
