//! Every text that the tray shows, as a function of the snapshot, the time and
//! the time zone.

use vstd::prelude::*;
use vstd::string::*;

use crate::assistant::Assistant;
use crate::percent::{rounded, Percent};
use crate::source::{Metric, SnapshotState, SnapshotView, UsageSnapshot};
use crate::text::{decimal, digit, digit_char, int_text};
use crate::time::{civil_at, count_days, local_time, same_time, Civil, Timestamp};

verus! {

/// Furthest a reset may be away, in days, to be called by its weekday: further
/// out a weekday would read as "this week".
pub const WEEKDAY_FORM_MAX_DAYS: i64 = 6;

// ---------------------------------------------------------------------------
// Times
// ---------------------------------------------------------------------------

/// A number below one hundred with two digits.
pub open spec fn two_digits(n: int) -> Seq<char> {
    seq![digit((n / 10) as nat), digit((n % 10) as nat)]
}

/// `18:05`.
pub open spec fn clock_text(civil: Civil) -> Seq<char> {
    two_digits(civil.hour as int) + ":"@ + two_digits(civil.minute as int)
}

/// The short name of a weekday, counted from Monday.
pub open spec fn weekday_name(weekday: int) -> Seq<char> {
    if weekday == 0 {
        "Mon"@
    } else if weekday == 1 {
        "Tue"@
    } else if weekday == 2 {
        "Wed"@
    } else if weekday == 3 {
        "Thu"@
    } else if weekday == 4 {
        "Fri"@
    } else if weekday == 5 {
        "Sat"@
    } else {
        "Sun"@
    }
}

/// The short name of a month.
pub open spec fn month_name(month: int) -> Seq<char> {
    if month == 1 {
        "Jan"@
    } else if month == 2 {
        "Feb"@
    } else if month == 3 {
        "Mar"@
    } else if month == 4 {
        "Apr"@
    } else if month == 5 {
        "May"@
    } else if month == 6 {
        "Jun"@
    } else if month == 7 {
        "Jul"@
    } else if month == 8 {
        "Aug"@
    } else if month == 9 {
        "Sep"@
    } else if month == 10 {
        "Oct"@
    } else if month == 11 {
        "Nov"@
    } else {
        "Dec"@
    }
}

/// Whether two dates are close enough to be told apart by weekday.
pub open spec fn within_week(at: Civil, now: Civil) -> bool {
    -WEEKDAY_FORM_MAX_DAYS <= at.days() - now.days() <= WEEKDAY_FORM_MAX_DAYS
}

/// How a time is called: by the clock on the same day, with its weekday within
/// six days, else with its month and day.
pub open spec fn time_text(at: Civil, now: Civil) -> Seq<char> {
    if at.same_date(now) {
        clock_text(at)
    } else if within_week(at, now) {
        weekday_name(at.weekday as int) + " "@ + clock_text(at)
    } else {
        month_name(at.month as int) + " "@ + two_digits(at.day as int) + " "@ + clock_text(at)
    }
}

/// How a time is called in a zone.
pub open spec fn reset_text(at: Timestamp, now: Timestamp, tz: jiff::tz::TimeZone) -> Seq<char> {
    time_text(local_time(at, tz), local_time(now, tz))
}

fn push_two_digits(text: &mut String, n: u8)
    requires
        n < 100,
    ensures
        final(text)@ == old(text)@ + two_digits(n as int),
{
    let ghost before = text@;
    text.push(digit_char(n / 10));
    text.push(digit_char(n % 10));
    proof {
        assert(text@ == before + two_digits(n as int));
    }
}

fn weekday_label(weekday: i8) -> (name: &'static str)
    ensures
        name@ == weekday_name(weekday as int),
{
    match weekday {
        0 => "Mon",
        1 => "Tue",
        2 => "Wed",
        3 => "Thu",
        4 => "Fri",
        5 => "Sat",
        _ => "Sun",
    }
}

fn month_label(month: i8) -> (name: &'static str)
    ensures
        name@ == month_name(month as int),
{
    match month {
        1 => "Jan",
        2 => "Feb",
        3 => "Mar",
        4 => "Apr",
        5 => "May",
        6 => "Jun",
        7 => "Jul",
        8 => "Aug",
        9 => "Sep",
        10 => "Oct",
        11 => "Nov",
        _ => "Dec",
    }
}

/// How the time that a clock shows as `at` is called when it shows `now`.
pub fn time_label(at: Civil, now: Civil) -> (text: String)
    requires
        at.valid(),
        now.valid(),
    ensures
        text@ == time_text(at, now),
{
    let mut text = String::new();
    let same_date = at.year == now.year && at.month == now.month && at.day == now.day;
    if !same_date {
        let gap: i64 = count_days(at) - count_days(now);
        if gap <= WEEKDAY_FORM_MAX_DAYS && gap >= -WEEKDAY_FORM_MAX_DAYS {
            text.append(weekday_label(at.weekday));
        } else {
            text.append(month_label(at.month));
            text.append(" ");
            push_two_digits(&mut text, at.day as u8);
        }
        text.append(" ");
    }
    let ghost before = text@;
    push_two_digits(&mut text, at.hour as u8);
    text.append(":");
    push_two_digits(&mut text, at.minute as u8);
    proof {
        assert(text@ == before + clock_text(at));
        let none = Seq::<char>::empty();
        assert(none + clock_text(at) == clock_text(at));
        let w = weekday_name(at.weekday as int);
        assert(none + w + " "@ + clock_text(at) == w + " "@ + clock_text(at));
        let m = month_name(at.month as int);
        assert(none + m + " "@ + two_digits(at.day as int) + " "@ + clock_text(at) == m + " "@
            + two_digits(at.day as int) + " "@ + clock_text(at));
    }
    text
}

/// Formats a reset for display: `HH:MM` on the same local day, with the
/// weekday within the next or last six days, else with month and day.
pub fn humanize_reset(at: Timestamp, now: Timestamp, tz: &jiff::tz::TimeZone) -> (text: String)
    ensures
        text@ == reset_text(at, now, *tz),
{
    time_label(civil_at(at, tz), civil_at(now, tz))
}

/// Seconds since `at`, none for a time yet to come.
pub open spec fn age(at: Timestamp, now: Timestamp) -> int {
    if now.secs() > at.secs() {
        now.secs() - at.secs()
    } else {
        0
    }
}

/// Age of a cache written at `at`, in seconds. A cache written "in the future"
/// only means that the writer's clock ran ahead.
pub fn age_secs(at: Timestamp, now: Timestamp) -> (secs: i64)
    ensures
        secs == age(at, now),
        0 <= secs <= 700_000_000_000,
{
    let gap: i64 = now.as_second() - at.as_second();
    if gap > 0 {
        gap
    } else {
        0
    }
}

/// An age in words: minutes below an hour, hours rounded to the nearest up to
/// two days, days rounded to the nearest beyond.
pub open spec fn age_text(secs: int) -> Seq<char> {
    if secs < 0 {
        decimal(-(-secs / 60)) + " min"@
    } else if secs < 3600 {
        decimal(secs / 60) + " min"@
    } else if (secs + 1800) / 3600 < 48 {
        decimal((secs + 1800) / 3600) + " h"@
    } else {
        decimal((secs + 43_200) / 86_400) + " d"@
    }
}

/// Turns an age into a short phrase: `45 min`, `12 h`, `3 d`.
pub fn humanize_age(secs: i64) -> (text: String)
    requires
        secs <= i64::MAX - 43_200,
    ensures
        text@ == age_text(secs as int),
{
    if secs < 3600 {
        let mut text = int_text(secs / 60);
        text.append(" min");
        return text;
    }
    let hours: i64 = (secs + 1800) / 3600;
    if hours < 48 {
        let mut text = int_text(hours);
        text.append(" h");
        text
    } else {
        let mut text = int_text((secs + 43_200) / 86_400);
        text.append(" d");
        text
    }
}

// ---------------------------------------------------------------------------
// Metrics
// ---------------------------------------------------------------------------

/// A metric behind a reference, if there is one.
pub open spec fn metric_of(metric: Option<&Metric>) -> Option<Metric> {
    match metric {
        Some(m) => Some(*m),
        None => None,
    }
}

/// A percentage, or a dash for a window that has none.
pub open spec fn percent_text(percent: Option<Percent>) -> Seq<char> {
    match percent {
        Some(p) => rounded(p) + "%"@,
        None => "—"@,
    }
}

/// A percentage, or a dash for a window that has none.
pub fn percent_label(percent: Option<Percent>) -> (text: String)
    ensures
        text@ == percent_text(percent),
{
    match percent {
        Some(p) => {
            let mut text = p.rounded_text();
            text.append("%");
            text
        },
        None => "—".to_owned(),
    }
}

/// `Session: 42% · resets 18:00`.
pub open spec fn metric_text(
    label: Seq<char>,
    metric: Option<Metric>,
    now: Timestamp,
    tz: jiff::tz::TimeZone,
) -> Seq<char> {
    match metric {
        Some(m) => match m.resets_at {
            Some(at) => label + ": "@ + percent_text(m.percent) + " · resets "@ + reset_text(
                at,
                now,
                tz,
            ),
            None => label + ": "@ + percent_text(m.percent),
        },
        None => label + ": no data"@,
    }
}

/// A metric's line in the menu and in the tooltip.
pub fn metric_line(
    label: &str,
    metric: Option<&Metric>,
    now: Timestamp,
    tz: &jiff::tz::TimeZone,
) -> (text: String)
    ensures
        text@ == metric_text(label@, metric_of(metric), now, *tz),
{
    let mut text = label.to_owned();
    match metric {
        Some(metric) => {
            text.append(": ");
            let percent = percent_label(metric.percent);
            text.append(percent.as_str());
            if let Some(at) = metric.resets_at {
                text.append(" · resets ");
                let reset = humanize_reset(at, now, tz);
                text.append(reset.as_str());
            }
        },
        None => {
            text.append(": no data");
        },
    }
    text
}

/// `Session: 42% · resets 18:00`
pub fn session_line(metric: Option<&Metric>, now: Timestamp, tz: &jiff::tz::TimeZone) -> (text:
    String)
    ensures
        text@ == metric_text("Session"@, metric_of(metric), now, *tz),
{
    metric_line("Session", metric, now, tz)
}

/// `Weekly: 61% · resets Mon 12:59`
pub fn weekly_line(metric: Option<&Metric>, now: Timestamp, tz: &jiff::tz::TimeZone) -> (text:
    String)
    ensures
        text@ == metric_text("Weekly"@, metric_of(metric), now, *tz),
{
    metric_line("Weekly", metric, now, tz)
}

// ---------------------------------------------------------------------------
// Freshness
// ---------------------------------------------------------------------------

/// How long ago a fresh cache was written.
pub open spec fn updated_text(written_at: Option<Timestamp>, now: Timestamp) -> Seq<char> {
    match written_at {
        Some(at) => {
            let mins = age(at, now) / 60;
            if mins == 0 {
                "Updated just now"@
            } else if mins == 1 {
                "Updated 1 min ago"@
            } else if mins < 60 {
                "Updated "@ + decimal(mins) + " min ago"@
            } else {
                "Updated "@ + decimal(mins / 60) + " hr ago"@
            }
        },
        None => "Updated recently"@,
    }
}

/// How long ago a fresh cache was written.
pub fn updated_line(written_at: Option<Timestamp>, now: Timestamp) -> (text: String)
    ensures
        text@ == updated_text(written_at, now),
{
    let at = match written_at {
        Some(at) => at,
        None => {
            return "Updated recently".to_owned();
        },
    };
    let mins: i64 = age_secs(at, now) / 60;
    if mins == 0 {
        return "Updated just now".to_owned();
    }
    if mins == 1 {
        return "Updated 1 min ago".to_owned();
    }
    let mut text = "Updated ".to_owned();
    if mins < 60 {
        let count = int_text(mins);
        text.append(count.as_str());
        text.append(" min ago");
    } else {
        let count = int_text(mins / 60);
        text.append(count.as_str());
        text.append(" hr ago");
    }
    text
}

/// Freshness of the cache, or why there is nothing to show.
pub open spec fn status_text(snapshot: SnapshotView, now: Timestamp) -> Seq<char> {
    match snapshot.state {
        SnapshotState::Missing => "⚠ Hook not installed — no data"@,
        SnapshotState::Stale => match snapshot.written_at {
            Some(at) => "⚠ Last updated "@ + age_text(age(at, now)) + " ago"@,
            None => "⚠ Stale"@,
        },
        SnapshotState::Fresh => updated_text(snapshot.written_at, now),
    }
}

/// The third menu row: freshness of the cache, or an explanation of why there
/// is nothing to show. Every form tells an elapsed time, so the time zone has
/// no part in it.
pub fn status_line(snapshot: &UsageSnapshot, now: Timestamp, _tz: &jiff::tz::TimeZone) -> (text:
    String)
    ensures
        text@ == status_text(snapshot@, now),
{
    match snapshot.state {
        SnapshotState::Missing => "⚠ Hook not installed — no data".to_owned(),
        SnapshotState::Stale => match snapshot.written_at {
            Some(at) => {
                let mut text = "⚠ Last updated ".to_owned();
                let elapsed = humanize_age(age_secs(at, now));
                text.append(elapsed.as_str());
                text.append(" ago");
                text
            },
            None => "⚠ Stale".to_owned(),
        },
        SnapshotState::Fresh => updated_line(snapshot.written_at, now),
    }
}

/// Three lines, one below the other.
pub open spec fn three_lines(a: Seq<char>, b: Seq<char>, c: Seq<char>) -> Seq<char> {
    a + "\n"@ + b + "\n"@ + c
}

/// The tooltip: the three rows that the menu opens with.
pub fn tooltip_text(snapshot: &UsageSnapshot, now: Timestamp, tz: &jiff::tz::TimeZone) -> (text:
    String)
    ensures
        text@ == three_lines(
            metric_text("Session"@, snapshot@.session, now, *tz),
            metric_text("Weekly"@, snapshot@.weekly, now, *tz),
            status_text(snapshot@, now),
        ),
{
    let mut text = session_line(snapshot.session.as_ref(), now, tz);
    text.append("\n");
    let weekly = weekly_line(snapshot.weekly.as_ref(), now, tz);
    text.append(weekly.as_str());
    text.append("\n");
    let status = status_line(snapshot, now, tz);
    text.append(status.as_str());
    text
}

// ---------------------------------------------------------------------------
// Toasts
// ---------------------------------------------------------------------------

/// The percentage of a metric that may be absent.
pub open spec fn percent_of(metric: Option<Metric>) -> Option<Percent> {
    match metric {
        Some(m) => m.percent,
        None => None,
    }
}

/// `Session 7%`, or `Session —`.
pub open spec fn short_text(label: Seq<char>, metric: Option<Metric>) -> Seq<char> {
    label + " "@ + percent_text(percent_of(metric))
}

/// The compact form of a metric.
pub fn short_metric(label: &str, metric: Option<&Metric>) -> (text: String)
    ensures
        text@ == short_text(label@, metric_of(metric)),
{
    let mut text = label.to_owned();
    text.append(" ");
    let percent = match metric {
        Some(metric) => percent_label(metric.percent),
        None => percent_label(None),
    };
    text.append(percent.as_str());
    text
}

/// What is said after a refresh that the user asked for: that there is no
/// data, that something new was reported, or when the last report was.
pub open spec fn refresh_text(
    previous: SnapshotView,
    current: SnapshotView,
    now: Timestamp,
    tz: jiff::tz::TimeZone,
    assistant: Assistant,
) -> Seq<char> {
    if current.state == SnapshotState::Missing {
        "No data — install the statusline hook"@
    } else {
        match current.written_at {
            Some(at) => if current.written_at != previous.written_at {
                "Updated — "@ + short_text("Session"@, current.session) + ", "@ + short_text(
                    "Weekly"@,
                    current.weekly,
                )
            } else {
                "No new data — "@ + assistant.product() + " last reported at "@ + reset_text(
                    at,
                    now,
                    tz,
                )
            },
            None => "No new data — "@ + assistant.product() + " has not reported yet"@,
        }
    }
}

/// Body of the notification after a refresh that the user asked for. The time
/// of the report is the only evidence that something new was reported:
/// percentages can stay the same between two reports.
pub fn refresh_message(
    previous: &UsageSnapshot,
    current: &UsageSnapshot,
    now: Timestamp,
    tz: &jiff::tz::TimeZone,
    assistant: &Assistant,
) -> (text: String)
    ensures
        text@ == refresh_text(previous@, current@, now, *tz, *assistant),
{
    if let SnapshotState::Missing = current.state {
        return "No data — install the statusline hook".to_owned();
    }
    let at = match current.written_at {
        Some(at) => at,
        None => {
            let mut text = "No new data — ".to_owned();
            let product = assistant.product_name();
            text.append(product.as_str());
            text.append(" has not reported yet");
            return text;
        },
    };
    if !same_time(current.written_at, previous.written_at) {
        let mut text = "Updated — ".to_owned();
        let session = short_metric("Session", current.session.as_ref());
        text.append(session.as_str());
        text.append(", ");
        let weekly = short_metric("Weekly", current.weekly.as_ref());
        text.append(weekly.as_str());
        return text;
    }
    let mut text = "No new data — ".to_owned();
    let product = assistant.product_name();
    text.append(product.as_str());
    text.append(" last reported at ");
    let reported = humanize_reset(at, now, tz);
    text.append(reported.as_str());
    text
}

/// `resets at 03:50` on the same day, else `resets Tue 09:00`.
pub open spec fn reset_clause_text(
    at: Timestamp,
    now: Timestamp,
    tz: jiff::tz::TimeZone,
) -> Seq<char> {
    if local_time(at, tz).same_date(local_time(now, tz)) {
        "resets at "@ + reset_text(at, now, tz)
    } else {
        "resets "@ + reset_text(at, now, tz)
    }
}

/// When a window resets, as part of a sentence.
pub fn status_reset_clause(at: Timestamp, now: Timestamp, tz: &jiff::tz::TimeZone) -> (text:
    String)
    ensures
        text@ == reset_clause_text(at, now, *tz),
{
    let shown = civil_at(at, tz);
    let today = civil_at(now, tz);
    let same_day = shown.year == today.year && shown.month == today.month && shown.day == today.day;
    let mut text = if same_day {
        "resets at ".to_owned()
    } else {
        "resets ".to_owned()
    };
    let time = humanize_reset(at, now, tz);
    text.append(time.as_str());
    text
}

/// `32% of your 5-hour session (resets at 03:50)`, where the percentage is
/// known.
pub open spec fn clause_text(
    noun: Seq<char>,
    metric: Option<Metric>,
    now: Timestamp,
    tz: jiff::tz::TimeZone,
) -> Option<Seq<char>> {
    match percent_of(metric) {
        Some(percent) => {
            let base = rounded(percent) + "% of your "@ + noun;
            match metric->0.resets_at {
                Some(at) => Some(base + " ("@ + reset_clause_text(at, now, tz) + ")"@),
                None => Some(base),
            }
        },
        None => None,
    }
}

/// One metric's part of the status sentence; none when its percentage is not
/// known.
pub fn status_clause(
    noun: &str,
    metric: Option<&Metric>,
    now: Timestamp,
    tz: &jiff::tz::TimeZone,
) -> (clause: Option<String>)
    ensures
        match clause_text(noun@, metric_of(metric), now, *tz) {
            Some(text) => clause matches Some(c) && c@ == text,
            None => clause is None,
        },
{
    let metric = match metric {
        Some(metric) => metric,
        None => {
            return None;
        },
    };
    let percent = match metric.percent {
        Some(percent) => percent,
        None => {
            return None;
        },
    };
    let mut text = percent.rounded_text();
    text.append("% of your ");
    text.append(noun);
    if let Some(at) = metric.resets_at {
        text.append(" (");
        let reset = status_reset_clause(at, now, tz);
        text.append(reset.as_str());
        text.append(")");
    }
    Some(text)
}

/// The sentence that puts the two metrics together.
pub open spec fn usage_sentence(session: Option<Seq<char>>, weekly: Option<Seq<char>>) -> Seq<char> {
    match (session, weekly) {
        (Some(s), Some(w)) => "You've used "@ + s + " and "@ + w + "."@,
        (Some(s), None) => "You've used "@ + s + "; weekly usage is unknown."@,
        (None, Some(w)) => "You've used "@ + w + "; session usage is unknown."@,
        (None, None) => "No usage data reported."@,
    }
}

/// What is said on a click: usage in a sentence, and its age when it is stale.
pub open spec fn status_message_text(
    snapshot: SnapshotView,
    now: Timestamp,
    tz: jiff::tz::TimeZone,
) -> Seq<char> {
    if snapshot.state == SnapshotState::Missing {
        "No usage data — install the statusline hook."@
    } else {
        let sentence = usage_sentence(
            clause_text("5-hour session"@, snapshot.session, now, tz),
            clause_text("weekly limit"@, snapshot.weekly, now, tz),
        );
        match (snapshot.state, snapshot.written_at) {
            (SnapshotState::Stale, Some(at)) => sentence + " Last updated "@ + age_text(
                age(at, now),
            ) + " ago."@,
            _ => sentence,
        }
    }
}

/// Body of the notification shown after a click: current usage in words.
pub fn status_message(snapshot: &UsageSnapshot, now: Timestamp, tz: &jiff::tz::TimeZone) -> (text:
    String)
    ensures
        text@ == status_message_text(snapshot@, now, *tz),
{
    if let SnapshotState::Missing = snapshot.state {
        return "No usage data — install the statusline hook.".to_owned();
    }
    let session = status_clause("5-hour session", snapshot.session.as_ref(), now, tz);
    let weekly = status_clause("weekly limit", snapshot.weekly.as_ref(), now, tz);
    let mut text: String;
    match (session, weekly) {
        (Some(session), Some(weekly)) => {
            text = "You've used ".to_owned();
            text.append(session.as_str());
            text.append(" and ");
            text.append(weekly.as_str());
            text.append(".");
        },
        (Some(session), None) => {
            text = "You've used ".to_owned();
            text.append(session.as_str());
            text.append("; weekly usage is unknown.");
        },
        (None, Some(weekly)) => {
            text = "You've used ".to_owned();
            text.append(weekly.as_str());
            text.append("; session usage is unknown.");
        },
        (None, None) => {
            text = "No usage data reported.".to_owned();
        },
    }
    if let SnapshotState::Stale = snapshot.state {
        if let Some(at) = snapshot.written_at {
            text.append(" Last updated ");
            let elapsed = humanize_age(age_secs(at, now));
            text.append(elapsed.as_str());
            text.append(" ago.");
        }
    }
    text
}

// ---------------------------------------------------------------------------
// Decisions
// ---------------------------------------------------------------------------

/// Whether the menu should offer the `Install hook` item: only while there is
/// no data at all.
pub fn shows_install_item(state: &SnapshotState) -> (shows: bool)
    ensures
        shows == (*state == SnapshotState::Missing),
{
    match state {
        SnapshotState::Missing => true,
        _ => false,
    }
}

/// Two percentages that are both absent or of one value.
pub open spec fn same_percent(a: Option<Percent>, b: Option<Percent>) -> bool {
    match (a, b) {
        (Some(a), Some(b)) => a.value() == b.value(),
        (None, None) => true,
        _ => false,
    }
}

/// Two metrics that say the same.
pub open spec fn same_metric(a: Option<Metric>, b: Option<Metric>) -> bool {
    match (a, b) {
        (Some(a), Some(b)) => same_percent(a.percent, b.percent) && a.resets_at == b.resets_at,
        (None, None) => true,
        _ => false,
    }
}

/// Two snapshots that differ in what is shown.
pub open spec fn differs(a: SnapshotView, b: SnapshotView) -> bool {
    a.state != b.state || a.written_at != b.written_at || !same_metric(a.session, b.session)
        || !same_metric(a.weekly, b.weekly)
}

fn metrics_agree(a: Option<Metric>, b: Option<Metric>) -> (agree: bool)
    ensures
        agree == same_metric(a, b),
{
    match (a, b) {
        (Some(a), Some(b)) => {
            let percent = match (a.percent, b.percent) {
                (Some(p), Some(q)) => p.same(q),
                (None, None) => true,
                _ => false,
            };
            percent && same_time(a.resets_at, b.resets_at)
        },
        (None, None) => true,
        _ => false,
    }
}

/// True when two snapshots differ in anything that the tray displays.
pub fn snapshot_changed(a: &UsageSnapshot, b: &UsageSnapshot) -> (changed: bool)
    ensures
        changed == differs(a@, b@),
{
    let same_state = match (a.state, b.state) {
        (SnapshotState::Fresh, SnapshotState::Fresh) => true,
        (SnapshotState::Stale, SnapshotState::Stale) => true,
        (SnapshotState::Missing, SnapshotState::Missing) => true,
        _ => false,
    };
    !same_state || !same_time(a.written_at, b.written_at) || !metrics_agree(a.session, b.session)
        || !metrics_agree(a.weekly, b.weekly)
}

} // verus!
