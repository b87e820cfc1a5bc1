//! Laws of the texts: times, ages, percentages, and the sentences made of them.

use vstd::prelude::*;
use vstd::string::*;

use crate::assistant::Assistant;
use crate::percent::{magnitude, nearest, negative, one, rounded, Percent};
use crate::source::{Metric, SnapshotState, SnapshotView};
use crate::text::{decimal, digit, digits};
use crate::time::{day_number, leap, local_time, month_days, shows, Civil, Timestamp};
use crate::ui::labels::{
    age, age_text, clause_text, clock_text, differs, metric_text, month_name, percent_text,
    refresh_text, reset_clause_text, reset_text, short_text, status_message_text, status_text,
    three_lines, time_text, two_digits, updated_text, usage_sentence, weekday_name,
};

verus! {

// ---------------------------------------------------------------------------
// The calendar
// ---------------------------------------------------------------------------

/// The seven weekdays have their names, in their order from Monday.
pub proof fn weekdays_are_in_order()
    ensures
        weekday_name(0) == "Mon"@,
        weekday_name(1) == "Tue"@,
        weekday_name(2) == "Wed"@,
        weekday_name(3) == "Thu"@,
        weekday_name(4) == "Fri"@,
        weekday_name(5) == "Sat"@,
        weekday_name(6) == "Sun"@,
{
}

/// No two weekdays are called the same, and every name has three letters.
pub proof fn weekdays_are_told_apart(a: int, b: int)
    requires
        0 <= a <= 6,
        0 <= b <= 6,
    ensures
        weekday_name(a) == weekday_name(b) ==> a == b,
        weekday_name(a).len() == 3,
{
    reveal_strlit("Mon");
    reveal_strlit("Tue");
    reveal_strlit("Wed");
    reveal_strlit("Thu");
    reveal_strlit("Fri");
    reveal_strlit("Sat");
    reveal_strlit("Sun");
    let (x, y) = (weekday_name(a), weekday_name(b));
    assert(x.len() == 3 && y.len() == 3);
    if a != b {
        assert(x[0] != y[0] || x[1] != y[1] || x[2] != y[2]);
    }
}

/// The twelve months have their names, in their order from January.
pub proof fn months_are_in_order()
    ensures
        month_name(1) == "Jan"@,
        month_name(2) == "Feb"@,
        month_name(3) == "Mar"@,
        month_name(4) == "Apr"@,
        month_name(5) == "May"@,
        month_name(6) == "Jun"@,
        month_name(7) == "Jul"@,
        month_name(8) == "Aug"@,
        month_name(9) == "Sep"@,
        month_name(10) == "Oct"@,
        month_name(11) == "Nov"@,
        month_name(12) == "Dec"@,
{
}

/// No two months are called the same, and every name has three letters.
pub proof fn months_are_told_apart(a: int, b: int)
    requires
        1 <= a <= 12,
        1 <= b <= 12,
    ensures
        month_name(a) == month_name(b) ==> a == b,
        month_name(a).len() == 3,
{
    reveal_strlit("Jan");
    reveal_strlit("Feb");
    reveal_strlit("Mar");
    reveal_strlit("Apr");
    reveal_strlit("May");
    reveal_strlit("Jun");
    reveal_strlit("Jul");
    reveal_strlit("Aug");
    reveal_strlit("Sep");
    reveal_strlit("Oct");
    reveal_strlit("Nov");
    reveal_strlit("Dec");
    let (x, y) = (month_name(a), month_name(b));
    assert(x.len() == 3 && y.len() == 3);
    if a != b {
        assert(x[0] != y[0] || x[1] != y[1] || x[2] != y[2]);
    }
}

/// Days are counted one by one: the next day of a month, the first of the next
/// month after the last of one, and New Year after the last of December. The
/// count starts with the first of January 1970.
pub proof fn days_are_counted_one_by_one(year: int, month: int, day: int)
    requires
        1 <= month <= 12,
    ensures
        day_number(year, month, day + 1) == day_number(year, month, day) + 1,
        month < 12 ==> day_number(year, month + 1, 1) == day_number(
            year,
            month,
            month_days(year, month),
        ) + 1,
        day_number(year + 1, 1, 1) == day_number(year, 12, 31) + 1,
        day_number(1970, 1, 1) == 0,
{
    crate::time::year_is_its_months(year);
    crate::time::year_lengths(year);
    reveal_with_fuel(crate::time::days_before_month, 2);
}

/// Months have 30 days or 31, but for February, which has 29 in a leap year and
/// 28 in any other. Years that four divides are leap years, but for centuries
/// that 400 does not divide.
pub proof fn months_have_their_lengths(year: int, month: int)
    requires
        1 <= month <= 12,
    ensures
        month_days(year, month) == 31 <==> (month == 1 || month == 3 || month == 5 || month == 7
            || month == 8 || month == 10 || month == 12),
        month_days(year, month) == 30 <==> (month == 4 || month == 6 || month == 9 || month == 11),
        month_days(year, 2) == (if leap(year) {
            29int
        } else {
            28
        }),
        year % 4 != 0 ==> !leap(year),
        year % 4 == 0 && year % 100 != 0 ==> leap(year),
        year % 100 == 0 && year % 400 != 0 ==> !leap(year),
        year % 400 == 0 ==> leap(year),
{
    crate::time::centuries_divide(year);
}

// ---------------------------------------------------------------------------
// Times
// ---------------------------------------------------------------------------

/// The number that two digits spell.
pub open spec fn spelled_by(a: char, b: char) -> int {
    10 * (a as int - '0' as int) + (b as int - '0' as int)
}

/// Two digits spell the number that they stand for.
pub proof fn two_digits_spell(n: int)
    requires
        0 <= n < 100,
    ensures
        two_digits(n).len() == 2,
        spelled_by(two_digits(n)[0], two_digits(n)[1]) == n,
        '0' <= two_digits(n)[0] <= '9',
        '0' <= two_digits(n)[1] <= '9',
{
    digits_are_characters((n / 10) as nat);
    digits_are_characters((n % 10) as nat);
}

/// The ten digits are the characters from `0` to `9`.
pub proof fn digits_are_characters(d: nat)
    requires
        d < 10,
    ensures
        digit(d) as int == '0' as int + d,
        '0' <= digit(d) <= '9',
{
}

/// A clock shows the hour and the minute, each in two digits, with a colon
/// between them.
pub proof fn clock_shows_hour_and_minute(at: Civil)
    requires
        at.valid(),
    ensures
        clock_text(at).len() == 5,
        clock_text(at)[2] == ':',
        spelled_by(clock_text(at)[0], clock_text(at)[1]) == at.hour,
        spelled_by(clock_text(at)[3], clock_text(at)[4]) == at.minute,
{
    reveal_strlit(":");
    two_digits_spell(at.hour as int);
    two_digits_spell(at.minute as int);
}

/// A time is called by the clock alone on the same date; with the name of its
/// weekday in front on another date at most six days away; and else with the
/// name of its month and its day in front. It always ends in what the clock
/// shows.
pub proof fn time_is_called_by_its_distance(at: Civil, now: Civil)
    requires
        at.valid(),
        now.valid(),
    ensures
        ({
            let text = time_text(at, now);
            let gap = at.days() - now.days();
            let today = at.year == now.year && at.month == now.month && at.day == now.day;
            &&& text.skip(text.len() - 5) == clock_text(at)
            &&& text.len() == 5 <==> today
            &&& text.len() == 9 <==> !today && -6 <= gap <= 6
            &&& text.len() == 12 <==> !today && !(-6 <= gap <= 6)
            &&& text.len() == 9 ==> text.take(3) == weekday_name(at.weekday as int) && text[3]
                == ' '
            &&& text.len() == 12 ==> {
                &&& text.take(3) == month_name(at.month as int)
                &&& text[3] == ' '
                &&& spelled_by(text[4], text[5]) == at.day
                &&& text[6] == ' '
            }
        }),
{
    reveal_strlit(" ");
    clock_shows_hour_and_minute(at);
    weekdays_are_told_apart(at.weekday as int, 0);
    months_are_told_apart(at.month as int, 1);
    two_digits_spell(at.day as int);
    let text = time_text(at, now);
    let today = at.year == now.year && at.month == now.month && at.day == now.day;
    let gap = at.days() - now.days();
    let clock = clock_text(at);
    if today {
        assert(text.skip(0) == text);
    } else if -6 <= gap <= 6 {
        let name = weekday_name(at.weekday as int);
        assert(text == name + " "@ + clock);
        assert(text.take(3) == name);
        assert(text.skip(4) == clock);
    } else {
        let name = month_name(at.month as int);
        assert(text.take(3) == name);
        assert(text.skip(7) == clock);
    }
}

/// Two times on different dates within six days of now are never called the
/// same, where their weekdays differ.
pub proof fn times_in_a_week_are_told_apart(a: Civil, b: Civil, now: Civil)
    requires
        a.valid(),
        b.valid(),
        now.valid(),
        a.weekday != b.weekday,
        time_text(a, now).len() == 9,
    ensures
        time_text(a, now) != time_text(b, now),
{
    time_is_called_by_its_distance(a, now);
    time_is_called_by_its_distance(b, now);
    weekdays_are_told_apart(a.weekday as int, b.weekday as int);
}

/// Two dates less than a week apart are never called by one weekday.
pub proof fn dates_in_a_week_are_told_apart(a: Civil, b: Civil, x: int, y: int)
    requires
        shows(a, x),
        shows(b, y),
        a.days() != b.days(),
        -7 < a.days() - b.days() < 7,
    ensures
        weekday_name(a.weekday as int) != weekday_name(b.weekday as int),
{
    weekdays_are_told_apart(a.weekday as int, b.weekday as int);
}

/// The first of January 1970 was a Thursday, and a date has the weekday of every
/// date that is whole weeks away.
pub proof fn weekdays_come_back(a: Civil, b: Civil, x: int, y: int)
    requires
        shows(a, x),
        shows(b, y),
    ensures
        a.year == 1970 && a.month == 1 && a.day == 1 ==> weekday_name(a.weekday as int) == "Thu"@,
        (a.days() - b.days()) % 7 == 0 ==> weekday_name(a.weekday as int) == weekday_name(
            b.weekday as int,
        ),
{
    days_are_counted_one_by_one(1970, 1, 1);
}

/// What is shown is the time of day: so many hours and minutes after midnight of
/// its own date.
pub proof fn clock_follows_midnight(civil: Civil, local: int)
    requires
        shows(civil, local),
    ensures
        0 <= local - (civil.days() * 86_400 + civil.hour * 3600 + civil.minute * 60) < 60,
        civil.valid(),
{
}

/// The day after a day has the next weekday's name, and Monday comes after
/// Sunday.
pub proof fn weekdays_follow_each_other(a: Civil, b: Civil, x: int, y: int)
    requires
        shows(a, x),
        shows(b, y),
        b.days() == a.days() + 1,
    ensures
        b.weekday == (if a.weekday == 6 {
            0int
        } else {
            a.weekday + 1
        }),
        weekday_name(a.weekday as int) == "Sun"@ ==> weekday_name(b.weekday as int) == "Mon"@,
        weekday_name(a.weekday as int) == "Mon"@ ==> weekday_name(b.weekday as int) == "Tue"@,
        weekday_name(a.weekday as int) == "Tue"@ ==> weekday_name(b.weekday as int) == "Wed"@,
        weekday_name(a.weekday as int) == "Wed"@ ==> weekday_name(b.weekday as int) == "Thu"@,
        weekday_name(a.weekday as int) == "Thu"@ ==> weekday_name(b.weekday as int) == "Fri"@,
        weekday_name(a.weekday as int) == "Fri"@ ==> weekday_name(b.weekday as int) == "Sat"@,
        weekday_name(a.weekday as int) == "Sat"@ ==> weekday_name(b.weekday as int) == "Sun"@,
{
    weekdays_are_told_apart(a.weekday as int, 0);
    weekdays_are_told_apart(a.weekday as int, 1);
    weekdays_are_told_apart(a.weekday as int, 2);
    weekdays_are_told_apart(a.weekday as int, 3);
    weekdays_are_told_apart(a.weekday as int, 4);
    weekdays_are_told_apart(a.weekday as int, 5);
    weekdays_are_told_apart(a.weekday as int, 6);
}

/// A time in a zone is called by what the clocks there show.
pub proof fn time_is_called_by_the_local_clock(
    at: Timestamp,
    now: Timestamp,
    tz: jiff::tz::TimeZone,
)
    ensures
        reset_text(at, now, tz) == time_text(local_time(at, tz), local_time(now, tz)),
{
}

// ---------------------------------------------------------------------------
// Ages
// ---------------------------------------------------------------------------

/// An age is the time since, and none for a time yet to come.
pub proof fn age_is_never_negative(at: Timestamp, now: Timestamp)
    ensures
        age(at, now) >= 0,
        now.secs() >= at.secs() ==> at.secs() + age(at, now) == now.secs(),
        now.secs() < at.secs() ==> age(at, now) == 0,
{
}

/// Whether `text` says that something is `count` of a unit old.
pub open spec fn says(text: Seq<char>, count: int, unit: Seq<char>) -> bool {
    text == decimal(count) + unit
}

/// An age is told in whole minutes below an hour, in hours to the nearest below
/// two days, and in days to the nearest from there on.
pub proof fn age_is_told_to_the_nearest(secs: int)
    requires
        secs >= 0,
    ensures
        secs < 3600 ==> exists|n: int| #[trigger]
            says(age_text(secs), n, " min"@) && n * 60 <= secs < n * 60 + 60,
        3600 <= secs < 171_000 ==> exists|n: int| #[trigger]
            says(age_text(secs), n, " h"@) && n * 3600 - 1800 <= secs < n * 3600 + 1800 && 1 <= n
                < 48,
        secs >= 171_000 ==> exists|n: int| #[trigger]
            says(age_text(secs), n, " d"@) && n * 86_400 - 43_200 <= secs < n * 86_400 + 43_200 && n
                >= 2,
{
    if secs < 3600 {
        assert(says(age_text(secs), secs / 60, " min"@));
    } else if secs < 171_000 {
        assert(says(age_text(secs), (secs + 1800) / 3600, " h"@));
    } else {
        assert(says(age_text(secs), (secs + 43_200) / 86_400, " d"@));
    }
}

/// A fresh reading says how long ago it was: just now within a minute, then in
/// whole minutes, and in whole hours from an hour on. One without a time says
/// that it was recent.
pub proof fn update_is_told_by_its_age(at: Timestamp, now: Timestamp)
    ensures
        updated_text(None, now) == "Updated recently"@,
        age(at, now) < 60 ==> updated_text(Some(at), now) == "Updated just now"@,
        60 <= age(at, now) < 120 ==> updated_text(Some(at), now) == "Updated 1 min ago"@,
        120 <= age(at, now) < 3600 ==> exists|n: int| #[trigger]
            says(updated_text(Some(at), now).skip(8), n, " min ago"@) && n * 60 <= age(at, now) < n
                * 60 + 60,
        age(at, now) >= 3600 ==> exists|n: int| #[trigger]
            says(updated_text(Some(at), now).skip(8), n, " hr ago"@) && n * 3600 <= age(at, now) < n
                * 3600 + 3600,
        updated_text(Some(at), now).take(8) == "Updated "@,
{
    reveal_strlit("Updated ");
    reveal_strlit("Updated just now");
    reveal_strlit("Updated 1 min ago");
    let a = age(at, now);
    let text = updated_text(Some(at), now);
    assert("Updated "@.len() == 8);
    if a < 60 {
        assert(text.take(8) =~= "Updated "@);
    } else if a < 120 {
        assert(text.take(8) =~= "Updated "@);
    } else if a < 3600 {
        let n = a / 60;
        assert(text.take(8) =~= "Updated "@);
        assert(text.skip(8) =~= decimal(n) + " min ago"@);
        assert(says(text.skip(8), n, " min ago"@));
    } else {
        let n = a / 60 / 60;
        assert(a / 60 / 60 == a / 3600);
        assert(text.take(8) =~= "Updated "@);
        assert(text.skip(8) =~= decimal(n) + " hr ago"@);
        assert(says(text.skip(8), n, " hr ago"@));
    }
}

// ---------------------------------------------------------------------------
// Percentages and metrics
// ---------------------------------------------------------------------------

/// A percentage is shown as the nearest whole number, halves going away from
/// zero, with a minus sign exactly where it has one, and a percent sign.
pub proof fn percentage_is_shown_to_the_nearest(p: Percent)
    ensures
        ({
            let whole = nearest(magnitude(p@));
            &&& 2 * whole * one() <= 2 * magnitude(p@) + one()
            &&& 2 * magnitude(p@) < 2 * whole * one() + one()
            &&& whole < 0x0020_0000_0000_0000 ==> rounded(p) == (if negative(p@) {
                seq!['-']
            } else {
                seq![]
            }) + digits(whole)
        }),
        percent_text(Some(p)).len() > 0,
        percent_text(Some(p)).last() == '%',
        percent_text(Some(p)).drop_last() == rounded(p),
        percent_text(None) == "—"@,
{
    reveal_strlit("%");
    vstd::arithmetic::power2::lemma_pow2_pos(1074);
    let u = one() as int;
    let m = magnitude(p@) as int;
    let n = 2 * m + u;
    let d = 2 * u;
    vstd::arithmetic::div_mod::lemma_fundamental_div_mod(n, d);
    let q = n / d;
    assert(d * q == 2 * q * u) by (nonlinear_arith)
        requires
            d == 2 * u,
    ;
    assert(Seq::<char>::empty() + digits(nearest(magnitude(p@))) == digits(
        nearest(magnitude(p@)),
    ));
    assert(percent_text(Some(p)).drop_last() =~= rounded(p));
}

/// A metric's line opens with its label and a colon. Where there is no window it
/// says so; else the percentage follows, or a dash; and where the reset is known
/// the line closes with it.
pub proof fn metric_line_tells_the_window(
    label: Seq<char>,
    metric: Metric,
    now: Timestamp,
    tz: jiff::tz::TimeZone,
)
    ensures
        metric_text(label, None, now, tz) == label + ": no data"@,
        ({
            let head = label + ": "@ + percent_text(metric.percent);
            let text = metric_text(label, Some(metric), now, tz);
            &&& text.take(head.len() as int) == head
            &&& metric.resets_at is None ==> text.len() == head.len()
            &&& metric.resets_at matches Some(at) ==> text.skip(head.len() as int)
                == " · resets "@ + reset_text(at, now, tz)
        }),
{
    let head = label + ": "@ + percent_text(metric.percent);
    let text = metric_text(label, Some(metric), now, tz);
    assert(text.take(head.len() as int) =~= head);
    if let Some(at) = metric.resets_at {
        assert(text.skip(head.len() as int) =~= " · resets "@ + reset_text(at, now, tz));
    }
}

/// The compact form is the label, a space and the percentage, or a dash where
/// none is known.
pub proof fn compact_form_tells_the_percentage(label: Seq<char>, metric: Metric)
    ensures
        short_text(label, None) == label + " "@ + "—"@,
        short_text(label, Some(metric)) == label + " "@ + percent_text(metric.percent),
{
}

// ---------------------------------------------------------------------------
// Sentences
// ---------------------------------------------------------------------------

/// The status row warns where there is no data and where it is stale, and then
/// tells its age; a fresh reading tells when it was.
pub proof fn status_row_tells_freshness(snapshot: SnapshotView, now: Timestamp)
    ensures
        snapshot.state == SnapshotState::Missing ==> status_text(snapshot, now)
            == "⚠ Hook not installed — no data"@,
        snapshot.state == SnapshotState::Stale ==> (snapshot.written_at matches Some(at)
            ==> status_text(snapshot, now) == "⚠ Last updated "@ + age_text(age(at, now))
            + " ago"@),
        snapshot.state == SnapshotState::Stale && snapshot.written_at is None ==> status_text(
            snapshot,
            now,
        ) == "⚠ Stale"@,
        snapshot.state == SnapshotState::Fresh ==> status_text(snapshot, now) == updated_text(
            snapshot.written_at,
            now,
        ),
{
}

/// Three lines stand one below the other: each is followed by a line end but
/// the last.
pub proof fn lines_stand_in_order(a: Seq<char>, b: Seq<char>, c: Seq<char>)
    ensures
        three_lines(a, b, c).len() == a.len() + b.len() + c.len() + 2,
        three_lines(a, b, c).take(a.len() as int) == a,
        three_lines(a, b, c)[a.len() as int] == '\n',
        three_lines(a, b, c).subrange(a.len() as int + 1, a.len() as int + 1 + b.len()) == b,
        three_lines(a, b, c)[a.len() as int + 1 + b.len()] == '\n',
        three_lines(a, b, c).skip(a.len() as int + b.len() + 2) == c,
{
    reveal_strlit("\n");
    let t = three_lines(a, b, c);
    assert(t.take(a.len() as int) =~= a);
    assert(t.subrange(a.len() as int + 1, a.len() as int + 1 + b.len()) =~= b);
    assert(t.skip(a.len() as int + b.len() + 2) =~= c);
}

/// A reset in a sentence is announced with `at` on the same date, and without on
/// another.
pub proof fn reset_clause_fits_the_date(at: Timestamp, now: Timestamp, tz: jiff::tz::TimeZone)
    ensures
        ({
            let (there, here) = (local_time(at, tz), local_time(now, tz));
            let today = there.year == here.year && there.month == here.month && there.day
                == here.day;
            &&& today ==> reset_clause_text(at, now, tz) == "resets at "@ + reset_text(at, now, tz)
            &&& !today ==> reset_clause_text(at, now, tz) == "resets "@ + reset_text(at, now, tz)
        }),
{
}

/// A window is part of the sentence exactly where its percentage is known; it
/// then opens with the percentage and what it is of, and a known reset follows
/// in brackets.
pub proof fn clause_tells_the_window(
    noun: Seq<char>,
    metric: Metric,
    now: Timestamp,
    tz: jiff::tz::TimeZone,
)
    ensures
        clause_text(noun, None, now, tz) is None,
        clause_text(noun, Some(metric), now, tz) is Some <==> metric.percent is Some,
        metric.percent matches Some(p) ==> ({
            let head = rounded(p) + "% of your "@ + noun;
            let text = clause_text(noun, Some(metric), now, tz)->0;
            &&& text.take(head.len() as int) == head
            &&& metric.resets_at is None ==> text.len() == head.len()
            &&& metric.resets_at matches Some(at) ==> text.skip(head.len() as int) == " ("@
                + reset_clause_text(at, now, tz) + ")"@
        }),
{
    if let Some(p) = metric.percent {
        let head = rounded(p) + "% of your "@ + noun;
        let text = clause_text(noun, Some(metric), now, tz)->0;
        assert(text.take(head.len() as int) =~= head);
        if let Some(at) = metric.resets_at {
            assert(text.skip(head.len() as int) =~= " ("@ + reset_clause_text(at, now, tz)
                + ")"@);
        }
    }
}

/// The sentence tells the session first and the week second, and says of the
/// one that is not known that it is not.
pub proof fn sentence_tells_both_windows(s: Seq<char>, w: Seq<char>)
    ensures
        usage_sentence(Some(s), Some(w)) == "You've used "@ + s + " and "@ + w + "."@,
        usage_sentence(Some(s), None) == "You've used "@ + s + "; weekly usage is unknown."@,
        usage_sentence(None, Some(w)) == "You've used "@ + w + "; session usage is unknown."@,
        usage_sentence(None, None) == "No usage data reported."@,
{
}

/// The answer to a click says that there is no data where there is none; else it
/// is the sentence, and for a stale reading its age behind it.
pub proof fn click_is_answered_in_a_sentence(
    snapshot: SnapshotView,
    now: Timestamp,
    tz: jiff::tz::TimeZone,
)
    ensures
        snapshot.state == SnapshotState::Missing ==> status_message_text(snapshot, now, tz)
            == "No usage data — install the statusline hook."@,
        snapshot.state != SnapshotState::Missing ==> ({
            let sentence = usage_sentence(
                clause_text("5-hour session"@, snapshot.session, now, tz),
                clause_text("weekly limit"@, snapshot.weekly, now, tz),
            );
            let text = status_message_text(snapshot, now, tz);
            &&& text.take(sentence.len() as int) == sentence
            &&& snapshot.state == SnapshotState::Fresh || snapshot.written_at is None ==> text.len()
                == sentence.len()
            &&& snapshot.state == SnapshotState::Stale ==> (snapshot.written_at matches Some(at)
                ==> text.skip(sentence.len() as int) == " Last updated "@ + age_text(age(at, now))
                + " ago."@)
        }),
{
    let sentence = usage_sentence(
        clause_text("5-hour session"@, snapshot.session, now, tz),
        clause_text("weekly limit"@, snapshot.weekly, now, tz),
    );
    let text = status_message_text(snapshot, now, tz);
    if snapshot.state != SnapshotState::Missing {
        assert(text.take(sentence.len() as int) =~= sentence);
        if snapshot.state == SnapshotState::Stale {
            if let Some(at) = snapshot.written_at {
                assert(text.skip(sentence.len() as int) =~= " Last updated "@ + age_text(
                    age(at, now),
                ) + " ago."@);
            }
        }
    }
}

/// A refresh says that there is something new exactly where the time of the
/// report is known and is another than before, and then tells both percentages;
/// where it is the same it tells that time.
pub proof fn refresh_tells_what_is_new(
    previous: SnapshotView,
    current: SnapshotView,
    now: Timestamp,
    tz: jiff::tz::TimeZone,
    assistant: Assistant,
)
    ensures
        ({
            let text = refresh_text(previous, current, now, tz, assistant);
            &&& current.state == SnapshotState::Missing ==> text
                == "No data — install the statusline hook"@
            &&& current.state != SnapshotState::Missing ==> {
                &&& current.written_at is None ==> text == "No new data — "@ + assistant.product()
                    + " has not reported yet"@
                &&& current.written_at matches Some(at) ==> {
                    &&& previous.written_at != Some(at) ==> text == "Updated — "@ + short_text(
                        "Session"@,
                        current.session,
                    ) + ", "@ + short_text("Weekly"@, current.weekly)
                    &&& previous.written_at == Some(at) ==> text == "No new data — "@
                        + assistant.product() + " last reported at "@ + reset_text(at, now, tz)
                }
            }
        }),
{
}

/// The value of a percentage that may be absent.
pub open spec fn value_of(metric: Option<Metric>) -> Option<int> {
    match metric {
        Some(m) => match m.percent {
            Some(p) => Some(p.value()),
            None => None,
        },
        None => None,
    }
}

/// The reset of a window that may be absent.
pub open spec fn reset_of(metric: Option<Metric>) -> Option<Timestamp> {
    match metric {
        Some(m) => m.resets_at,
        None => None,
    }
}

/// A reading counts as changed exactly where its freshness, its time, or the
/// presence, the percentage or the reset of a window is another. So a reading
/// never differs from itself, and never from one that it does not differ from.
pub proof fn change_is_what_is_shown(a: SnapshotView, b: SnapshotView)
    ensures
        !differs(a, b) <==> {
            &&& a.state == b.state
            &&& a.written_at == b.written_at
            &&& (a.session is Some) == (b.session is Some)
            &&& value_of(a.session) == value_of(b.session)
            &&& reset_of(a.session) == reset_of(b.session)
            &&& (a.weekly is Some) == (b.weekly is Some)
            &&& value_of(a.weekly) == value_of(b.weekly)
            &&& reset_of(a.weekly) == reset_of(b.weekly)
        },
        !differs(a, a),
        differs(a, b) == differs(b, a),
{
}

} // verus!
