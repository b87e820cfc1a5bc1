//! Points in time, and what a clock on the wall shows at them.

use vstd::prelude::*;
use vstd::arithmetic::div_mod::{lemma_fundamental_div_mod, lemma_fundamental_div_mod_converse};

verus! {

/// The earliest second a timestamp can have.
pub const MIN_SECOND: i64 = -377705023201;

/// The latest second a timestamp can have.
pub const MAX_SECOND: i64 = 253402207200;

/// A point in time, with a second and a nanosecond counted from the Unix epoch
/// and never of opposite sign: the range and the form of `jiff::Timestamp`.
#[derive(Clone, Copy, Debug, PartialEq, Eq, Structural)]
pub struct Timestamp {
    second: i64,
    nanosecond: i32,
}

impl Timestamp {
    #[verifier::type_invariant]
    spec fn in_range(self) -> bool {
        &&& MIN_SECOND <= self.second <= MAX_SECOND
        &&& -1_000_000_000 < self.nanosecond < 1_000_000_000
        &&& self.second > 0 ==> self.nanosecond >= 0
        &&& self.second < 0 ==> self.nanosecond <= 0
        &&& self.second == MIN_SECOND ==> self.nanosecond == 0
    }

    /// The timestamp a number of nanoseconds after the Unix epoch.
    pub closed spec fn instant(nanos: int) -> Timestamp {
        if nanos >= 0 {
            Timestamp {
                second: (nanos / 1_000_000_000) as i64,
                nanosecond: (nanos % 1_000_000_000) as i32,
            }
        } else {
            Timestamp {
                second: (-((-nanos) / 1_000_000_000)) as i64,
                nanosecond: (-((-nanos) % 1_000_000_000)) as i32,
            }
        }
    }

    /// Nanoseconds since the Unix epoch.
    pub closed spec fn nanos(self) -> int {
        self.second * 1_000_000_000 + self.nanosecond
    }

    /// Whole seconds since the Unix epoch, the fraction dropped.
    pub closed spec fn secs(self) -> int {
        self.second as int
    }

    /// The timestamp a number of seconds after the Unix epoch, where that is
    /// in range.
    pub open spec fn at_second(second: int) -> Option<Timestamp> {
        if MIN_SECOND <= second <= MAX_SECOND {
            Some(Timestamp::instant(second * 1_000_000_000))
        } else {
            None
        }
    }

    /// The timestamp a number of milliseconds after the Unix epoch, where that
    /// is in range.
    pub open spec fn at_millisecond(millisecond: int) -> Option<Timestamp> {
        if MIN_SECOND * 1000 <= millisecond <= MAX_SECOND * 1000 {
            Some(Timestamp::instant(millisecond * 1_000_000))
        } else {
            None
        }
    }

    /// Within range, a timestamp is where it was made to be.
    pub proof fn instant_is_there(nanos: int)
        requires
            MIN_SECOND * 1_000_000_000 <= nanos <= MAX_SECOND * 1_000_000_000 + 999_999_999,
        ensures
            Timestamp::instant(nanos).nanos() == nanos,
            nanos >= 0 ==> Timestamp::instant(nanos).secs() == nanos / 1_000_000_000,
            nanos < 0 ==> Timestamp::instant(nanos).secs() == -((-nanos) / 1_000_000_000),
    {
    }

    /// The timestamp a number of seconds after the Unix epoch, where that is
    /// in range.
    pub fn from_second(second: i64) -> (at: Option<Timestamp>)
        ensures
            at == Timestamp::at_second(second as int),
            at matches Some(t) ==> t.secs() == second && t.nanos() == second * 1_000_000_000,
    {
        if second < MIN_SECOND || second > MAX_SECOND {
            None
        } else {
            Some(Timestamp { second, nanosecond: 0 })
        }
    }

    /// The timestamp a number of seconds and nanoseconds after the Unix epoch,
    /// where both are in range.
    pub fn new(second: i64, nanosecond: i32) -> (at: Option<Timestamp>)
        ensures
            match at {
                Some(t) => in_limits(second, nanosecond) && t.nanos() == second * 1_000_000_000
                    + nanosecond && t == Timestamp::instant(t.nanos()),
                None => !in_limits(second, nanosecond),
            },
    {
        if second < MIN_SECOND || second > MAX_SECOND || nanosecond <= -1_000_000_000 || nanosecond
            >= 1_000_000_000 || (second == MIN_SECOND && nanosecond < 0) {
            return None;
        }
        if second < 0 && nanosecond > 0 {
            Some(Timestamp { second: second + 1, nanosecond: nanosecond - 1_000_000_000 })
        } else if second > 0 && nanosecond < 0 {
            Some(Timestamp { second: second - 1, nanosecond: nanosecond + 1_000_000_000 })
        } else {
            Some(Timestamp { second, nanosecond })
        }
    }

    /// The timestamp a number of milliseconds after the Unix epoch, where that
    /// is in range.
    pub fn from_millisecond(millisecond: i64) -> (at: Option<Timestamp>)
        ensures
            at == Timestamp::at_millisecond(millisecond as int),
            at matches Some(t) ==> t.nanos() == millisecond * 1_000_000,
    {
        if millisecond < -377705023201000 || millisecond > 253402207200000 {
            return None;
        }
        if millisecond >= 0 {
            let whole: i64 = millisecond / 1000;
            let rest: i64 = millisecond % 1000;
            Some(Timestamp { second: whole, nanosecond: rest as i32 * 1_000_000 })
        } else {
            let size: i64 = -millisecond;
            let whole: i64 = size / 1000;
            let rest: i64 = size % 1000;
            Some(Timestamp { second: -whole, nanosecond: -(rest as i32 * 1_000_000) })
        }
    }

    /// Whole seconds since the Unix epoch, the fraction dropped.
    pub fn as_second(self) -> (second: i64)
        ensures
            second == self.secs(),
            MIN_SECOND <= second <= MAX_SECOND,
    {
        proof {
            use_type_invariant(&self);
        }
        self.second
    }

    /// The fraction of a second that [`as_second`](Timestamp::as_second)
    /// drops, in nanoseconds and with the sign of the timestamp.
    pub fn subsec_nanosecond(self) -> (nanosecond: i32)
        ensures
            nanosecond == self.nanos() - self.secs() * 1_000_000_000,
            -1_000_000_000 < nanosecond < 1_000_000_000,
    {
        proof {
            use_type_invariant(&self);
        }
        self.nanosecond
    }

    /// Whether this point in time comes before `other`.
    pub fn before(self, other: Timestamp) -> (earlier: bool)
        ensures
            earlier == (self.nanos() < other.nanos()),
    {
        proof {
            use_type_invariant(&self);
            use_type_invariant(&other);
        }
        self.second < other.second || (self.second == other.second && self.nanosecond
            < other.nanosecond)
    }

    /// Two timestamps are the same exactly when they are the same point in
    /// time.
    pub fn same(self, other: Timestamp) -> (same: bool)
        ensures
            same == (self == other),
            same == (self.nanos() == other.nanos()),
    {
        proof {
            use_type_invariant(&self);
            use_type_invariant(&other);
        }
        self == other
    }
}

/// Whether a second and a nanosecond together are in the range of a timestamp.
pub open spec fn in_limits(second: i64, nanosecond: i32) -> bool {
    &&& MIN_SECOND <= second <= MAX_SECOND
    &&& -1_000_000_000 < nanosecond < 1_000_000_000
    &&& !(second == MIN_SECOND && nanosecond < 0)
}

/// Whether two optional timestamps are both absent or the same.
pub fn same_time(a: Option<Timestamp>, b: Option<Timestamp>) -> (same: bool)
    ensures
        same == (a == b),
{
    match (a, b) {
        (Some(a), Some(b)) => a.same(b),
        (None, None) => true,
        _ => false,
    }
}

// ---------------------------------------------------------------------------
// Calendar
// ---------------------------------------------------------------------------

/// Leap years of the Gregorian calendar.
pub open spec fn leap(year: int) -> bool {
    year % 4 == 0 && (year % 100 != 0 || year % 400 == 0)
}

/// The number of days in a month.
pub open spec fn month_days(year: int, month: int) -> int {
    if month == 2 {
        if leap(year) {
            29
        } else {
            28
        }
    } else if month == 4 || month == 6 || month == 9 || month == 11 {
        30
    } else {
        31
    }
}

/// The number of days of a year before the first of a month.
pub open spec fn days_before_month(year: int, month: int) -> int
    decreases month,
{
    if month <= 1 {
        0
    } else {
        days_before_month(year, month - 1) + month_days(year, month - 1)
    }
}

/// The number of days from the first of January of the year 1 to that of
/// `year`.
pub open spec fn days_before_year(year: int) -> int {
    let past = year - 1;
    365 * past + past / 4 - past / 100 + past / 400
}

/// The number of days from the first of January 1970 to the given date.
pub open spec fn day_number(year: int, month: int, day: int) -> int {
    days_before_year(year) + days_before_month(year, month) + day - 1 - 719162
}

/// What a calendar and a clock on the wall show: the date, the day of the week
/// counted from Monday, the hour and the minute.
#[derive(Clone, Copy, Debug, PartialEq, Eq, Structural)]
pub struct Civil {
    pub year: i16,
    pub month: i8,
    pub day: i8,
    pub weekday: i8,
    pub hour: i8,
    pub minute: i8,
}

impl Civil {
    /// Whether the fields name a date and a time of day.
    pub open spec fn valid(self) -> bool {
        &&& -9999 <= self.year <= 9999
        &&& 1 <= self.month <= 12
        &&& 1 <= self.day <= month_days(self.year as int, self.month as int)
        &&& 0 <= self.weekday <= 6
        &&& 0 <= self.hour <= 23
        &&& 0 <= self.minute <= 59
    }

    /// The number of days from the first of January 1970.
    pub open spec fn days(self) -> int {
        day_number(self.year as int, self.month as int, self.day as int)
    }

    /// Whether both show one date.
    pub open spec fn same_date(self, other: Civil) -> bool {
        self.year == other.year && self.month == other.month && self.day == other.day
    }
}

/// What is shown `local` seconds after midnight of the first of January 1970,
/// which was a Thursday.
pub open spec fn shows(civil: Civil, local: int) -> bool {
    &&& civil.valid()
    &&& civil.days() == local / 86_400
    &&& civil.weekday == (local / 86_400 + 3) % 7
    &&& civil.hour * 60 + civil.minute == (local % 86_400) / 60
}

/// A time zone of `jiff`.
#[verifier::external_type_specification]
#[verifier::external_body]
pub struct ExTimeZone(jiff::tz::TimeZone);

/// What a `jiff::tz::TimeZone` holds: for each point in time, in nanoseconds
/// since the Unix epoch, the offset of local time from UTC in seconds.
pub uninterp spec fn zone_offsets(tz: jiff::tz::TimeZone) -> Map<int, int>;

/// Local time at a point in time, in seconds since midnight of the first of
/// January 1970 on the local clock.
pub open spec fn local_second(at: Timestamp, tz: jiff::tz::TimeZone) -> int {
    at.nanos() / 1_000_000_000 + zone_offsets(tz)[at.nanos()]
}

/// What a clock in the zone shows at a point in time.
pub open spec fn local_time(at: Timestamp, tz: jiff::tz::TimeZone) -> Civil {
    choose|civil: Civil| shows(civil, local_second(at, tz))
}

/// `jiff::Timestamp::to_zoned`, with the fields of the `jiff::Zoned` that it
/// gives: the date and the time of day that is the zone's offset away from
/// UTC, in the Gregorian calendar, with the weekday that goes with the date.
#[verifier::external_body]
fn zoned_fields(at: Timestamp, tz: &jiff::tz::TimeZone) -> (civil: Civil)
    ensures
        shows(civil, at.nanos() / 1_000_000_000 + zone_offsets(*tz)[at.nanos()]),
{
    let at = jiff::Timestamp::new(at.second, at.nanosecond).unwrap_or_default();
    let zoned = at.to_zoned(tz.clone());
    Civil {
        year: zoned.year(),
        month: zoned.month(),
        day: zoned.day(),
        weekday: zoned.weekday().to_monday_zero_offset(),
        hour: zoned.hour(),
        minute: zoned.minute(),
    }
}

/// What a clock in the zone shows at a point in time.
pub fn civil_at(at: Timestamp, tz: &jiff::tz::TimeZone) -> (civil: Civil)
    ensures
        civil == local_time(at, *tz),
        civil.valid(),
{
    let civil = zoned_fields(at, tz);
    proof {
        shown_once(civil, local_time(at, *tz), local_second(at, *tz));
    }
    civil
}

/// A quotient grows by one exactly where the dividend reaches a multiple.
proof fn quotient_step(p: int, n: int)
    requires
        n > 1,
    ensures
        (p + 1) / n - p / n == (if (p + 1) % n == 0 {
            1int
        } else {
            0
        }),
{
    let q = p / n;
    let r = p % n;
    lemma_fundamental_div_mod(p, n);
    if r + 1 == n {
        assert((q + 1) * n == n * q + n) by (nonlinear_arith);
        lemma_fundamental_div_mod_converse(p + 1, n, q + 1, 0);
    } else {
        assert(q * n == n * q) by (nonlinear_arith);
        lemma_fundamental_div_mod_converse(p + 1, n, q, r + 1);
    }
}

/// A multiple of 400 is one of 100, and a multiple of 100 one of 4.
pub(crate) proof fn centuries_divide(year: int)
    ensures
        year % 400 == 0 ==> year % 100 == 0,
        year % 100 == 0 ==> year % 4 == 0,
{
    if year % 400 == 0 {
        lemma_fundamental_div_mod_converse(year, 100, 4 * (year / 400), 0);
    }
    if year % 100 == 0 {
        lemma_fundamental_div_mod_converse(year, 4, 25 * (year / 100), 0);
    }
}

pub(crate) proof fn year_lengths(year: int)
    ensures
        days_before_year(year + 1) - days_before_year(year) == (if leap(year) {
            366int
        } else {
            365
        }),
{
    quotient_step(year - 1, 4);
    quotient_step(year - 1, 100);
    quotient_step(year - 1, 400);
    centuries_divide(year);
}

proof fn years_grow(a: int, b: int)
    requires
        a <= b,
    ensures
        days_before_year(a) <= days_before_year(b),
    decreases b - a,
{
    if a < b {
        years_grow(a, b - 1);
        year_lengths(b - 1);
    }
}

proof fn months_grow(year: int, a: int, b: int)
    requires
        1 <= a <= b,
    ensures
        days_before_month(year, a) <= days_before_month(year, b),
    decreases b - a,
{
    if a < b {
        months_grow(year, a, b - 1);
    }
}

pub(crate) proof fn year_is_its_months(year: int)
    ensures
        days_before_month(year, 13) == (if leap(year) {
            366int
        } else {
            365
        }),
{
    reveal_with_fuel(days_before_month, 14);
}

/// A later date has a larger number.
proof fn later_date(a: Civil, b: Civil)
    requires
        a.valid(),
        b.valid(),
        a.year < b.year || (a.year == b.year && a.month < b.month) || (a.year == b.year && a.month
            == b.month && a.day < b.day),
    ensures
        a.days() < b.days(),
{
    let y = a.year as int;
    let m = a.month as int;
    assert(days_before_month(y, m + 1) == days_before_month(y, m) + month_days(y, m));
    if a.year < b.year {
        months_grow(y, m + 1, 13);
        year_is_its_months(y);
        year_lengths(y);
        years_grow(y + 1, b.year as int);
        months_grow(b.year as int, 1, b.month as int);
    } else if a.month < b.month {
        months_grow(y, m + 1, b.month as int);
    }
}

/// No two faces of the calendar and the clock are shown at one moment.
proof fn shown_once(a: Civil, b: Civil, local: int)
    requires
        shows(a, local),
        shows(b, local),
    ensures
        a == b,
{
    if !a.same_date(b) {
        if a.year < b.year || (a.year == b.year && a.month < b.month) || (a.year == b.year
            && a.month == b.month && a.day < b.day) {
            later_date(a, b);
        } else {
            later_date(b, a);
        }
    }
}

/// Whether a year is a leap year.
fn is_leap(year: i16) -> (is: bool)
    requires
        -9999 <= year <= 9999,
    ensures
        is == leap(year as int),
{
    // Counted from a year that makes every division one of positive numbers.
    let shifted: u32 = (year as i32 + 10_000) as u32;
    proof {
        let y = year as int;
        assert((y + 10_000) % 4 == y % 4);
        assert((y + 10_000) % 100 == y % 100);
        assert((y + 10_000) % 400 == y % 400);
    }
    shifted % 4 == 0 && (shifted % 100 != 0 || shifted % 400 == 0)
}

/// The number of days from the first of January of the year 1 to that of
/// `year`.
fn count_before_year(year: i16) -> (days: i64)
    requires
        -9999 <= year <= 9999,
    ensures
        days == days_before_year(year as int),
        -4_000_000 < days < 4_000_000,
{
    let past: u32 = (year as i32 - 1 + 10_000) as u32;
    let leaps: i64 = (past / 4) as i64 - (past / 100) as i64 + (past / 400) as i64 - 2_425;
    proof {
        let p = year - 1;
        assert((p + 10_000) / 4 == p / 4 + 2_500);
        assert((p + 10_000) / 100 == p / 100 + 100);
        assert((p + 10_000) / 400 == p / 400 + 25);
    }
    365 * (year as i64 - 1) + leaps
}

/// The number of days from the first of January 1970 to a date.
pub fn count_days(civil: Civil) -> (days: i64)
    requires
        civil.valid(),
    ensures
        days == civil.days(),
        -5_000_000 < days < 5_000_000,
{
    let before = count_before_year(civil.year);
    let leap_year = is_leap(civil.year);
    let ghost year = civil.year as int;
    let mut days: i64 = 0;
    let mut month: i8 = 1;
    while month < civil.month
        invariant
            1 <= month <= civil.month <= 12,
            days == days_before_month(year, month as int),
            0 <= days <= 31 * (month - 1),
            leap_year == leap(year),
        decreases civil.month - month,
    {
        let length: i64 = if month == 2 {
            if leap_year {
                29
            } else {
                28
            }
        } else if month == 4 || month == 6 || month == 9 || month == 11 {
            30
        } else {
            31
        };
        days = days + length;
        month = month + 1;
    }
    before + days + civil.day as i64 - 1 - 719_162
}

/// The point in time that `jiff` reads in a text, in nanoseconds since the
/// Unix epoch.
pub uninterp spec fn parsed_timestamp(text: Seq<char>) -> Option<int>;

/// The timestamp that a text gives, if it gives one.
pub open spec fn timestamp_in(text: Seq<char>) -> Option<Timestamp> {
    match parsed_timestamp(text) {
        Some(nanos) => Some(Timestamp::instant(nanos)),
        None => None,
    }
}

/// Parsing of a `jiff::Timestamp`, with an error dropped: its second and its
/// nanosecond, which are in the range of such a timestamp. The time zone of a
/// text stands in it as an offset, so the result is a function of the text
/// alone.
#[verifier::external_body]
fn parsed_parts(text: &str) -> (parts: Option<(i64, i32)>)
    ensures
        match parts {
            Some((second, nanosecond)) => in_limits(second, nanosecond) && parsed_timestamp(text@)
                == Some(second * 1_000_000_000 + nanosecond),
            None => parsed_timestamp(text@) is None,
        },
{
    let at = text.parse::<jiff::Timestamp>().ok()?;
    Some((at.as_second(), at.subsec_nanosecond()))
}

/// The timestamp that a text gives, if it gives one.
pub(crate) fn parse_timestamp(text: &str) -> (at: Option<Timestamp>)
    ensures
        at == timestamp_in(text@),
        at matches Some(t) ==> parsed_timestamp(text@) == Some(t.nanos()),
{
    match parsed_parts(text) {
        Some((second, nanosecond)) => Timestamp::new(second, nanosecond),
        None => None,
    }
}

} // verus!
