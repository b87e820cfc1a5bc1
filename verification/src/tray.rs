//! A plain tray without settings: three rows of text, two menu items, and
//! alerts at two fixed thresholds.

use vstd::prelude::*;
use vstd::string::*;

use crate::assistant::Assistant;
use crate::percent::{rounded, Percent};
use crate::source::{Metric, SnapshotState, SnapshotView, UsageSnapshot};
use crate::text::{digits, nat_text};
use crate::time::{same_time, Timestamp};
use crate::ui::labels::{
    metric_of, metric_text, reset_text, three_lines, updated_line, updated_text,
};
use crate::ui::notifier::reached;

pub use crate::ui::labels::{humanize_reset, session_line, snapshot_changed, weekly_line};

verus! {

/// The session percentage at which a normal alert fires.
pub const WARN_THRESHOLD: u8 = 80;

/// The session percentage at which a critical alert fires.
pub const CRITICAL_THRESHOLD: u8 = 95;

/// What the tray tells the poll loop.
#[derive(Clone, Copy, Debug, PartialEq, Eq, Structural)]
pub enum Wake {
    /// Read the cache now.
    Refresh,
    /// Shut down.
    Quit,
}

// ---------------------------------------------------------------------------
// Text
// ---------------------------------------------------------------------------

/// Freshness of the cache, or why there is nothing to show.
pub open spec fn status_row(
    snapshot: SnapshotView,
    now: Timestamp,
    tz: jiff::tz::TimeZone,
) -> Seq<char> {
    match snapshot.state {
        SnapshotState::Missing => "⚠ No data — install statusline hook"@,
        SnapshotState::Stale => match snapshot.written_at {
            Some(at) => "⚠ Stale since "@ + reset_text(at, now, tz),
            None => "⚠ Stale"@,
        },
        SnapshotState::Fresh => updated_text(snapshot.written_at, now),
    }
}

/// The third menu row: freshness of the cache, or an explanation of why there
/// is nothing to show.
pub fn status_line(snapshot: &UsageSnapshot, now: Timestamp, tz: &jiff::tz::TimeZone) -> (text:
    String)
    ensures
        text@ == status_row(snapshot@, now, *tz),
{
    match snapshot.state {
        SnapshotState::Missing => "⚠ No data — install statusline hook".to_owned(),
        SnapshotState::Stale => match snapshot.written_at {
            Some(at) => {
                let mut text = "⚠ Stale since ".to_owned();
                let since = humanize_reset(at, now, tz);
                text.append(since.as_str());
                text
            },
            None => "⚠ Stale".to_owned(),
        },
        SnapshotState::Fresh => updated_line(snapshot.written_at, now),
    }
}

/// All three menu rows, one below the other.
pub fn tooltip_text(snapshot: &UsageSnapshot, now: Timestamp, tz: &jiff::tz::TimeZone) -> (text:
    String)
    ensures
        text@ == three_lines(
            metric_text("Session"@, snapshot@.session, now, *tz),
            metric_text("Weekly"@, snapshot@.weekly, now, *tz),
            status_row(snapshot@, now, *tz),
        ),
{
    let mut text = session_line(snapshot.session.as_ref(), now, tz);
    text.append("\n");
    let weekly = weekly_line(snapshot.weekly.as_ref(), now, tz);
    text.append(weekly.as_str());
    text.append("\n");
    let status = status_line(snapshot, now, tz);
    text.append(status.as_str());
    text
}

// ---------------------------------------------------------------------------
// Alerts
// ---------------------------------------------------------------------------

/// A threshold crossing that should become a desktop notification.
#[derive(Clone, Copy, Debug, PartialEq, Eq, Structural)]
pub struct UsageAlert {
    /// The threshold that was crossed.
    pub threshold: u8,
    /// The session percentage that crossed it.
    pub percent: Percent,
    /// Whether the notification is an urgent one.
    pub critical: bool,
}

impl UsageAlert {
    /// What the notification says.
    pub open spec fn message(self) -> Seq<char> {
        if self.critical {
            "The 5-hour window is above "@ + digits(self.threshold as nat)
                + "%. You are close to the limit."@
        } else {
            "The 5-hour window has passed "@ + digits(self.threshold as nat) + "% usage."@
        }
    }

    /// Notification title.
    pub fn summary(&self, assistant: &Assistant) -> (text: String)
        ensures
            text@ == assistant.title@ + " session usage "@ + rounded(self.percent) + "%"@,
    {
        let mut text = assistant.title.clone();
        text.append(" session usage ");
        let percent = self.percent.rounded_text();
        text.append(percent.as_str());
        text.append("%");
        text
    }

    /// Notification body.
    pub fn body(&self) -> (text: String)
        ensures
            text@ == (if self.critical {
                "The 5-hour window is above "@ + digits(self.threshold as nat)
                    + "%. You are close to the limit."@
            } else {
                "The 5-hour window has passed "@ + digits(self.threshold as nat) + "% usage."@
            }),
            text@ == self.message(),
    {
        let threshold = nat_text(self.threshold as u64);
        if self.critical {
            let mut text = "The 5-hour window is above ".to_owned();
            text.append(threshold.as_str());
            text.append("%. You are close to the limit.");
            text
        } else {
            let mut text = "The 5-hour window has passed ".to_owned();
            text.append(threshold.as_str());
            text.append("% usage.");
            text
        }
    }
}

/// Decides when a threshold notification fires.
///
/// Each threshold fires once per crossing. It is armed again when the session
/// percentage drops below it, and when the window's reset changes. Readings
/// without a percentage are ignored: they neither fire nor arm.
#[derive(Clone, Copy, Debug, PartialEq, Eq, Structural)]
pub struct Notifier {
    pub fired_warn: bool,
    pub fired_critical: bool,
    /// The reset of the window of the last reading.
    pub window: Option<Timestamp>,
    /// Whether there was a reading yet.
    pub seen_window: bool,
}

impl Default for Notifier {
    fn default() -> (notifier: Self)
        ensures
            notifier == fresh_notifier(),
    {
        Notifier { fired_warn: false, fired_critical: false, window: None, seen_window: false }
    }
}

/// A notifier that has seen nothing.
pub open spec fn fresh_notifier() -> Notifier {
    Notifier { fired_warn: false, fired_critical: false, window: None, seen_window: false }
}

/// Whether a reading is of the window of the last one.
pub open spec fn continues(state: Notifier, resets_at: Option<Timestamp>) -> bool {
    state.seen_window && state.window == resets_at
}

/// Whether the warning still counts as delivered at a reading.
pub open spec fn warn_stands(
    state: Notifier,
    percent: Percent,
    resets_at: Option<Timestamp>,
) -> bool {
    continues(state, resets_at) && state.fired_warn && reached(percent, WARN_THRESHOLD)
}

/// Whether the critical alert still counts as delivered at a reading.
pub open spec fn critical_stands(
    state: Notifier,
    percent: Percent,
    resets_at: Option<Timestamp>,
) -> bool {
    continues(state, resets_at) && state.fired_critical && reached(percent, CRITICAL_THRESHOLD)
}

/// The alert that a reading gives: the higher one that it crosses.
pub open spec fn crossing(state: Notifier, session: Option<Metric>) -> Option<UsageAlert> {
    match session {
        Some(metric) => match metric.percent {
            Some(percent) => if reached(percent, CRITICAL_THRESHOLD) && !critical_stands(
                state,
                percent,
                metric.resets_at,
            ) {
                Some(UsageAlert { threshold: CRITICAL_THRESHOLD, percent, critical: true })
            } else if reached(percent, WARN_THRESHOLD) && !warn_stands(
                state,
                percent,
                metric.resets_at,
            ) {
                Some(UsageAlert { threshold: WARN_THRESHOLD, percent, critical: false })
            } else {
                None
            },
            None => None,
        },
        None => None,
    }
}

/// The state after a reading. What it has reached counts as delivered, except
/// that a critical alert is followed by no warning.
pub open spec fn after_session(state: Notifier, session: Option<Metric>) -> Notifier {
    match session {
        Some(metric) => match metric.percent {
            Some(percent) => Notifier {
                fired_warn: reached(percent, WARN_THRESHOLD),
                fired_critical: reached(percent, CRITICAL_THRESHOLD),
                window: metric.resets_at,
                seen_window: true,
            },
            None => state,
        },
        None => state,
    }
}

impl Notifier {
    /// A notifier that has seen nothing.
    pub fn new() -> (notifier: Self)
        ensures
            notifier == fresh_notifier(),
    {
        Notifier { fired_warn: false, fired_critical: false, window: None, seen_window: false }
    }

    /// Feeds in the latest session metric. Gives the alert to emit, if any.
    pub fn evaluate(&mut self, session: Option<&Metric>) -> (alert: Option<UsageAlert>)
        ensures
            *final(self) == after_session(*old(self), metric_of(session)),
            alert == crossing(*old(self), metric_of(session)),
    {
        let metric = match session {
            Some(metric) => metric,
            None => {
                return None;
            },
        };
        let percent = match metric.percent {
            Some(percent) => percent,
            None => {
                return None;
            },
        };
        proof {
            higher_is_reached_later(percent);
        }
        if !self.seen_window || !same_time(self.window, metric.resets_at) {
            self.seen_window = true;
            self.window = metric.resets_at;
            self.fired_warn = false;
            self.fired_critical = false;
        }
        let warns = percent.at_least(WARN_THRESHOLD);
        let alarms = percent.at_least(CRITICAL_THRESHOLD);
        if !warns {
            self.fired_warn = false;
        }
        if !alarms {
            self.fired_critical = false;
        }
        if alarms && !self.fired_critical {
            self.fired_critical = true;
            self.fired_warn = true;
            return Some(UsageAlert { threshold: CRITICAL_THRESHOLD, percent, critical: true });
        }
        if warns && !self.fired_warn {
            self.fired_warn = true;
            return Some(UsageAlert { threshold: WARN_THRESHOLD, percent, critical: false });
        }
        None
    }
}

/// What is at the critical threshold is above the warning one.
proof fn higher_is_reached_later(percent: Percent)
    ensures
        reached(percent, CRITICAL_THRESHOLD) ==> reached(percent, WARN_THRESHOLD),
{
    let unit = crate::percent::one();
    assert(CRITICAL_THRESHOLD * unit >= WARN_THRESHOLD * unit) by (nonlinear_arith)
        requires
            unit >= 0,
            CRITICAL_THRESHOLD == 95,
            WARN_THRESHOLD == 80,
    ;
}

/// Alerts are not repeated: after a reading, the same reading gives none.
pub proof fn reading_alerts_once(state: Notifier, session: Option<Metric>)
    ensures
        crossing(after_session(state, session), session) is None,
{
}

/// A reading without a percentage neither fires nor arms, so that a cache that
/// cannot be read for a while gives no second alert.
pub proof fn gap_changes_nothing(state: Notifier, resets_at: Option<Timestamp>)
    ensures
        after_session(state, None) == state,
        crossing(state, None) is None,
        after_session(state, Some(Metric { percent: None, resets_at })) == state,
        crossing(state, Some(Metric { percent: None, resets_at })) is None,
{
}

/// A threshold that usage has dropped below fires again.
pub proof fn dropping_below_rearms(
    state: Notifier,
    low: Percent,
    high: Percent,
    resets_at: Option<Timestamp>,
)
    requires
        !reached(low, WARN_THRESHOLD),
        reached(high, WARN_THRESHOLD),
    ensures
        ({
            let after = after_session(state, Some(Metric { percent: Some(low), resets_at }));
            crossing(after, Some(Metric { percent: Some(high), resets_at })) is Some
        }),
{
    higher_is_reached_later(low);
}

// ---------------------------------------------------------------------------
// The tray
// ---------------------------------------------------------------------------

/// One row of the menu.
#[derive(Clone, Debug, PartialEq, Eq)]
pub enum Row {
    /// Text that cannot be clicked.
    Info(String),
    Separator,
    /// An item, and what a click on it tells the poll loop.
    Item(&'static str, Wake),
}

/// What a [`Row`] shows.
pub ghost enum TrayRow {
    Info(Seq<char>),
    Separator,
    Item(Seq<char>, Wake),
}

impl View for Row {
    type V = TrayRow;

    open spec fn view(&self) -> TrayRow {
        match *self {
            Row::Info(text) => TrayRow::Info(text@),
            Row::Separator => TrayRow::Separator,
            Row::Item(label, wake) => TrayRow::Item(label@, wake),
        }
    }
}

/// What a click on the icon tells the poll loop.
pub open spec fn icon_wake() -> Wake {
    Wake::Refresh
}

/// The rows of the plain menu.
pub open spec fn plain_rows(
    snapshot: SnapshotView,
    now: Timestamp,
    tz: jiff::tz::TimeZone,
) -> Seq<TrayRow> {
    seq![
        TrayRow::Info(metric_text("Session"@, snapshot.session, now, tz)),
        TrayRow::Info(metric_text("Weekly"@, snapshot.weekly, now, tz)),
        TrayRow::Info(status_row(snapshot, now, tz)),
        TrayRow::Separator,
        TrayRow::Item("Refresh now"@, Wake::Refresh),
        TrayRow::Item("Quit"@, Wake::Quit),
    ]
}

/// The tray item: the latest snapshot, and the zone in which times are shown.
pub struct UsageTray {
    pub snapshot: UsageSnapshot,
    pub tz: jiff::tz::TimeZone,
}

impl UsageTray {
    /// A tray that shows `snapshot`.
    pub fn new(snapshot: UsageSnapshot, tz: jiff::tz::TimeZone) -> (tray: Self)
        ensures
            tray.snapshot@ == snapshot@,
            tray.tz == tz,
    {
        UsageTray { snapshot, tz }
    }

    /// A click on the icon reads the cache again.
    pub fn activate(&self) -> (wake: Wake)
        ensures
            wake == Wake::Refresh,
            wake == icon_wake(),
    {
        Wake::Refresh
    }

    /// The menu.
    pub fn menu(&self, now: Timestamp) -> (rows: Vec<Row>)
        ensures
            rows@.map_values(|r: Row| r@) == seq![
                TrayRow::Info(metric_text("Session"@, self.snapshot@.session, now, self.tz)),
                TrayRow::Info(metric_text("Weekly"@, self.snapshot@.weekly, now, self.tz)),
                TrayRow::Info(status_row(self.snapshot@, now, self.tz)),
                TrayRow::Separator,
                TrayRow::Item("Refresh now"@, Wake::Refresh),
                TrayRow::Item("Quit"@, Wake::Quit),
            ],
            rows@.map_values(|r: Row| r@) == plain_rows(self.snapshot@, now, self.tz),
    {
        let mut rows: Vec<Row> = Vec::new();
        rows.push(Row::Info(session_line(self.snapshot.session.as_ref(), now, &self.tz)));
        rows.push(Row::Info(weekly_line(self.snapshot.weekly.as_ref(), now, &self.tz)));
        rows.push(Row::Info(status_line(&self.snapshot, now, &self.tz)));
        rows.push(Row::Separator);
        rows.push(Row::Item("Refresh now", Wake::Refresh));
        rows.push(Row::Item("Quit", Wake::Quit));
        rows
    }
}

} // verus!
