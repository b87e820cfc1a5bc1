//! Laws of the notifications: when one comes, which one, and when none does.

use vstd::prelude::*;
use vstd::string::*;

use crate::config::{urgent, NOTIFY_THRESHOLDS};
use crate::percent::{one, Percent};
use crate::source::{Metric, SnapshotState, SnapshotView};
use crate::text::digits;
use crate::time::Timestamp;
use crate::tray;
use crate::ui::labels::{metric_text, reset_text, updated_text};
use crate::ui::notifier::{
    after_reading, after_tick, alert_of, highest_is_largest, one_window, reached, reset_alert,
    sound, starting, wait_secs, NotifierView, ResetAlert, ResetNotifier, UsageAlert,
};

verus! {

/// Whether a percentage has come to a threshold: it is that many percent, or
/// more.
pub open spec fn at_least(percent: Percent, threshold: int) -> bool {
    percent.value() >= threshold * one()
}

/// Two resets that may both be unknown are of one window where they are at most
/// a minute apart, and where neither is known.
pub open spec fn within_a_minute(a: Option<Timestamp>, b: Option<Timestamp>) -> bool {
    match (a, b) {
        (Some(a), Some(b)) => a.secs() - b.secs() <= 60 && b.secs() - a.secs() <= 60,
        (None, None) => true,
        _ => false,
    }
}

/// A window is told by its reset, give or take a minute, and it does not matter
/// which of two readings came first.
pub proof fn window_is_told_by_its_reset(a: Option<Timestamp>, b: Option<Timestamp>)
    ensures
        one_window(a, b) <==> within_a_minute(a, b),
        one_window(a, b) == one_window(b, a),
        one_window(a, a),
{
}

/// There are notifications at 50, 75, 90, 99 and 100 percent, and those from 90
/// on are urgent.
pub proof fn thresholds_that_can_be_chosen(threshold: u8)
    ensures
        NOTIFY_THRESHOLDS@.contains(threshold) <==> threshold == 50 || threshold == 75 || threshold
            == 90 || threshold == 99 || threshold == 100,
        NOTIFY_THRESHOLDS@.len() == 5,
        NOTIFY_THRESHOLDS@[0] == 50,
        urgent(threshold) <==> !(threshold < 90),
{
    if threshold == 50 {
        assert(NOTIFY_THRESHOLDS@[0] == threshold);
    }
    if threshold == 75 {
        assert(NOTIFY_THRESHOLDS@[1] == threshold);
    }
    if threshold == 90 {
        assert(NOTIFY_THRESHOLDS@[2] == threshold);
    }
    if threshold == 99 {
        assert(NOTIFY_THRESHOLDS@[3] == threshold);
    }
    if threshold == 100 {
        assert(NOTIFY_THRESHOLDS@[4] == threshold);
    }
}

/// Usage that rises does not fall below a threshold that it had reached, and what
/// has reached a threshold has reached all lower ones. A threshold is reached at
/// exactly that many percent.
pub proof fn higher_usage_reaches_more(low: Percent, high: Percent, small: u8, large: u8)
    requires
        low.value() <= high.value(),
        small <= large,
    ensures
        reached(low, small) ==> reached(high, small),
        reached(high, large) ==> reached(high, small),
        reached(high, small) <==> at_least(high, small as int),
        high.value() == small * one() ==> reached(high, small),
        high.value() < small * one() ==> !reached(high, small),
{
    vstd::arithmetic::power2::lemma_pow2_pos(1074);
    let u = one() as int;
    assert(small * u <= large * u) by (nonlinear_arith)
        requires
            small <= large,
            u > 0,
    ;
}

/// Of two readings in a row, the second alerts exactly where usage rose to a
/// threshold that is switched on and that the first had not come to; after the
/// window rolled over, exactly where usage is at such a threshold at all. The
/// alert is then for the highest of these, tells the usage that was read, and is
/// urgent from 90 percent on.
pub proof fn second_reading_alerts_to_a_rise(state: NotifierView, first: Metric, next: Metric)
    requires
        sound(state),
        first.percent is Some,
        next.percent is Some,
        forall|t: u8|
            #[trigger] state.enabled.contains(t) ==> t == 50 || t == 75 || t == 90 || t == 99 || t
                == 100,
    ensures
        ({
            let (p, q) = (first.percent->0, next.percent->0);
            let same = within_a_minute(first.resets_at, next.resets_at);
            let alert = alert_of(after_reading(state, Some(first)), Some(next));
            &&& alert is Some <==> exists|t: u8|
                #[trigger] state.enabled.contains(t) && at_least(q, t as int) && !(same && at_least(
                    p,
                    t as int,
                ))
            &&& alert matches Some(a) ==> {
                &&& state.enabled.contains(a.threshold)
                &&& at_least(q, a.threshold as int)
                &&& !(same && at_least(p, a.threshold as int))
                &&& a.percent == q
                &&& a.critical <==> a.threshold >= 90
                &&& forall|t: u8|
                    #[trigger] state.enabled.contains(t) && at_least(q, t as int) && !(same
                        && at_least(p, t as int)) ==> t <= a.threshold
            }
        }),
{
    let (p, q) = (first.percent->0, next.percent->0);
    let after = after_reading(state, Some(first));
    let delivered = crate::ui::notifier::still_fired(
        crate::ui::notifier::carried(after, next.resets_at),
        q,
    );
    let same = within_a_minute(first.resets_at, next.resets_at);
    highest_is_largest(state.enabled, q, delivered);
    assert forall|t: u8| #[trigger] state.enabled.contains(t) && at_least(q, t as int) implies (
    delivered.contains(t) <==> same && at_least(p, t as int)) by {
        thresholds_that_can_be_chosen(t);
        crate::ui::notifier::delivered_is_what_is_passed(state, first, t);
    }
}

/// The very first reading never alerts, whatever it is. The next one alerts
/// exactly where usage rose to a threshold that is switched on, or where the
/// window rolled over and usage is at one.
pub proof fn first_reading_never_alerts(enabled: Seq<u8>, first: Metric, next: Metric)
    requires
        first.percent is Some,
        next.percent is Some,
        forall|t: u8|
            #[trigger] enabled.contains(t) ==> t == 50 || t == 75 || t == 90 || t == 99 || t == 100,
    ensures
        starting(enabled).enabled == enabled,
        alert_of(starting(enabled), Some(first)) is None,
        alert_of(after_reading(starting(enabled), Some(first)), Some(next)) is Some <==> exists|
            t: u8,
        |
            #[trigger] enabled.contains(t) && at_least(next.percent->0, t as int) && !(
            within_a_minute(first.resets_at, next.resets_at) && at_least(
                first.percent->0,
                t as int,
            )),
{
    second_reading_alerts_to_a_rise(starting(enabled), first, next);
}

/// Reading never changes which thresholds are switched on, and remembers the
/// reset that was read last.
pub proof fn reading_remembers_the_window(state: NotifierView, metric: Metric)
    requires
        metric.percent is Some,
    ensures
        after_reading(state, Some(metric)).enabled == state.enabled,
        after_reading(state, Some(metric)).window == metric.resets_at,
        after_reading(state, Some(metric)).seen_window,
        after_reading(state, Some(metric)).baselined,
{
}

/// What an alert says: that the window is used up at 100 percent, that the limit
/// is close where it is urgent, and else which threshold was passed.
pub proof fn alert_says_what_was_crossed(alert: UsageAlert)
    ensures
        alert.threshold >= 100 ==> alert.message()
            == "The 5-hour window is fully used. Further requests will wait for the reset."@,
        alert.threshold < 100 && alert.critical ==> alert.message()
            == "The 5-hour window is above "@ + digits(alert.threshold as nat)
            + "%. You are close to the limit."@,
        alert.threshold < 100 && !alert.critical ==> alert.message()
            == "The 5-hour window has passed "@ + digits(alert.threshold as nat) + "% usage."@,
{
}

/// A reset that is seen while still to come, and was not dealt with already, is
/// announced at its time: by no look before it, and by every first look from then
/// on, where alerts are on.
pub proof fn reset_is_announced_when_due(
    state: ResetNotifier,
    at: Timestamp,
    seen: Timestamp,
    look: Timestamp,
)
    requires
        seen.nanos() < at.nanos(),
        state.handled != Some(at),
    ensures
        ({
            let waiting = after_tick(state, Some(at), seen);
            &&& waiting.pending == Some(at)
            &&& look.nanos() < at.nanos() ==> reset_alert(waiting, look, true) is None
            &&& look.nanos() >= at.nanos() ==> reset_alert(waiting, look, true) == Some(
                ResetAlert { at },
            )
            &&& reset_alert(waiting, look, false) is None
        }),
{
}

/// A reading without a reset keeps one that is waited for, until it is due.
pub proof fn awaited_reset_outlives_a_gap(state: ResetNotifier, at: Timestamp, now: Timestamp)
    requires
        state.pending == Some(at),
    ensures
        now.nanos() < at.nanos() ==> after_tick(state, None, now) == state,
        now.nanos() >= at.nanos() ==> after_tick(state, None, now).pending is None && after_tick(
            state,
            None,
            now,
        ).handled == Some(at),
        now.nanos() < at.nanos() ==> reset_alert(state, now, true) is None,
{
}

/// A wait is as long as it can be: the whole interval, or up to the deadline
/// where that comes first.
pub proof fn wait_is_as_long_as_it_can_be(interval: u64, deadline: Timestamp, now: Timestamp)
    ensures
        ({
            let wait = wait_secs(interval, Some(deadline), now);
            &&& wait == interval || now.secs() + wait == deadline.secs() || deadline.secs()
                < now.secs()
            &&& deadline.secs() >= now.secs() + interval ==> wait == interval
            &&& now.secs() <= deadline.secs() <= now.secs() + interval ==> now.secs() + wait
                == deadline.secs()
            &&& deadline.secs() < now.secs() ==> wait == 0
        }),
        wait_secs(interval, None, now) == interval,
{
}

// ---------------------------------------------------------------------------
// The plain tray
// ---------------------------------------------------------------------------

/// Of two readings of one window, the second alerts critically where usage rose
/// to 95 percent, and else with a warning where it rose to 80. After a rollover
/// it alerts to what usage is at.
pub proof fn plain_tray_alerts_to_a_rise(state: tray::Notifier, first: Metric, next: Metric)
    requires
        first.percent is Some,
        next.percent is Some,
    ensures
        ({
            let (p, q) = (first.percent->0, next.percent->0);
            let same = first.resets_at == next.resets_at;
            let alert = tray::crossing(tray::after_session(state, Some(first)), Some(next));
            let critical = at_least(q, 95) && !(same && at_least(p, 95));
            let warning = at_least(q, 80) && !(same && at_least(p, 80));
            &&& critical ==> alert == Some(
                tray::UsageAlert { threshold: 95, percent: q, critical: true },
            )
            &&& !critical && warning ==> alert == Some(
                tray::UsageAlert { threshold: 80, percent: q, critical: false },
            )
            &&& !critical && !warning ==> alert is None
        }),
{
}

/// The first reading of the plain tray alerts to what usage is at.
pub proof fn plain_tray_alerts_at_once(metric: Metric)
    requires
        metric.percent is Some,
    ensures
        ({
            let q = metric.percent->0;
            let alert = tray::crossing(tray::fresh_notifier(), Some(metric));
            &&& at_least(q, 95) ==> alert == Some(
                tray::UsageAlert { threshold: 95, percent: q, critical: true },
            )
            &&& at_least(q, 80) && !at_least(q, 95) ==> alert == Some(
                tray::UsageAlert { threshold: 80, percent: q, critical: false },
            )
            &&& !at_least(q, 80) && !at_least(q, 95) ==> alert is None
        }),
{
}

/// What an alert of the plain tray says.
pub proof fn plain_alert_says_what_was_crossed(alert: tray::UsageAlert)
    ensures
        alert.critical ==> alert.message() == "The 5-hour window is above "@ + digits(
            alert.threshold as nat,
        ) + "%. You are close to the limit."@,
        !alert.critical ==> alert.message() == "The 5-hour window has passed "@ + digits(
            alert.threshold as nat,
        ) + "% usage."@,
{
}

/// The plain tray's menu shows the session, the week and the freshness, and can
/// refresh and quit.
pub proof fn plain_menu_shows_usage(
    snapshot: SnapshotView,
    now: Timestamp,
    tz: jiff::tz::TimeZone,
)
    ensures
        ({
            let rows = tray::plain_rows(snapshot, now, tz);
            &&& rows.len() == 6
            &&& rows[0] == tray::TrayRow::Info(
                metric_text("Session"@, snapshot.session, now, tz),
            )
            &&& rows[1] == tray::TrayRow::Info(metric_text("Weekly"@, snapshot.weekly, now, tz))
            &&& rows[2] == tray::TrayRow::Info(tray::status_row(snapshot, now, tz))
            &&& rows[4] == tray::TrayRow::Item("Refresh now"@, tray::Wake::Refresh)
            &&& rows[5] == tray::TrayRow::Item("Quit"@, tray::Wake::Quit)
        }),
{
}

/// The plain tray's third row warns where there is no data and where it is stale,
/// and then tells since when.
pub proof fn plain_tray_tells_freshness(
    snapshot: SnapshotView,
    now: Timestamp,
    tz: jiff::tz::TimeZone,
)
    ensures
        snapshot.state == SnapshotState::Missing ==> tray::status_row(snapshot, now, tz)
            == "⚠ No data — install statusline hook"@,
        snapshot.state == SnapshotState::Stale ==> (snapshot.written_at matches Some(at)
            ==> tray::status_row(snapshot, now, tz) == "⚠ Stale since "@ + reset_text(at, now, tz)),
        snapshot.state == SnapshotState::Stale && snapshot.written_at is None
            ==> tray::status_row(snapshot, now, tz) == "⚠ Stale"@,
        snapshot.state == SnapshotState::Fresh ==> tray::status_row(snapshot, now, tz)
            == updated_text(snapshot.written_at, now),
{
}

} // verus!
