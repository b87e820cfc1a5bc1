//! When a notification fires: the state machines behind threshold alerts and
//! quota-reset alerts.

use vstd::prelude::*;
use vstd::string::*;

use crate::assistant::Assistant;
use crate::config::{is_critical, urgent, NOTIFY_THRESHOLDS};
use crate::percent::{one, rounded, Percent};
use crate::source::Metric;
use crate::text::{digits, nat_text};
use crate::time::Timestamp;
use crate::ui::labels::metric_of;

verus! {

// ---------------------------------------------------------------------------
// Threshold alerts
// ---------------------------------------------------------------------------

/// A threshold crossing that should become a desktop notification.
#[derive(Clone, Copy, Debug, PartialEq, Eq, Structural)]
pub struct UsageAlert {
    /// The threshold that was crossed.
    pub threshold: u8,
    /// The session percentage that crossed it.
    pub percent: Percent,
    /// Whether the notification is an urgent one.
    pub critical: bool,
}

impl UsageAlert {
    /// The notification's title.
    pub open spec fn title(self, assistant: Assistant) -> Seq<char> {
        assistant.title@ + " session usage "@ + rounded(self.percent) + "%"@
    }

    /// The notification's text.
    pub open spec fn message(self) -> Seq<char> {
        if self.threshold >= 100 {
            "The 5-hour window is fully used. Further requests will wait for the reset."@
        } else if self.critical {
            "The 5-hour window is above "@ + digits(self.threshold as nat)
                + "%. You are close to the limit."@
        } else {
            "The 5-hour window has passed "@ + digits(self.threshold as nat) + "% usage."@
        }
    }

    /// Notification title.
    pub fn summary(&self, assistant: &Assistant) -> (text: String)
        ensures
            text@ == self.title(*assistant),
    {
        let mut text = assistant.title.clone();
        text.append(" session usage ");
        let percent = self.percent.rounded_text();
        text.append(percent.as_str());
        text.append("%");
        text
    }

    /// Notification body.
    pub fn body(&self) -> (text: String)
        ensures
            text@ == self.message(),
    {
        if self.threshold >= 100 {
            return "The 5-hour window is fully used. Further requests will wait for the reset.".to_owned();
        }
        let threshold = nat_text(self.threshold as u64);
        if self.critical {
            let mut text = "The 5-hour window is above ".to_owned();
            text.append(threshold.as_str());
            text.append("%. You are close to the limit.");
            text
        } else {
            let mut text = "The 5-hour window has passed ".to_owned();
            text.append(threshold.as_str());
            text.append("% usage.");
            text
        }
    }
}

/// How far a window's reset may move between two readings, in seconds, and
/// still be the reset of the same window: reported times shift by a few
/// seconds, while a real rollover moves by hours.
pub const WINDOW_JITTER_TOLERANCE_SECS: i64 = 60;

/// Two readings of a reset that describe one window. No reset time is the same
/// only as no reset time.
pub open spec fn one_window(a: Option<Timestamp>, b: Option<Timestamp>) -> bool {
    match (a, b) {
        (Some(a), Some(b)) => -WINDOW_JITTER_TOLERANCE_SECS <= a.secs() - b.secs()
            <= WINDOW_JITTER_TOLERANCE_SECS,
        (None, None) => true,
        _ => false,
    }
}

/// Whether two readings of a reset describe the same window.
pub fn same_window(a: Option<Timestamp>, b: Option<Timestamp>) -> (same: bool)
    ensures
        same == one_window(a, b),
{
    match (a, b) {
        (Some(a), Some(b)) => {
            let gap: i64 = a.as_second() - b.as_second();
            -WINDOW_JITTER_TOLERANCE_SECS <= gap && gap <= WINDOW_JITTER_TOLERANCE_SECS
        },
        (None, None) => true,
        _ => false,
    }
}

/// Whether a percentage is at a threshold or above it.
pub open spec fn reached(percent: Percent, threshold: u8) -> bool {
    percent.value() >= threshold * one()
}

/// The thresholds that a percentage is at or above.
pub open spec fn passed(percent: Percent) -> Set<u8> {
    Set::new(|t: u8| NOTIFY_THRESHOLDS@.contains(t) && reached(percent, t))
}

/// The largest of the enabled thresholds that a percentage has reached and
/// that were not delivered yet.
pub open spec fn highest(enabled: Seq<u8>, percent: Percent, fired: Set<u8>) -> Option<u8>
    decreases enabled.len(),
{
    if enabled.len() == 0 {
        None
    } else {
        let before = highest(enabled.drop_last(), percent, fired);
        let t = enabled.last();
        if reached(percent, t) && !fired.contains(t) {
            match before {
                Some(m) => if m > t {
                    Some(m)
                } else {
                    Some(t)
                },
                None => Some(t),
            }
        } else {
            before
        }
    }
}

/// Decides when a threshold notification fires.
///
/// Each threshold fires once per crossing. It is armed again when the session
/// percentage drops below it, and when a new window begins. Readings without a
/// percentage are ignored. The first reading that has one is a baseline: what
/// it has passed counts as delivered. Delivery is tracked for every threshold,
/// switched on or not, so that switching one on never announces the past.
#[derive(Debug)]
pub struct Notifier {
    enabled: Vec<u8>,
    fired: Vec<u8>,
    window: Option<Timestamp>,
    seen_window: bool,
    baselined: bool,
}

/// The state of a [`Notifier`].
pub ghost struct NotifierView {
    /// The thresholds that are switched on.
    pub enabled: Seq<u8>,
    /// The thresholds already delivered, or passed, in the current window.
    pub fired: Set<u8>,
    /// The reset of the window of the last reading.
    pub window: Option<Timestamp>,
    /// Whether there was a reading yet.
    pub seen_window: bool,
    /// Whether the first reading with a percentage was seen.
    pub baselined: bool,
}

impl View for Notifier {
    type V = NotifierView;

    closed spec fn view(&self) -> NotifierView {
        NotifierView {
            enabled: self.enabled@,
            fired: self.fired@.to_set(),
            window: self.window,
            seen_window: self.seen_window,
            baselined: self.baselined,
        }
    }
}

/// A notifier that has seen nothing.
pub open spec fn starting(enabled: Seq<u8>) -> NotifierView {
    NotifierView {
        enabled,
        fired: Set::empty(),
        window: None,
        seen_window: false,
        baselined: false,
    }
}

/// The thresholds that count as delivered before a reading is looked at: none
/// when a new window begins.
pub open spec fn carried(state: NotifierView, resets_at: Option<Timestamp>) -> Set<u8> {
    if !state.seen_window || !one_window(state.window, resets_at) {
        Set::empty()
    } else {
        state.fired
    }
}

/// The thresholds still delivered at a percentage: those it has not dropped
/// below.
pub open spec fn still_fired(fired: Set<u8>, percent: Percent) -> Set<u8> {
    fired.filter(|t: u8| reached(percent, t))
}

/// The state after a reading.
pub open spec fn after_reading(state: NotifierView, session: Option<Metric>) -> NotifierView {
    match session {
        Some(metric) => match metric.percent {
            Some(percent) => {
                let carry = carried(state, metric.resets_at);
                NotifierView {
                    fired: if state.baselined {
                        still_fired(carry, percent).union(passed(percent))
                    } else {
                        carry.union(passed(percent))
                    },
                    window: metric.resets_at,
                    seen_window: true,
                    baselined: true,
                    ..state
                }
            },
            None => state,
        },
        None => state,
    }
}

/// The alert that a reading gives.
pub open spec fn alert_of(state: NotifierView, session: Option<Metric>) -> Option<UsageAlert> {
    match session {
        Some(metric) => match metric.percent {
            Some(percent) => if state.baselined {
                let delivered = still_fired(carried(state, metric.resets_at), percent);
                match highest(state.enabled, percent, delivered) {
                    Some(threshold) => Some(
                        UsageAlert { threshold, percent, critical: urgent(threshold) },
                    ),
                    None => None,
                }
            } else {
                None
            },
            None => None,
        },
        None => None,
    }
}

/// A copy of a list of thresholds.
fn copied(thresholds: &[u8]) -> (copy: Vec<u8>)
    ensures
        copy@ == thresholds@,
{
    let mut copy: Vec<u8> = Vec::new();
    let mut i: usize = 0;
    while i < thresholds.len()
        invariant
            i <= thresholds@.len(),
            copy@ == thresholds@.take(i as int),
        decreases thresholds@.len() - i,
    {
        proof {
            assert(thresholds@.take(i as int + 1) == thresholds@.take(i as int).push(
                thresholds@[i as int],
            ));
        }
        copy.push(thresholds[i]);
        i = i + 1;
    }
    proof {
        assert(thresholds@.take(i as int) == thresholds@);
    }
    copy
}

/// Whether `threshold` is in the list.
fn listed(thresholds: &Vec<u8>, threshold: u8) -> (found: bool)
    ensures
        found == thresholds@.to_set().contains(threshold),
{
    let mut i: usize = 0;
    while i < thresholds.len()
        invariant
            i <= thresholds.len(),
            forall|k: int| 0 <= k < i ==> #[trigger] thresholds@[k] != threshold,
        decreases thresholds.len() - i,
    {
        if thresholds[i] == threshold {
            proof {
                assert(thresholds@.contains(threshold));
            }
            return true;
        }
        i = i + 1;
    }
    false
}

impl Notifier {
    /// A notifier for the given thresholds.
    pub fn new(enabled: &[u8]) -> (notifier: Self)
        ensures
            notifier@ == starting(enabled@),
            notifier@ == (NotifierView {
                enabled: enabled@,
                fired: Set::empty(),
                window: None,
                seen_window: false,
                baselined: false,
            }),
    {
        let notifier = Notifier {
            enabled: copied(enabled),
            fired: Vec::new(),
            window: None,
            seen_window: false,
            baselined: false,
        };
        proof {
            assert(notifier.fired@.to_set() =~= Set::empty());
        }
        notifier
    }

    /// Replaces the thresholds that are switched on. Nothing that was delivered
    /// is forgotten.
    pub fn set_enabled(&mut self, enabled: &[u8])
        ensures
            final(self)@ == (NotifierView { enabled: enabled@, ..old(self)@ }),
    {
        self.enabled = copied(enabled);
    }

    /// Counts every threshold at or below `percent` as delivered.
    fn mark_passed(&mut self, percent: Percent)
        ensures
            final(self)@ == (NotifierView {
                fired: old(self)@.fired.union(passed(percent)),
                ..old(self)@
            }),
    {
        let ghost before = self@;
        let mut i: usize = 0;
        while i < NOTIFY_THRESHOLDS.len()
            invariant
                i <= NOTIFY_THRESHOLDS@.len(),
                self@ == (NotifierView { fired: self@.fired, ..before }),
                forall|t: u8| #[trigger]
                    self@.fired.contains(t) <==> before.fired.contains(t) || (
                    NOTIFY_THRESHOLDS@.take(i as int).contains(t) && reached(percent, t)),
                before == old(self)@,
            decreases NOTIFY_THRESHOLDS@.len() - i,
        {
            let threshold = NOTIFY_THRESHOLDS[i];
            let ghost list = self.fired@;
            proof {
                let head = NOTIFY_THRESHOLDS@.take(i as int);
                let next = NOTIFY_THRESHOLDS@.take(i as int + 1);
                assert(next == head.push(threshold));
                assert forall|t: u8| next.contains(t) <==> head.contains(t) || t == threshold by {
                    if head.contains(t) {
                        let k = choose|k: int| 0 <= k < head.len() && head[k] == t;
                        assert(next[k] == t);
                    }
                    assert(next[i as int] == threshold);
                    if next.contains(t) {
                        let k = choose|k: int| 0 <= k < next.len() && next[k] == t;
                        if k < i {
                            assert(head[k] == t);
                        }
                    }
                }
            }
            if percent.at_least(threshold) && !listed(&self.fired, threshold) {
                self.fired.push(threshold);
                proof {
                    set_of_push(list, threshold);
                }
            }
            i = i + 1;
        }
        proof {
            assert(NOTIFY_THRESHOLDS@.take(i as int) == NOTIFY_THRESHOLDS@);
            assert(self@.fired =~= before.fired.union(passed(percent)));
        }
    }

    /// Arms again every threshold that usage has dropped below.
    fn rearm(&mut self, percent: Percent)
        ensures
            final(self)@ == (NotifierView {
                fired: still_fired(old(self)@.fired, percent),
                ..old(self)@
            }),
    {
        let ghost before = self@;
        let ghost all = self.fired@;
        let mut kept: Vec<u8> = Vec::new();
        let mut i: usize = 0;
        while i < self.fired.len()
            invariant
                i <= self.fired.len(),
                self@ == before,
                self.fired@ == all,
                forall|t: u8| #[trigger]
                    kept@.to_set().contains(t) <==> all.take(i as int).contains(t) && reached(
                        percent,
                        t,
                    ),
            decreases self.fired.len() - i,
        {
            let threshold = self.fired[i];
            let ghost list = kept@;
            let still = percent.at_least(threshold);
            if still {
                kept.push(threshold);
            }
            proof {
                let head = all.take(i as int);
                let next = all.take(i as int + 1);
                assert(next == head.push(threshold));
                set_of_push(head, threshold);
                set_of_push(list, threshold);
                assert forall|t: u8| #[trigger]
                    kept@.to_set().contains(t) <==> next.contains(t) && reached(percent, t) by {
                    assert(next.to_set().contains(t) <==> next.contains(t));
                    assert(head.to_set().contains(t) <==> head.contains(t));
                    assert(list.to_set().contains(t) <==> head.contains(t) && reached(percent, t));
                }
            }
            i = i + 1;
        }
        proof {
            assert(all.take(i as int) == all);
            assert(kept@.to_set() =~= still_fired(before.fired, percent));
        }
        self.fired = kept;
    }

    /// The largest enabled threshold that is reached and not delivered.
    fn pick(&self, percent: Percent) -> (threshold: Option<u8>)
        ensures
            threshold == highest(self@.enabled, percent, self@.fired),
    {
        let mut best: Option<u8> = None;
        let mut i: usize = 0;
        let ghost all = self.enabled@;
        proof {
            assert(all.take(0) == Seq::<u8>::empty());
        }
        while i < self.enabled.len()
            invariant
                i <= self.enabled.len(),
                all == self.enabled@,
                best == highest(all.take(i as int), percent, self@.fired),
            decreases self.enabled.len() - i,
        {
            let threshold = self.enabled[i];
            proof {
                let here = all.take(i as int + 1);
                assert(here.drop_last() == all.take(i as int));
                assert(here.last() == threshold);
            }
            if percent.at_least(threshold) && !listed(&self.fired, threshold) {
                best = match best {
                    Some(m) => if m > threshold {
                        Some(m)
                    } else {
                        Some(threshold)
                    },
                    None => Some(threshold),
                };
            }
            i = i + 1;
        }
        proof {
            assert(all.take(i as int) == all);
        }
        best
    }

    /// Feeds in the latest session metric and returns the alert to emit, if
    /// any.
    pub fn evaluate(&mut self, session: Option<&Metric>) -> (alert: Option<UsageAlert>)
        ensures
            final(self)@ == after_reading(old(self)@, metric_of(session)),
            alert == alert_of(old(self)@, metric_of(session)),
    {
        let metric = match session {
            Some(metric) => metric,
            None => {
                return None;
            },
        };
        let percent = match metric.percent {
            Some(percent) => percent,
            None => {
                return None;
            },
        };
        let ghost before = self@;
        if !self.seen_window || !same_window(self.window, metric.resets_at) {
            self.seen_window = true;
            self.fired = Vec::new();
            proof {
                assert(self.fired@.to_set() =~= Set::empty());
            }
        }
        self.window = metric.resets_at;
        proof {
            assert(self@.fired == carried(before, metric.resets_at));
        }
        if !self.baselined {
            self.baselined = true;
            self.mark_passed(percent);
            return None;
        }
        self.rearm(percent);
        let alert = match self.pick(percent) {
            Some(threshold) => Some(
                UsageAlert { threshold, percent, critical: is_critical(threshold) },
            ),
            None => None,
        };
        self.mark_passed(percent);
        alert
    }
}

/// The members of a list with one more at its end.
proof fn set_of_push(list: Seq<u8>, last: u8)
    ensures
        list.push(last).to_set() == list.to_set().insert(last),
{
    let longer = list.push(last);
    assert forall|t: u8| longer.to_set().contains(t) <==> list.to_set().insert(last).contains(
        t,
    ) by {
        if longer.contains(t) {
            let k = choose|k: int| 0 <= k < longer.len() && longer[k] == t;
            if k < list.len() {
                assert(list[k] == t);
            }
        }
        if list.contains(t) {
            let k = choose|k: int| 0 <= k < list.len() && list[k] == t;
            assert(longer[k] == t);
        }
        assert(longer[list.len() as int] == last);
    }
    assert(longer.to_set() =~= list.to_set().insert(last));
}

/// What the largest deliverable threshold is: one that is enabled, reached and
/// not delivered, with none of that kind above it.
pub proof fn highest_is_largest(enabled: Seq<u8>, percent: Percent, fired: Set<u8>)
    ensures
        match highest(enabled, percent, fired) {
            Some(m) => {
                &&& enabled.contains(m) && reached(percent, m) && !fired.contains(m)
                &&& forall|t: u8|
                    #![trigger enabled.contains(t)]
                    enabled.contains(t) && reached(percent, t) && !fired.contains(t) ==> t <= m
            },
            None => forall|t: u8|
                #![trigger enabled.contains(t)]
                enabled.contains(t) ==> !reached(percent, t) || fired.contains(t),
        },
    decreases enabled.len(),
{
    if enabled.len() > 0 {
        let rest = enabled.drop_last();
        let last = enabled.last();
        highest_is_largest(rest, percent, fired);
        assert(enabled == rest.push(last));
        assert forall|t: u8| enabled.contains(t) <==> rest.contains(t) || t == last by {
            if rest.contains(t) {
                let k = choose|k: int| 0 <= k < rest.len() && rest[k] == t;
                assert(enabled[k] == t);
            }
            assert(enabled[rest.len() as int] == last);
            if enabled.contains(t) {
                let k = choose|k: int| 0 <= k < enabled.len() && enabled[k] == t;
                if k < rest.len() {
                    assert(rest[k] == t);
                }
            }
        }
    }
}

/// What holds of a notifier at all times: only thresholds that can be chosen
/// count as delivered, and none before the baseline.
pub open spec fn sound(state: NotifierView) -> bool {
    &&& forall|t: u8| #[trigger] state.fired.contains(t) ==> NOTIFY_THRESHOLDS@.contains(t)
    &&& !state.baselined ==> state.fired == Set::<u8>::empty()
}

/// Every notifier starts sound, and stays so whatever it is fed and whatever
/// is switched on.
pub proof fn notifier_stays_sound(
    enabled: Seq<u8>,
    state: NotifierView,
    session: Option<Metric>,
    switched: Seq<u8>,
)
    ensures
        sound(
            NotifierView {
                enabled,
                fired: Set::empty(),
                window: None,
                seen_window: false,
                baselined: false,
            },
        ),
        sound(state) ==> sound(after_reading(state, session)),
        sound(state) ==> sound(NotifierView { enabled: switched, ..state }),
{
}

/// A reading without a percentage changes nothing and alerts to nothing.
pub proof fn absent_reading_is_ignored(state: NotifierView, session: Option<Metric>)
    requires
        session is None || session->0.percent is None,
    ensures
        after_reading(state, session) == state,
        alert_of(state, session) is None,
{
}

/// The first reading that has a percentage is a baseline: it never alerts,
/// however high it is, and what it has passed counts as delivered.
pub proof fn first_reading_is_a_baseline(state: NotifierView, metric: Metric)
    requires
        sound(state),
        !state.baselined,
        metric.percent is Some,
    ensures
        alert_of(state, Some(metric)) is None,
        after_reading(state, Some(metric)).fired == passed(metric.percent->0),
{
    assert(after_reading(state, Some(metric)).fired =~= passed(metric.percent->0));
}

/// After a reading, a threshold counts as delivered exactly when usage is at
/// it or above: what usage dropped below is armed again.
pub proof fn delivered_is_what_is_passed(state: NotifierView, metric: Metric, threshold: u8)
    requires
        sound(state),
        metric.percent is Some,
        NOTIFY_THRESHOLDS@.contains(threshold),
    ensures
        after_reading(state, Some(metric)).fired.contains(threshold) <==> reached(
            metric.percent->0,
            threshold,
        ),
{
    let carry = carried(state, metric.resets_at);
    let percent = metric.percent->0;
    assert(still_fired(carry, percent).contains(threshold) ==> reached(percent, threshold));
}

/// An alert is for the highest crossing only: for an enabled threshold that
/// usage has reached and that was not delivered, with no such threshold above
/// it.
pub proof fn alert_is_for_the_highest(state: NotifierView, metric: Metric, other: u8)
    requires
        alert_of(state, Some(metric)) is Some,
    ensures
        ({
            let alert = alert_of(state, Some(metric))->0;
            let delivered = still_fired(carried(state, metric.resets_at), alert.percent);
            &&& metric.percent == Some(alert.percent)
            &&& state.enabled.contains(alert.threshold)
            &&& reached(alert.percent, alert.threshold)
            &&& !delivered.contains(alert.threshold)
            &&& alert.critical == urgent(alert.threshold)
            &&& state.enabled.contains(other) && reached(alert.percent, other)
                && !delivered.contains(other) ==> other <= alert.threshold
        }),
{
    let percent = metric.percent->0;
    highest_is_largest(
        state.enabled,
        percent,
        still_fired(carried(state, metric.resets_at), percent),
    );
}

/// One alert per crossing: while the window lasts and usage rises above no
/// threshold that it had not reached before, there is no further alert, and
/// none for a threshold that is switched on meanwhile.
pub proof fn no_alert_without_a_crossing(
    state: NotifierView,
    metric: Metric,
    enabled: Seq<u8>,
    next: Metric,
)
    requires
        sound(state),
        metric.percent is Some,
        next.percent is Some,
        one_window(metric.resets_at, next.resets_at),
        next.percent->0.value() <= metric.percent->0.value(),
        forall|t: u8| #[trigger] enabled.contains(t) ==> NOTIFY_THRESHOLDS@.contains(t),
    ensures
        alert_of(
            NotifierView { enabled, ..after_reading(state, Some(metric)) },
            Some(next),
        ) is None,
{
    let then = NotifierView { enabled, ..after_reading(state, Some(metric)) };
    let percent = next.percent->0;
    let delivered = still_fired(carried(then, next.resets_at), percent);
    highest_is_largest(enabled, percent, delivered);
    if let Some(t) = highest(enabled, percent, delivered) {
        assert(enabled.contains(t));
        delivered_is_what_is_passed(state, metric, t);
        assert(reached(metric.percent->0, t));
        assert(then.fired.contains(t));
        assert(delivered.contains(t));
    }
}

/// A crossing is announced: once the baseline is taken, usage that reaches an
/// enabled threshold that is not delivered gives an alert, for that threshold
/// or for a higher one.
pub proof fn crossing_is_announced(state: NotifierView, metric: Metric, threshold: u8)
    requires
        state.baselined,
        metric.percent is Some,
        state.enabled.contains(threshold),
        reached(metric.percent->0, threshold),
        !state.fired.contains(threshold) || !one_window(state.window, metric.resets_at),
    ensures
        alert_of(state, Some(metric)) matches Some(alert) && alert.threshold >= threshold,
{
    let percent = metric.percent->0;
    let delivered = still_fired(carried(state, metric.resets_at), percent);
    highest_is_largest(state.enabled, percent, delivered);
    assert(!delivered.contains(threshold));
}

// ---------------------------------------------------------------------------
// Quota resets
// ---------------------------------------------------------------------------

/// The "your 5-hour window rolled over" notification.
#[derive(Clone, Copy, Debug, PartialEq, Eq, Structural)]
pub struct ResetAlert {
    /// The reset that came due.
    pub at: Timestamp,
}

impl ResetAlert {
    /// Notification title.
    pub fn summary(&self, assistant: &Assistant) -> (text: String)
        ensures
            text@ == assistant.tray_title(),
    {
        assistant.tray_title_text()
    }

    /// Notification body.
    pub fn body(&self) -> (text: String)
        ensures
            text@ == "Session quota reset — fresh 5-hour window"@,
    {
        "Session quota reset — fresh 5-hour window".to_owned()
    }
}

/// Decides when the quota-reset notification fires.
///
/// It runs off the tray's own clock, so it fires on time even when nothing
/// refreshes the cache. A reset fires only if it was seen while still to come.
#[derive(Debug)]
pub struct ResetNotifier {
    /// A reset that is waited for.
    pub pending: Option<Timestamp>,
    /// The last reset already dealt with.
    pub handled: Option<Timestamp>,
}

impl Default for ResetNotifier {
    fn default() -> (notifier: Self)
        ensures
            notifier.pending is None,
            notifier.handled is None,
    {
        ResetNotifier { pending: None, handled: None }
    }
}

/// Whether a reset has come.
pub open spec fn due(pending: Option<Timestamp>, now: Timestamp) -> bool {
    pending matches Some(at) && at.nanos() <= now.nanos()
}

/// The reset that was last dealt with, after a look at the clock.
pub open spec fn handled_after(state: ResetNotifier, now: Timestamp) -> Option<Timestamp> {
    if due(state.pending, now) {
        state.pending
    } else {
        state.handled
    }
}

/// The state after a look at the clock and at the reported reset.
pub open spec fn after_tick(
    state: ResetNotifier,
    resets_at: Option<Timestamp>,
    now: Timestamp,
) -> ResetNotifier {
    let handled = handled_after(state, now);
    let waiting = if due(state.pending, now) {
        None
    } else {
        state.pending
    };
    ResetNotifier {
        pending: match resets_at {
            Some(at) => if at.nanos() > now.nanos() && handled != Some(at) {
                Some(at)
            } else {
                waiting
            },
            None => waiting,
        },
        handled,
    }
}

/// The alert that a look at the clock gives.
pub open spec fn reset_alert(
    state: ResetNotifier,
    now: Timestamp,
    enabled: bool,
) -> Option<ResetAlert> {
    if due(state.pending, now) && enabled {
        Some(ResetAlert { at: state.pending->0 })
    } else {
        None
    }
}

impl ResetNotifier {
    /// A notifier that waits for nothing.
    pub fn new() -> (notifier: Self)
        ensures
            notifier.pending is None,
            notifier.handled is None,
    {
        ResetNotifier { pending: None, handled: None }
    }

    /// Feeds in the session window's reset and the current time. When alerts
    /// are off, a reset that comes due is still dealt with; it just gives no
    /// alert.
    pub fn evaluate(&mut self, resets_at: Option<Timestamp>, now: Timestamp, enabled: bool) -> (alert:
        Option<ResetAlert>)
        ensures
            *final(self) == after_tick(*old(self), resets_at, now),
            alert == reset_alert(*old(self), now, enabled),
    {
        let mut fired: Option<ResetAlert> = None;
        if let Some(at) = self.pending {
            if !now.before(at) {
                self.pending = None;
                self.handled = Some(at);
                if enabled {
                    fired = Some(ResetAlert { at });
                }
            }
        }
        if let Some(at) = resets_at {
            let seen = match self.handled {
                Some(handled) => handled.same(at),
                None => false,
            };
            if now.before(at) && !seen {
                self.pending = Some(at);
            }
        }
        fired
    }

    /// The moment the poll loop must be awake by, if any.
    pub fn deadline(&self) -> (at: Option<Timestamp>)
        ensures
            at == self.pending,
    {
        self.pending
    }
}

/// A deadline is dealt with when it comes due: after a look at the clock none
/// is left that has passed, whatever the cache reports.
pub proof fn no_due_deadline_is_left(
    state: ResetNotifier,
    resets_at: Option<Timestamp>,
    now: Timestamp,
)
    ensures
        !due(after_tick(state, resets_at, now).pending, now),
{
}

/// A reset fires once: the reset that fired is not waited for again, and a
/// look at any later time fires nothing for it unless a different reset came
/// between.
pub proof fn reset_fires_once(
    state: ResetNotifier,
    resets_at: Option<Timestamp>,
    now: Timestamp,
    later: Timestamp,
)
    requires
        reset_alert(state, now, true) is Some,
    ensures
        ({
            let at = reset_alert(state, now, true)->0.at;
            let next = after_tick(state, resets_at, now);
            &&& at.nanos() <= now.nanos()
            &&& next.handled == Some(at)
            &&& next.pending != Some(at)
            &&& reset_alert(next, later, true) matches Some(again) ==> again.at != at
            &&& after_tick(next, Some(at), later).pending != Some(at)
        }),
{
}

/// A reset that was already past when it was first seen is never waited for.
pub proof fn past_reset_is_not_awaited(state: ResetNotifier, at: Timestamp, now: Timestamp)
    requires
        at.nanos() <= now.nanos(),
        state.pending != Some(at),
    ensures
        after_tick(state, Some(at), now).pending != Some(at),
{
}

/// Switching the alert off does not keep a reset for later: what is dealt with
/// is the same, on or off.
pub proof fn disabled_reset_is_consumed(
    state: ResetNotifier,
    resets_at: Option<Timestamp>,
    now: Timestamp,
)
    requires
        due(state.pending, now),
    ensures
        reset_alert(state, now, false) is None,
        after_tick(state, resets_at, now).handled == state.pending,
        !due(after_tick(state, resets_at, now).pending, now),
{
}

// ---------------------------------------------------------------------------
// Waiting
// ---------------------------------------------------------------------------

/// How many seconds to wait: the interval, cut short at a deadline.
pub open spec fn wait_secs(interval: u64, deadline: Option<Timestamp>, now: Timestamp) -> int {
    match deadline {
        Some(at) => {
            let until = if at.secs() > now.secs() {
                at.secs() - now.secs()
            } else {
                0
            };
            if until < interval {
                until
            } else {
                interval as int
            }
        },
        None => interval as int,
    }
}

/// How many seconds the poll loop should wait: the configured interval, cut
/// short so that a pending reset is handled the moment it comes due.
pub fn poll_wait(interval_secs: u64, deadline: Option<Timestamp>, now: Timestamp) -> (secs: u64)
    ensures
        secs == wait_secs(interval_secs, deadline, now),
{
    match deadline {
        Some(at) => {
            let gap: i64 = at.as_second() - now.as_second();
            let until: u64 = if gap > 0 {
                gap as u64
            } else {
                0
            };
            if until < interval_secs {
                until
            } else {
                interval_secs
            }
        },
        None => interval_secs,
    }
}

/// The wait is never longer than the interval, never goes past a deadline that
/// is still to come, and is none at all once the deadline is there.
pub proof fn wait_ends_in_time(interval: u64, deadline: Timestamp, now: Timestamp)
    ensures
        0 <= wait_secs(interval, Some(deadline), now) <= interval,
        deadline.secs() > now.secs() ==> now.secs() + wait_secs(interval, Some(deadline), now)
            <= deadline.secs(),
        deadline.secs() <= now.secs() ==> wait_secs(interval, Some(deadline), now) == 0,
        wait_secs(interval, None, now) == interval,
{
}

} // verus!
