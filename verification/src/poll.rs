//! The poll loop: what to announce, when to read again, how long to wait, what
//! to do when woken, and in which order.

use vstd::prelude::*;

use crate::assistant::Assistant;
use crate::cli_refresh::{long_ago, should_refresh};
use crate::source::{SnapshotView, UsageSnapshot};
use crate::time::Timestamp;
use crate::ui::labels::{
    differs, refresh_message, refresh_text, snapshot_changed, status_message, status_message_text,
};
use crate::ui::notifier::{
    after_reading, after_tick, alert_of, due, poll_wait, reset_alert, wait_secs, Notifier,
    NotifierView, ResetAlert, ResetNotifier, UsageAlert,
};
use crate::ui::settings::NotifyPrefs;
use crate::ui::tray_core::Wake;

verus! {

/// How a wait ended.
#[derive(Clone, Copy, Debug, PartialEq, Eq, Structural)]
pub enum Woken {
    /// The tray sent something.
    Sent(Wake),
    /// The time was up.
    TimedOut,
    /// The tray is gone.
    Disconnected,
}

/// What to say after reading again.
#[derive(Clone, Copy, Debug, PartialEq, Eq, Structural)]
pub enum PostRead {
    Silent,
    /// Whether there is anything new.
    RefreshToast,
    /// What the current usage is.
    StatusToast,
}

/// What to do when the wait has ended.
#[derive(Clone, Copy, Debug, PartialEq, Eq, Structural)]
pub enum PollStep {
    /// Read again.
    Read(PostRead),
    /// Start over without reading.
    Again,
    /// Repaint the tray, and start over without reading.
    Repaint,
    /// Install the hook and say how that went, then read again.
    InstallThenRead(PostRead),
    /// End the program.
    Stop,
}

/// What to do when the wait has ended.
pub open spec fn step_for(woken: Woken) -> PollStep {
    match woken {
        Woken::Sent(Wake::Refresh) => PollStep::Read(PostRead::RefreshToast),
        Woken::Sent(Wake::ShowStatus) => PollStep::Read(PostRead::StatusToast),
        Woken::Sent(Wake::IntervalChanged) => PollStep::Again,
        Woken::Sent(Wake::NotifyChanged) => PollStep::Again,
        Woken::Sent(Wake::AppearanceChanged) => PollStep::Repaint,
        Woken::Sent(Wake::UpdateAvailable) => PollStep::Repaint,
        Woken::Sent(Wake::InstallHook) => PollStep::InstallThenRead(PostRead::Silent),
        Woken::Sent(Wake::Quit) => PollStep::Stop,
        Woken::TimedOut => PollStep::Read(PostRead::Silent),
        Woken::Disconnected => PollStep::Stop,
    }
}

/// What to do when the wait has ended.
pub fn on_wake(woken: Woken) -> (step: PollStep)
    ensures
        step == step_for(woken),
{
    match woken {
        Woken::Sent(wake) => match wake {
            Wake::Refresh => PollStep::Read(PostRead::RefreshToast),
            Wake::ShowStatus => PollStep::Read(PostRead::StatusToast),
            Wake::IntervalChanged => PollStep::Again,
            Wake::NotifyChanged => PollStep::Again,
            Wake::AppearanceChanged => PollStep::Repaint,
            Wake::UpdateAvailable => PollStep::Repaint,
            Wake::InstallHook => PollStep::InstallThenRead(PostRead::Silent),
            Wake::Quit => PollStep::Stop,
        },
        Woken::TimedOut => PollStep::Read(PostRead::Silent),
        Woken::Disconnected => PollStep::Stop,
    }
}

/// What the loop remembers from one cycle to the next.
#[derive(Debug)]
pub struct PollLoop {
    pub notifier: Notifier,
    pub resets: ResetNotifier,
    /// When the usage record was last asked to be refreshed.
    pub last_cli_refresh: Option<Timestamp>,
    /// The snapshot last read.
    pub snapshot: UsageSnapshot,
}

/// The contents of a [`PollLoop`].
pub ghost struct PollView {
    pub notifier: NotifierView,
    pub resets: ResetNotifier,
    pub last_cli_refresh: Option<Timestamp>,
    pub snapshot: SnapshotView,
}

impl View for PollLoop {
    type V = PollView;

    open spec fn view(&self) -> PollView {
        PollView {
            notifier: self.notifier@,
            resets: self.resets,
            last_cli_refresh: self.last_cli_refresh,
            snapshot: self.snapshot@,
        }
    }
}

/// A notifier with other thresholds switched on.
pub open spec fn retuned(notifier: NotifierView, thresholds: Seq<u8>) -> NotifierView {
    NotifierView { enabled: thresholds, ..notifier }
}

/// The reset of the session window in a snapshot.
pub open spec fn session_reset(snapshot: SnapshotView) -> Option<Timestamp> {
    match snapshot.session {
        Some(metric) => metric.resets_at,
        None => None,
    }
}

/// What is said after reading again.
pub open spec fn post_read_text(
    post: PostRead,
    before: SnapshotView,
    after: SnapshotView,
    now: Timestamp,
    tz: jiff::tz::TimeZone,
    assistant: Assistant,
) -> Option<Seq<char>> {
    match post {
        PostRead::Silent => None,
        PostRead::RefreshToast => Some(refresh_text(before, after, now, tz, assistant)),
        PostRead::StatusToast => Some(status_message_text(after, now, tz)),
    }
}

impl PollLoop {
    /// A loop that has read its first snapshot.
    pub fn new(snapshot: UsageSnapshot, prefs: &NotifyPrefs) -> (poll: Self)
        ensures
            poll@ == (PollView {
                notifier: NotifierView {
                    enabled: prefs@.thresholds,
                    fired: Set::empty(),
                    window: None,
                    seen_window: false,
                    baselined: false,
                },
                resets: ResetNotifier { pending: None, handled: None },
                last_cli_refresh: None,
                snapshot: snapshot@,
            }),
    {
        PollLoop {
            notifier: Notifier::new(prefs.thresholds.as_slice()),
            resets: ResetNotifier::new(),
            last_cli_refresh: None,
            snapshot,
        }
    }

    /// Takes up the preferences, so that a switched setting applies at once, and
    /// looks whether the snapshot crosses a threshold.
    pub fn announce(&mut self, prefs: &NotifyPrefs) -> (alert: Option<UsageAlert>)
        ensures
            final(self)@ == (PollView {
                notifier: after_reading(
                    retuned(old(self)@.notifier, prefs@.thresholds),
                    old(self)@.snapshot.session,
                ),
                ..old(self)@
            }),
            alert == alert_of(
                retuned(old(self)@.notifier, prefs@.thresholds),
                old(self)@.snapshot.session,
            ),
    {
        self.notifier.set_enabled(prefs.thresholds.as_slice());
        self.notifier.evaluate(self.snapshot.session.as_ref())
    }

    /// Whether to ask for a refresh of the usage record now. If so, it counts
    /// as asked for.
    pub fn refresh_due(&mut self, enabled: bool, now: Timestamp) -> (refresh: bool)
        ensures
            refresh == (enabled && long_ago(old(self)@.snapshot.scoped_fetched_at, now) && long_ago(
                old(self)@.last_cli_refresh,
                now,
            )),
            final(self)@ == (PollView {
                last_cli_refresh: if refresh {
                    Some(now)
                } else {
                    old(self)@.last_cli_refresh
                },
                ..old(self)@
            }),
    {
        let refresh = should_refresh(
            enabled,
            self.snapshot.scoped_fetched_at,
            self.last_cli_refresh,
            now,
        );
        if refresh {
            self.last_cli_refresh = Some(now);
        }
        refresh
    }

    /// Looks at the clock: the alert for a window that rolled over, and whether
    /// one did. If so the snapshot describes the window that ended, and is to
    /// be read again at once.
    pub fn tick(&mut self, now: Timestamp, on_reset: bool) -> (tick: (Option<ResetAlert>, bool))
        ensures
            final(self)@ == (PollView {
                resets: after_tick(
                    old(self)@.resets,
                    session_reset(old(self)@.snapshot),
                    now,
                ),
                ..old(self)@
            }),
            tick.0 == reset_alert(old(self)@.resets, now, on_reset),
            tick.1 == due(old(self)@.resets.pending, now),
    {
        let rolled_over = match self.resets.deadline() {
            Some(at) => !now.before(at),
            None => false,
        };
        let reset = match self.snapshot.session {
            Some(session) => session.resets_at,
            None => None,
        };
        let alert = self.resets.evaluate(reset, now, on_reset);
        (alert, rolled_over)
    }

    /// How many seconds to wait.
    pub fn wait(&self, interval_secs: u64, now: Timestamp) -> (secs: u64)
        ensures
            secs == wait_secs(interval_secs, self@.resets.pending, now),
    {
        poll_wait(interval_secs, self.resets.deadline(), now)
    }

    /// Takes in a new snapshot. Says whether the tray must be given it, and what
    /// to tell the user.
    pub fn receive(
        &mut self,
        next: UsageSnapshot,
        post: PostRead,
        now: Timestamp,
        tz: &jiff::tz::TimeZone,
        assistant: &Assistant,
    ) -> (told: (bool, Option<String>))
        ensures
            final(self)@ == (PollView { snapshot: next@, ..old(self)@ }),
            told.0 == differs(old(self)@.snapshot, next@),
            match told.1 {
                Some(text) => post_read_text(
                    post,
                    old(self)@.snapshot,
                    next@,
                    now,
                    *tz,
                    *assistant,
                ) == Some(text@),
                None => post_read_text(
                    post,
                    old(self)@.snapshot,
                    next@,
                    now,
                    *tz,
                    *assistant,
                ) is None,
            },
    {
        let changed = snapshot_changed(&self.snapshot, &next);
        let text = match post {
            PostRead::Silent => None,
            PostRead::RefreshToast => Some(
                refresh_message(&self.snapshot, &next, now, tz, assistant),
            ),
            PostRead::StatusToast => Some(status_message(&next, now, tz)),
        };
        self.snapshot = next;
        (changed, text)
    }
}

/// The loop never sleeps past a reset that it has just learned of: where one is
/// still to come and was not dealt with, the wait ends by then.
pub proof fn reset_is_not_slept_through(
    poll: PollView,
    at: Timestamp,
    interval: u64,
    now: Timestamp,
)
    requires
        session_reset(poll.snapshot) == Some(at),
        now.secs() < at.secs(),
        now.nanos() < at.nanos(),
        poll.resets.handled != Some(at),
        !due(poll.resets.pending, now),
    ensures
        after_tick(poll.resets, session_reset(poll.snapshot), now).pending == Some(at),
        now.secs() + wait_secs(
            interval,
            after_tick(poll.resets, session_reset(poll.snapshot), now).pending,
            now,
        ) <= at.secs(),
{
}

/// Reading again at once ends: after a cycle in which a window rolled over, a
/// cycle at the same time finds none that did, whatever was read.
pub proof fn rollover_is_read_once(poll: PollView, next: SnapshotView, now: Timestamp)
    ensures
        ({
            let after = after_tick(poll.resets, session_reset(poll.snapshot), now);
            &&& !due(after.pending, now)
            &&& !due(after_tick(after, session_reset(next), now).pending, now)
            &&& reset_alert(after, now, true) is None
        }),
{
}

/// A click on the icon is answered with the current usage, whatever was shown
/// before.
pub proof fn click_reports_current_usage(
    before: SnapshotView,
    other: SnapshotView,
    after: SnapshotView,
    now: Timestamp,
    tz: jiff::tz::TimeZone,
    assistant: Assistant,
)
    ensures
        step_for(Woken::Sent(Wake::ShowStatus)) == PollStep::Read(PostRead::StatusToast),
        post_read_text(PostRead::StatusToast, before, after, now, tz, assistant) == post_read_text(
            PostRead::StatusToast,
            other,
            after,
            now,
            tz,
            assistant,
        ),
{
}

/// Only what the user did is answered: the timer says nothing.
pub proof fn timer_is_silent(
    before: SnapshotView,
    after: SnapshotView,
    now: Timestamp,
    tz: jiff::tz::TimeZone,
    assistant: Assistant,
)
    ensures
        step_for(Woken::TimedOut) == PollStep::Read(PostRead::Silent),
        post_read_text(PostRead::Silent, before, after, now, tz, assistant) is None,
{
}

// ---------------------------------------------------------------------------
// The cycle
// ---------------------------------------------------------------------------

/// What the cycle waits for.
#[derive(Clone, Copy, Debug, PartialEq, Eq, Structural)]
pub enum Phase {
    /// The preferences, with which a cycle starts.
    Prefs,
    /// That an alert was shown.
    Alerted,
    /// Whether the usage record may be refreshed.
    Refresh,
    /// That the refresh was started.
    Refreshed,
    /// Whether the program on disk was replaced.
    Binary,
    /// That the replacement was announced.
    Swapped,
    /// The time.
    Clock,
    /// That a reset was announced, and whether a window rolled over.
    Reset(bool),
    /// The interval.
    Interval,
    /// The end of the wait.
    Wait,
    /// That the tray was repainted.
    Repainted,
    /// That the hook was installed.
    Installed(PostRead),
    /// Whether the tray is still there.
    Handle(PostRead),
    /// A reading.
    Read(PostRead),
    /// That the tray was given the reading.
    Shown,
    /// That the user was told.
    Said,
    /// Nothing any more.
    Finished,
}

/// What happened.
#[derive(Debug)]
pub enum PollEvent {
    /// What was asked for is done.
    Done,
    /// The preferences as they are now.
    Prefs(NotifyPrefs),
    /// Whether the usage record may be refreshed, and the time.
    RefreshSetting { enabled: bool, now: Timestamp },
    /// Whether the program on disk was found replaced.
    Binary { swapped: bool },
    /// The time.
    Clock(Timestamp),
    /// The interval as it is now, in seconds, and the time.
    Interval { secs: u64, now: Timestamp },
    /// The wait ended.
    Woken(Woken),
    /// Whether the tray was closed.
    Handle { closed: bool },
    /// What was read, and the time after it.
    Snapshot { next: UsageSnapshot, now: Timestamp },
}

/// What to do next. Each is answered with an event.
#[derive(Clone, Debug, PartialEq, Eq)]
pub enum PollAction {
    /// Look at the preferences.
    AskPrefs,
    /// Show a threshold alert.
    ShowAlert(UsageAlert),
    /// Look whether the usage record may be refreshed.
    AskRefresh,
    /// Start a refresh of the usage record.
    StartRefresh,
    /// Look at the program on disk.
    LookAtBinary,
    /// Say that the program was replaced, offer the restart, and repaint.
    ShowSwap,
    /// Look at the clock.
    LookAtClock,
    /// Show a reset alert.
    ShowReset(ResetAlert),
    /// Look at the interval.
    AskInterval,
    /// Wait so many seconds for the tray.
    Wait(u64),
    /// Repaint the tray.
    Repaint,
    /// Install the hook, and say how that went.
    InstallHook,
    /// Look whether the tray is still there.
    LookAtHandle,
    /// Read usage again.
    Read,
    /// Give the tray the snapshot that was just read.
    ShowSnapshot,
    /// Tell the user something.
    Say(String),
    /// End the program.
    Stop,
}

/// What a [`PollAction`] says.
pub ghost enum PollActionView {
    AskPrefs,
    ShowAlert(UsageAlert),
    AskRefresh,
    StartRefresh,
    LookAtBinary,
    ShowSwap,
    LookAtClock,
    ShowReset(ResetAlert),
    AskInterval,
    Wait(int),
    Repaint,
    InstallHook,
    LookAtHandle,
    Read,
    ShowSnapshot,
    Say(Seq<char>),
    Stop,
}

impl View for PollAction {
    type V = PollActionView;

    open spec fn view(&self) -> PollActionView {
        match *self {
            PollAction::AskPrefs => PollActionView::AskPrefs,
            PollAction::ShowAlert(alert) => PollActionView::ShowAlert(alert),
            PollAction::AskRefresh => PollActionView::AskRefresh,
            PollAction::StartRefresh => PollActionView::StartRefresh,
            PollAction::LookAtBinary => PollActionView::LookAtBinary,
            PollAction::ShowSwap => PollActionView::ShowSwap,
            PollAction::LookAtClock => PollActionView::LookAtClock,
            PollAction::ShowReset(alert) => PollActionView::ShowReset(alert),
            PollAction::AskInterval => PollActionView::AskInterval,
            PollAction::Wait(secs) => PollActionView::Wait(secs as int),
            PollAction::Repaint => PollActionView::Repaint,
            PollAction::InstallHook => PollActionView::InstallHook,
            PollAction::LookAtHandle => PollActionView::LookAtHandle,
            PollAction::Read => PollActionView::Read,
            PollAction::ShowSnapshot => PollActionView::ShowSnapshot,
            PollAction::Say(text) => PollActionView::Say(text@),
            PollAction::Stop => PollActionView::Stop,
        }
    }
}

/// The poll loop as a machine: told what happened, it says what to do next.
#[derive(Debug)]
pub struct PollCycle {
    pub poll: PollLoop,
    pub phase: Phase,
    /// Whether resets are announced in this cycle.
    pub on_reset: bool,
    /// What to tell the user once the tray has the reading.
    pub said: Option<String>,
}

/// The contents of a [`PollCycle`].
pub ghost struct CycleView {
    pub poll: PollView,
    pub phase: Phase,
    pub on_reset: bool,
    pub said: Option<Seq<char>>,
}

impl View for PollCycle {
    type V = CycleView;

    open spec fn view(&self) -> CycleView {
        CycleView {
            poll: self.poll@,
            phase: self.phase,
            on_reset: self.on_reset,
            said: match self.said {
                Some(text) => Some(text@),
                None => None,
            },
        }
    }
}

/// Whether an event is an answer to what the cycle waits for.
pub open spec fn answers(phase: Phase, event: PollEvent) -> bool {
    match phase {
        Phase::Prefs => event is Prefs,
        Phase::Refresh => event is RefreshSetting,
        Phase::Binary => event is Binary,
        Phase::Clock => event is Clock,
        Phase::Interval => event is Interval,
        Phase::Wait => event is Woken,
        Phase::Handle(_) => event is Handle,
        Phase::Read(_) => event is Snapshot,
        Phase::Finished => false,
        _ => event is Done,
    }
}

/// A cycle that has got to a phase.
pub open spec fn at(cycle: CycleView, phase: Phase) -> CycleView {
    CycleView { phase, ..cycle }
}

/// After the clock: read at once where a window rolled over, else wait.
pub open spec fn after_clock(cycle: CycleView, rolled_over: bool) -> (CycleView, PollActionView) {
    if rolled_over {
        (at(cycle, Phase::Read(PostRead::Silent)), PollActionView::Read)
    } else {
        (at(cycle, Phase::Interval), PollActionView::AskInterval)
    }
}

/// After a reading was dealt with: say what there is to say, and start over.
pub open spec fn after_show(cycle: CycleView, said: Option<Seq<char>>) -> (CycleView, PollActionView) {
    match said {
        Some(text) => (
            CycleView { phase: Phase::Said, said: None, ..cycle },
            PollActionView::Say(text),
        ),
        None => (
            CycleView { phase: Phase::Prefs, said: None, ..cycle },
            PollActionView::AskPrefs,
        ),
    }
}

/// What the loop does after an event, and the state it is then in.
pub open spec fn cycle_step(
    cycle: CycleView,
    event: PollEvent,
    tz: jiff::tz::TimeZone,
    assistant: Assistant,
) -> (CycleView, PollActionView) {
    match (cycle.phase, event) {
        (Phase::Prefs, PollEvent::Prefs(prefs)) => {
            let notifier = retuned(cycle.poll.notifier, prefs@.thresholds);
            let session = cycle.poll.snapshot.session;
            let next = CycleView {
                poll: PollView { notifier: after_reading(notifier, session), ..cycle.poll },
                on_reset: prefs@.on_reset,
                ..cycle
            };
            match alert_of(notifier, session) {
                Some(alert) => (at(next, Phase::Alerted), PollActionView::ShowAlert(alert)),
                None => (at(next, Phase::Refresh), PollActionView::AskRefresh),
            }
        },
        (Phase::Alerted, PollEvent::Done) => (at(cycle, Phase::Refresh), PollActionView::AskRefresh),
        (Phase::Refresh, PollEvent::RefreshSetting { enabled, now }) => {
            if enabled && long_ago(cycle.poll.snapshot.scoped_fetched_at, now) && long_ago(
                cycle.poll.last_cli_refresh,
                now,
            ) {
                (
                    CycleView {
                        poll: PollView { last_cli_refresh: Some(now), ..cycle.poll },
                        phase: Phase::Refreshed,
                        ..cycle
                    },
                    PollActionView::StartRefresh,
                )
            } else {
                (at(cycle, Phase::Binary), PollActionView::LookAtBinary)
            }
        },
        (Phase::Refreshed, PollEvent::Done) => (at(cycle, Phase::Binary), PollActionView::LookAtBinary),
        (Phase::Binary, PollEvent::Binary { swapped }) => if swapped {
            (at(cycle, Phase::Swapped), PollActionView::ShowSwap)
        } else {
            (at(cycle, Phase::Clock), PollActionView::LookAtClock)
        },
        (Phase::Swapped, PollEvent::Done) => (at(cycle, Phase::Clock), PollActionView::LookAtClock),
        (Phase::Clock, PollEvent::Clock(now)) => {
            let rolled_over = due(cycle.poll.resets.pending, now);
            let next = CycleView {
                poll: PollView {
                    resets: after_tick(
                        cycle.poll.resets,
                        session_reset(cycle.poll.snapshot),
                        now,
                    ),
                    ..cycle.poll
                },
                ..cycle
            };
            match reset_alert(cycle.poll.resets, now, cycle.on_reset) {
                Some(alert) => (at(next, Phase::Reset(rolled_over)), PollActionView::ShowReset(alert)),
                None => after_clock(next, rolled_over),
            }
        },
        (Phase::Reset(rolled_over), PollEvent::Done) => after_clock(cycle, rolled_over),
        (Phase::Interval, PollEvent::Interval { secs, now }) => (
            at(cycle, Phase::Wait),
            PollActionView::Wait(wait_secs(secs, cycle.poll.resets.pending, now)),
        ),
        (Phase::Wait, PollEvent::Woken(woken)) => match step_for(woken) {
            PollStep::Read(post) => (at(cycle, Phase::Handle(post)), PollActionView::LookAtHandle),
            PollStep::InstallThenRead(post) => (
                at(cycle, Phase::Installed(post)),
                PollActionView::InstallHook,
            ),
            PollStep::Again => (at(cycle, Phase::Prefs), PollActionView::AskPrefs),
            PollStep::Repaint => (at(cycle, Phase::Repainted), PollActionView::Repaint),
            PollStep::Stop => (at(cycle, Phase::Finished), PollActionView::Stop),
        },
        (Phase::Repainted, PollEvent::Done) => (at(cycle, Phase::Prefs), PollActionView::AskPrefs),
        (Phase::Installed(post), PollEvent::Done) => (
            at(cycle, Phase::Handle(post)),
            PollActionView::LookAtHandle,
        ),
        (Phase::Handle(post), PollEvent::Handle { closed }) => if closed {
            (at(cycle, Phase::Finished), PollActionView::Stop)
        } else {
            (at(cycle, Phase::Read(post)), PollActionView::Read)
        },
        (Phase::Read(post), PollEvent::Snapshot { next, now }) => {
            let said = post_read_text(post, cycle.poll.snapshot, next@, now, tz, assistant);
            let after = CycleView {
                poll: PollView { snapshot: next@, ..cycle.poll },
                ..cycle
            };
            if differs(cycle.poll.snapshot, next@) {
                (CycleView { phase: Phase::Shown, said, ..after }, PollActionView::ShowSnapshot)
            } else {
                after_show(after, said)
            }
        },
        (Phase::Shown, PollEvent::Done) => after_show(cycle, cycle.said),
        (Phase::Said, PollEvent::Done) => (at(cycle, Phase::Prefs), PollActionView::AskPrefs),
        _ => (cycle, PollActionView::Stop),
    }
}

/// A loop that has read its first snapshot and done nothing yet.
pub open spec fn first_cycle(
    snapshot: SnapshotView,
    thresholds: Seq<u8>,
    on_reset: bool,
) -> CycleView {
    CycleView {
        poll: PollView {
            notifier: crate::ui::notifier::starting(thresholds),
            resets: ResetNotifier { pending: None, handled: None },
            last_cli_refresh: None,
            snapshot,
        },
        phase: Phase::Prefs,
        on_reset,
        said: None,
    }
}

impl PollCycle {
    /// A loop that has read its first snapshot, and what it does first.
    pub fn begin(snapshot: UsageSnapshot, prefs: &NotifyPrefs) -> (begun: (Self, PollAction))
        ensures
            begun.0@ == (CycleView {
                poll: PollView {
                    notifier: NotifierView {
                        enabled: prefs@.thresholds,
                        fired: Set::empty(),
                        window: None,
                        seen_window: false,
                        baselined: false,
                    },
                    resets: ResetNotifier { pending: None, handled: None },
                    last_cli_refresh: None,
                    snapshot: snapshot@,
                },
                phase: Phase::Prefs,
                on_reset: prefs@.on_reset,
                said: None,
            }),
            begun.0@ == first_cycle(snapshot@, prefs@.thresholds, prefs@.on_reset),
            begun.1@ == PollActionView::AskPrefs,
    {
        let cycle = PollCycle {
            poll: PollLoop::new(snapshot, prefs),
            phase: Phase::Prefs,
            on_reset: prefs.on_reset,
            said: None,
        };
        (cycle, PollAction::AskPrefs)
    }

    /// The snapshot last read.
    pub fn snapshot(&self) -> (snapshot: &UsageSnapshot)
        ensures
            snapshot@ == self@.poll.snapshot,
    {
        &self.poll.snapshot
    }

    fn go_on_after_clock(&mut self, rolled_over: bool) -> (action: PollAction)
        ensures
            (final(self)@, action@) == after_clock(old(self)@, rolled_over),
    {
        if rolled_over {
            self.phase = Phase::Read(PostRead::Silent);
            PollAction::Read
        } else {
            self.phase = Phase::Interval;
            PollAction::AskInterval
        }
    }

    fn go_on_after_show(&mut self, said: Option<String>) -> (action: PollAction)
        ensures
            (final(self)@, action@) == after_show(
                old(self)@,
                match said {
                    Some(text) => Some(text@),
                    None => None,
                },
            ),
    {
        self.said = None;
        match said {
            Some(text) => {
                self.phase = Phase::Said;
                PollAction::Say(text)
            },
            None => {
                self.phase = Phase::Prefs;
                PollAction::AskPrefs
            },
        }
    }

    /// One step of the poll loop: takes in what happened and says what to do
    /// next.
    pub fn poll_loop(
        &mut self,
        event: PollEvent,
        tz: &jiff::tz::TimeZone,
        assistant: &Assistant,
    ) -> (action: PollAction)
        requires
            answers(old(self)@.phase, event),
        ensures
            (final(self)@, action@) == cycle_step(old(self)@, event, *tz, *assistant),
    {
        match event {
            PollEvent::Prefs(prefs) => {
                self.on_reset = prefs.on_reset;
                match self.poll.announce(&prefs) {
                    Some(alert) => {
                        self.phase = Phase::Alerted;
                        PollAction::ShowAlert(alert)
                    },
                    None => {
                        self.phase = Phase::Refresh;
                        PollAction::AskRefresh
                    },
                }
            },
            PollEvent::RefreshSetting { enabled, now } => {
                if self.poll.refresh_due(enabled, now) {
                    self.phase = Phase::Refreshed;
                    PollAction::StartRefresh
                } else {
                    self.phase = Phase::Binary;
                    PollAction::LookAtBinary
                }
            },
            PollEvent::Binary { swapped } => {
                if swapped {
                    self.phase = Phase::Swapped;
                    PollAction::ShowSwap
                } else {
                    self.phase = Phase::Clock;
                    PollAction::LookAtClock
                }
            },
            PollEvent::Clock(now) => {
                let (alert, rolled_over) = self.poll.tick(now, self.on_reset);
                match alert {
                    Some(alert) => {
                        self.phase = Phase::Reset(rolled_over);
                        PollAction::ShowReset(alert)
                    },
                    None => self.go_on_after_clock(rolled_over),
                }
            },
            PollEvent::Interval { secs, now } => {
                self.phase = Phase::Wait;
                PollAction::Wait(self.poll.wait(secs, now))
            },
            PollEvent::Woken(woken) => match on_wake(woken) {
                PollStep::Read(post) => {
                    self.phase = Phase::Handle(post);
                    PollAction::LookAtHandle
                },
                PollStep::InstallThenRead(post) => {
                    self.phase = Phase::Installed(post);
                    PollAction::InstallHook
                },
                PollStep::Again => {
                    self.phase = Phase::Prefs;
                    PollAction::AskPrefs
                },
                PollStep::Repaint => {
                    self.phase = Phase::Repainted;
                    PollAction::Repaint
                },
                PollStep::Stop => {
                    self.phase = Phase::Finished;
                    PollAction::Stop
                },
            },
            PollEvent::Handle { closed } => {
                if closed {
                    self.phase = Phase::Finished;
                    return PollAction::Stop;
                }
                if let Phase::Handle(post) = self.phase {
                    self.phase = Phase::Read(post);
                }
                PollAction::Read
            },
            PollEvent::Snapshot { next, now } => {
                let post = match self.phase {
                    Phase::Read(post) => post,
                    _ => PostRead::Silent,
                };
                let (changed, said) = self.poll.receive(next, post, now, tz, assistant);
                if changed {
                    self.phase = Phase::Shown;
                    self.said = said;
                    PollAction::ShowSnapshot
                } else {
                    self.go_on_after_show(said)
                }
            },
            PollEvent::Done => match self.phase {
                Phase::Alerted => {
                    self.phase = Phase::Refresh;
                    PollAction::AskRefresh
                },
                Phase::Refreshed => {
                    self.phase = Phase::Binary;
                    PollAction::LookAtBinary
                },
                Phase::Swapped => {
                    self.phase = Phase::Clock;
                    PollAction::LookAtClock
                },
                Phase::Reset(rolled_over) => self.go_on_after_clock(rolled_over),
                Phase::Installed(post) => {
                    self.phase = Phase::Handle(post);
                    PollAction::LookAtHandle
                },
                Phase::Shown => {
                    let said = self.said.take();
                    self.go_on_after_show(said)
                },
                _ => {
                    self.phase = Phase::Prefs;
                    PollAction::AskPrefs
                },
            },
        }
    }
}

/// The tray is given a snapshot only after a reading that differs from the one
/// before, and then it is that reading; and nothing but a reading changes what
/// the loop takes for the current usage.
pub proof fn only_changed_readings_are_shown(
    cycle: CycleView,
    event: PollEvent,
    tz: jiff::tz::TimeZone,
    assistant: Assistant,
)
    requires
        answers(cycle.phase, event),
    ensures
        ({
            let (next, action) = cycle_step(cycle, event, tz, assistant);
            &&& action == PollActionView::ShowSnapshot <==> (event matches PollEvent::Snapshot {
                next: read,
                ..
            } && differs(cycle.poll.snapshot, read@))
            &&& next.poll.snapshot == (match event {
                PollEvent::Snapshot { next: read, .. } => read@,
                _ => cycle.poll.snapshot,
            })
        }),
{
}

/// The loop ends when the user quits, when nobody can send to it any more, or
/// when the tray was closed, and never else.
pub proof fn loop_ends_only_when_told(
    cycle: CycleView,
    event: PollEvent,
    tz: jiff::tz::TimeZone,
    assistant: Assistant,
)
    requires
        answers(cycle.phase, event),
    ensures
        cycle_step(cycle, event, tz, assistant).1 == PollActionView::Stop <==> (event
            == PollEvent::Woken(Woken::Sent(Wake::Quit)) || event == PollEvent::Woken(
            Woken::Disconnected,
        ) || event == (PollEvent::Handle { closed: true })),
        cycle_step(cycle, event, tz, assistant).1 == PollActionView::Stop <==> cycle_step(
            cycle,
            event,
            tz,
            assistant,
        ).0.phase == Phase::Finished,
{
}

/// Usage is read again only once the tray was found to be there after a wake
/// that asks for it, or at once where a window rolled over.
pub proof fn reading_has_a_reason(
    cycle: CycleView,
    event: PollEvent,
    tz: jiff::tz::TimeZone,
    assistant: Assistant,
)
    requires
        answers(cycle.phase, event),
    ensures
        ({
            let (next, action) = cycle_step(cycle, event, tz, assistant);
            &&& action == PollActionView::Read <==> {
                ||| event == (PollEvent::Handle { closed: false })
                ||| cycle.phase == Phase::Reset(true)
                ||| event matches PollEvent::Clock(now) && due(cycle.poll.resets.pending, now)
                    && reset_alert(cycle.poll.resets, now, cycle.on_reset) is None
            }
            &&& next.phase matches Phase::Handle(post) ==> cycle.phase == Phase::Installed(post)
                || (event matches PollEvent::Woken(woken) && step_for(woken) == PollStep::Read(
                post,
            ))
            &&& next.phase matches Phase::Installed(post) ==> event == PollEvent::Woken(
                Woken::Sent(Wake::InstallHook),
            ) && post == PostRead::Silent
            &&& next.phase == Phase::Reset(true) ==> (event matches PollEvent::Clock(now) && due(
                cycle.poll.resets.pending,
                now,
            ))
        }),
{
}

/// A changed setting, a changed theme and a found release read nothing: the
/// next cycle starts, for the last two after a repaint.
pub proof fn settings_wakes_read_nothing(
    cycle: CycleView,
    wake: Wake,
    tz: jiff::tz::TimeZone,
    assistant: Assistant,
)
    requires
        cycle.phase == Phase::Wait,
        wake == Wake::IntervalChanged || wake == Wake::NotifyChanged || wake
            == Wake::AppearanceChanged || wake == Wake::UpdateAvailable,
    ensures
        ({
            let woken = PollEvent::Woken(Woken::Sent(wake));
            let over = (at(cycle, Phase::Prefs), PollActionView::AskPrefs);
            let first = cycle_step(cycle, woken, tz, assistant);
            if wake == Wake::IntervalChanged || wake == Wake::NotifyChanged {
                first == over
            } else {
                first == (at(cycle, Phase::Repainted), PollActionView::Repaint) && cycle_step(
                    first.0,
                    PollEvent::Done,
                    tz,
                    assistant,
                ) == over
            }
        }),
{
}

/// A wake that asks for a reading gets one, and its answer: the tray is given
/// what was read where it changed, the user is told what the wake asks to be
/// told, and then the next cycle starts. The timer tells nothing.
pub proof fn reading_wakes_are_answered(
    cycle: CycleView,
    woken: Woken,
    post: PostRead,
    read: UsageSnapshot,
    now: Timestamp,
    tz: jiff::tz::TimeZone,
    assistant: Assistant,
)
    requires
        cycle.phase == Phase::Wait,
        step_for(woken) == PollStep::Read(post),
    ensures
        woken == Woken::Sent(Wake::Refresh) ==> post == PostRead::RefreshToast,
        woken == Woken::Sent(Wake::ShowStatus) ==> post == PostRead::StatusToast,
        woken == Woken::TimedOut ==> post == PostRead::Silent,
        ({
            let looked = cycle_step(cycle, PollEvent::Woken(woken), tz, assistant);
            let there = cycle_step(looked.0, PollEvent::Handle { closed: false }, tz, assistant);
            let taken = cycle_step(
                there.0,
                PollEvent::Snapshot { next: read, now },
                tz,
                assistant,
            );
            let text = post_read_text(post, cycle.poll.snapshot, read@, now, tz, assistant);
            let changed = differs(cycle.poll.snapshot, read@);
            let shown = if changed {
                cycle_step(taken.0, PollEvent::Done, tz, assistant)
            } else {
                taken
            };
            &&& looked.1 == PollActionView::LookAtHandle
            &&& there.1 == PollActionView::Read
            &&& changed ==> taken.1 == PollActionView::ShowSnapshot
            &&& shown.0.poll == (PollView { snapshot: read@, ..cycle.poll })
            &&& match text {
                Some(t) => shown.1 == PollActionView::Say(t) && cycle_step(
                    shown.0,
                    PollEvent::Done,
                    tz,
                    assistant,
                ).1 == PollActionView::AskPrefs,
                None => shown.1 == PollActionView::AskPrefs,
            }
        }),
{
}

} // verus!
