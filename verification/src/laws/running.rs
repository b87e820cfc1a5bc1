//! Laws of the running program: the poll loop, the update check, the one
//! instance and its restart, and the command line.

use vstd::prelude::*;
use vstd::string::*;

use crate::assistant::Assistant;
use crate::binary::{after_look, finds_swap, BinaryIdentity, WatchView};
use crate::checker::{action_after, CheckEvent, CheckView};
use crate::cli::{
    hook_code, hook_mode_of, mode_of, statusline_asks, statusline_code, HookMode, Mode,
    StatuslineMode,
};
use crate::cli_refresh::{long_ago, refresh_next, refresh_wanted, RefreshStep};
use crate::files::FileRead;
use crate::greeting::{deserved, greeted, record_of, recorded_in, GreetingView};
use crate::instance::{
    attempt_of, holder_in, legacy_dirs, lock_dir, lock_file, lock_to_hold, named_pid,
    on_its_way_out, probe_of, retry_after, still_there, Attempt, FileIdentity, Locked, Opened,
    Probe, Retry, Revalidation,
};
use crate::platform::macos::worth_resending;
use crate::platform::{Channel, Urgency};
use crate::poll::{
    cycle_step, first_cycle, post_read_text, session_reset, step_for, CycleView, Phase,
    PollActionView, PollEvent, PollStep, PollView, PostRead, Woken,
};
use crate::restart::{
    claim_of, clear_at, clearing, exit_grace, failed, fresh_restart, held_after_kill, holding,
    kill_note, left_to_watcher, notes_due, replacement_seen, signal_failure, step, succeeded,
    unsure, vacant, waiting, Claim, ClearFailure, ClearStart, Cleared, Event, ExitWait, HoldStep,
    LegacyLook, Restart, RestartAction,
};
use crate::source::SnapshotView;
use crate::text::{trimmed, unsigned};
use crate::time::Timestamp;
use crate::toasts::{
    refresh_shown, reset_shown, restart_failure_shown, swap_shown, threshold_shown,
};
use crate::ui::labels::{refresh_text, status_message_text};
use crate::ui::notifier::UsageAlert;
use crate::ui::settings::NotifyPrefs;
use crate::ui::tray_core::{icon_wake, Wake};
use crate::update::{label_of, Update};
use crate::wrapped::{next_after, Look, Next};

verus! {

// ---------------------------------------------------------------------------
// The poll loop
// ---------------------------------------------------------------------------

/// The loop begins with the snapshot that was read and nothing else: nothing is
/// waited for, nothing was refreshed, and no threshold was delivered.
pub proof fn loop_begins_with_its_snapshot(
    snapshot: SnapshotView,
    thresholds: Seq<u8>,
    on_reset: bool,
)
    ensures
        ({
            let cycle = first_cycle(snapshot, thresholds, on_reset);
            &&& cycle.phase == Phase::Prefs
            &&& cycle.on_reset == on_reset
            &&& cycle.said is None
            &&& cycle.poll.snapshot == snapshot
            &&& cycle.poll.last_cli_refresh is None
            &&& cycle.poll.resets.pending is None && cycle.poll.resets.handled is None
            &&& cycle.poll.notifier.enabled == thresholds
            &&& cycle.poll.notifier.fired == Set::<u8>::empty()
            &&& !cycle.poll.notifier.baselined
        }),
{
}

/// What each wake asks for: a reading with an answer, a reading without, a
/// repaint, a new cycle, an install, or the end.
pub proof fn wakes_ask_for_what_they_say()
    ensures
        step_for(Woken::Sent(Wake::Refresh)) == PollStep::Read(PostRead::RefreshToast),
        step_for(Woken::Sent(Wake::ShowStatus)) == PollStep::Read(PostRead::StatusToast),
        step_for(Woken::Sent(Wake::IntervalChanged)) == PollStep::Again,
        step_for(Woken::Sent(Wake::NotifyChanged)) == PollStep::Again,
        step_for(Woken::Sent(Wake::AppearanceChanged)) == PollStep::Repaint,
        step_for(Woken::Sent(Wake::UpdateAvailable)) == PollStep::Repaint,
        step_for(Woken::Sent(Wake::InstallHook)) == PollStep::InstallThenRead(PostRead::Silent),
        step_for(Woken::Sent(Wake::Quit)) == PollStep::Stop,
        step_for(Woken::TimedOut) == PollStep::Read(PostRead::Silent),
        step_for(Woken::Disconnected) == PollStep::Stop,
{
}

/// What is said after a reading is what was asked for: nothing, what is new, or
/// the current usage.
pub proof fn reading_is_answered_as_asked(
    before: SnapshotView,
    after: SnapshotView,
    now: Timestamp,
    tz: jiff::tz::TimeZone,
    assistant: Assistant,
)
    ensures
        post_read_text(PostRead::Silent, before, after, now, tz, assistant) is None,
        post_read_text(PostRead::RefreshToast, before, after, now, tz, assistant) == Some(
            refresh_text(before, after, now, tz, assistant),
        ),
        post_read_text(PostRead::StatusToast, before, after, now, tz, assistant) == Some(
            status_message_text(after, now, tz),
        ),
{
}

/// A click on the icon has usage read and told, whatever was shown before; on the
/// plain tray's it has usage read.
pub proof fn click_on_the_icon_is_answered(
    before: SnapshotView,
    after: SnapshotView,
    now: Timestamp,
    tz: jiff::tz::TimeZone,
    assistant: Assistant,
)
    ensures
        step_for(Woken::Sent(icon_wake())) matches PollStep::Read(post) && post_read_text(
            post,
            before,
            after,
            now,
            tz,
            assistant,
        ) == Some(status_message_text(after, now, tz)),
        crate::tray::icon_wake() == crate::tray::Wake::Refresh,
{
}

/// A cycle with nothing to announce looks at the refresh, at the program on disk,
/// at the clock and at the interval, and then waits, in this order. A refresh is
/// started exactly where it is switched on and both the record and the last
/// attempt are more than an hour old, and then counts as attempted.
pub proof fn cycle_runs_in_order(
    cycle: CycleView,
    enabled: bool,
    now: Timestamp,
    tz: jiff::tz::TimeZone,
    assistant: Assistant,
)
    ensures
        cycle.phase == Phase::Alerted ==> cycle_step(cycle, PollEvent::Done, tz, assistant) == (
            CycleView { phase: Phase::Refresh, ..cycle },
            PollActionView::AskRefresh,
        ),
        cycle.phase == Phase::Refresh ==> ({
            let (next, action) = cycle_step(
                cycle,
                PollEvent::RefreshSetting { enabled, now },
                tz,
                assistant,
            );
            let old_record = match cycle.poll.snapshot.scoped_fetched_at {
                Some(at) => now.secs() > at.secs() + 3600,
                None => true,
            };
            let old_attempt = match cycle.poll.last_cli_refresh {
                Some(at) => now.secs() > at.secs() + 3600,
                None => true,
            };
            &&& enabled && old_record && old_attempt ==> action == PollActionView::StartRefresh
                && next.phase == Phase::Refreshed && next.poll == (PollView {
                last_cli_refresh: Some(now),
                ..cycle.poll
            })
            &&& !(enabled && old_record && old_attempt) ==> action == PollActionView::LookAtBinary
                && next == (CycleView { phase: Phase::Binary, ..cycle })
        }),
        cycle.phase == Phase::Refreshed ==> cycle_step(cycle, PollEvent::Done, tz, assistant) == (
            CycleView { phase: Phase::Binary, ..cycle },
            PollActionView::LookAtBinary,
        ),
        cycle.phase == Phase::Binary ==> cycle_step(
            cycle,
            PollEvent::Binary { swapped: false },
            tz,
            assistant,
        ) == (CycleView { phase: Phase::Clock, ..cycle }, PollActionView::LookAtClock),
        cycle.phase == Phase::Binary ==> cycle_step(
            cycle,
            PollEvent::Binary { swapped: true },
            tz,
            assistant,
        ) == (CycleView { phase: Phase::Swapped, ..cycle }, PollActionView::ShowSwap),
        cycle.phase == Phase::Swapped ==> cycle_step(cycle, PollEvent::Done, tz, assistant) == (
            CycleView { phase: Phase::Clock, ..cycle },
            PollActionView::LookAtClock,
        ),
{
}

/// A cycle takes up the preferences as they are now: their thresholds count for
/// this reading and their choice for this cycle's resets, and an alert that they
/// give is shown.
pub proof fn cycle_takes_up_the_preferences(
    cycle: CycleView,
    prefs: NotifyPrefs,
    tz: jiff::tz::TimeZone,
    assistant: Assistant,
)
    requires
        cycle.phase == Phase::Prefs,
    ensures
        ({
            let (next, action) = cycle_step(cycle, PollEvent::Prefs(prefs), tz, assistant);
            let tuned = crate::ui::notifier::NotifierView {
                enabled: prefs@.thresholds,
                ..cycle.poll.notifier
            };
            let alert = crate::ui::notifier::alert_of(tuned, cycle.poll.snapshot.session);
            &&& next.on_reset == prefs@.on_reset
            &&& next.poll.notifier.enabled == prefs@.thresholds
            &&& next.poll == (PollView {
                notifier: crate::ui::notifier::after_reading(tuned, cycle.poll.snapshot.session),
                ..cycle.poll
            })
            &&& alert matches Some(a) ==> action == PollActionView::ShowAlert(a) && next.phase
                == Phase::Alerted
            &&& alert is None ==> action == PollActionView::AskRefresh && next.phase
                == Phase::Refresh
        }),
{
}

/// At the clock a window that has rolled over is announced where resets are, and
/// is read again at once in any case; where none has, the loop goes on to wait.
pub proof fn rollover_is_announced_and_read(
    cycle: CycleView,
    now: Timestamp,
    tz: jiff::tz::TimeZone,
    assistant: Assistant,
)
    requires
        cycle.phase == Phase::Clock,
    ensures
        ({
            let rolled = cycle.poll.resets.pending matches Some(at) && at.nanos() <= now.nanos();
            let (next, action) = cycle_step(cycle, PollEvent::Clock(now), tz, assistant);
            let (then, after) = cycle_step(next, PollEvent::Done, tz, assistant);
            &&& rolled && cycle.on_reset ==> (action matches PollActionView::ShowReset(alert)
                && Some(alert.at) == cycle.poll.resets.pending) && after == PollActionView::Read
                && then.phase == Phase::Read(PostRead::Silent)
            &&& rolled && !cycle.on_reset ==> action == PollActionView::Read && next.phase
                == Phase::Read(PostRead::Silent)
            &&& !rolled ==> action == PollActionView::AskInterval && next.phase == Phase::Interval
            &&& next.poll == (PollView { resets: next.poll.resets, ..cycle.poll })
        }),
{
}

/// The reset that is waited for is that of the session window.
pub proof fn session_reset_is_awaited(snapshot: SnapshotView)
    ensures
        snapshot.session is None ==> session_reset(snapshot) is None,
        snapshot.session matches Some(metric) ==> session_reset(snapshot) == metric.resets_at,
{
}

/// Something is long ago where it is more than an hour old, and where it never
/// was.
pub proof fn an_hour_is_long_ago(at: Timestamp, now: Timestamp)
    ensures
        long_ago(None, now),
        long_ago(Some(at), now) <==> at.secs() + 60 * 60 < now.secs(),
{
}

/// A refresh is wanted only where it is switched on, and never within an hour of
/// the record or of another attempt.
pub proof fn refresh_is_wanted_when_old(
    enabled: bool,
    fetched: Option<Timestamp>,
    tried: Option<Timestamp>,
    now: Timestamp,
)
    ensures
        !enabled ==> !refresh_wanted(enabled, fetched, tried, now),
        fetched matches Some(at) ==> (now.secs() - at.secs() <= 3600 ==> !refresh_wanted(
            enabled,
            fetched,
            tried,
            now,
        )),
        tried matches Some(at) ==> (now.secs() - at.secs() <= 3600 ==> !refresh_wanted(
            enabled,
            fetched,
            tried,
            now,
        )),
        enabled && (fetched matches Some(at) ==> now.secs() - at.secs() > 3600) && (
        tried matches Some(at) ==> now.secs() - at.secs() > 3600) ==> refresh_wanted(
            enabled,
            fetched,
            tried,
            now,
        ),
{
}

/// A refresh that still runs is looked at 120 times before it is killed; one that
/// is over, or cannot be seen, is left.
pub proof fn refresh_is_given_its_time(looks: u32, seen: Look)
    ensures
        seen == Look::Running && looks < 120 ==> refresh_next(looks, seen)
            == RefreshStep::WaitThenLook,
        seen == Look::Running && looks >= 120 ==> refresh_next(looks, seen)
            == RefreshStep::WaitThenKill,
        seen != Look::Running ==> refresh_next(looks, seen) == RefreshStep::Finish,
{
}

/// A wrapped command is killed only where it cannot be seen, or still runs after
/// its time; one that has exited always finishes.
pub proof fn wrapped_command_is_given_its_time(in_time: bool)
    ensures
        next_after(Look::Exited, in_time) == Next::Finish,
        next_after(Look::Running, true) == Next::Wait,
        next_after(Look::Running, false) == Next::Kill,
        next_after(Look::Failed, in_time) == Next::Kill,
{
}

/// A notification is sent again only while it has not gone through, and five
/// times in all.
pub proof fn notification_is_sent_five_times(attempts: u32)
    ensures
        !worth_resending(attempts, true),
        attempts < 5 ==> worth_resending(attempts, false),
        attempts >= 5 ==> !worth_resending(attempts, false),
{
}

/// Only a threshold alert takes the place of an earlier one, only one that is
/// urgent is delivered as critical, and only the answer to a click leaves no
/// trace.
pub proof fn toasts_are_delivered_as_they_matter(
    alert: UsageAlert,
    body: Seq<char>,
    assistant: Assistant,
)
    ensures
        ({
            let (toast, channel) = threshold_shown(alert, assistant);
            &&& channel == Channel::ThresholdAlert && !toast.transient
            &&& alert.critical ==> toast.urgency == Urgency::Critical
            &&& !alert.critical ==> toast.urgency == Urgency::Normal
            &&& toast.summary == alert.title(assistant) && toast.body == alert.message()
        }),
        ({
            let (toast, channel) = reset_shown(assistant);
            &&& channel == Channel::Ephemeral && !toast.transient
            &&& toast.urgency == Urgency::Normal
            &&& toast.summary == assistant.title@ + " usage tray"@
            &&& toast.body == "Session quota reset — fresh 5-hour window"@
        }),
        ({
            let (toast, channel) = refresh_shown(body, assistant);
            &&& channel == Channel::Ephemeral && toast.transient
            &&& toast.urgency == Urgency::Low
            &&& toast.summary == assistant.title@ + " usage tray"@ && toast.body == body
        }),
        ({
            let (toast, channel) = swap_shown(assistant);
            &&& channel == Channel::Ephemeral && !toast.transient
            &&& toast.urgency == Urgency::Normal
            &&& toast.summary == assistant.title@ + " usage tray"@
            &&& toast.body == "Update installed — restart to apply"@
        }),
        ({
            let (toast, channel) = restart_failure_shown(body);
            &&& channel == Channel::Ephemeral && !toast.transient
            &&& toast.urgency == Urgency::Normal
            &&& toast.summary == "Could not restart to update"@ && toast.body == body
        }),
{
}

// ---------------------------------------------------------------------------
// The update check and the greeting
// ---------------------------------------------------------------------------

/// The update check asks where it is allowed to, announces what it found where
/// the tray does not show that, ends where the tray is gone, and else sleeps for
/// a day.
pub proof fn checker_asks_once_a_day(
    reply: Option<String>,
    shown: Option<Update>,
    version: Seq<char>,
    url: Seq<char>,
)
    ensures
        action_after(CheckEvent::Woke { enabled: true }) == CheckView::Fetch,
        action_after(CheckEvent::Woke { enabled: false }) == CheckView::Sleep(86_400),
        reply is None ==> action_after(CheckEvent::Answered { reply, shown }) == CheckView::Sleep(
            86_400,
        ),
        reply matches Some(body) ==> {
            let found = crate::update::update_in(body@);
            &&& found is None ==> action_after(CheckEvent::Answered { reply, shown })
                == CheckView::Sleep(86_400)
            &&& found == Some((version, url)) && (shown matches Some(s) ==> s.version@ != version
                || s.url@ != url) ==> action_after(CheckEvent::Answered { reply, shown }) == (
            CheckView::Announce { version, url })
            &&& found == Some((version, url)) && (shown matches Some(s) && s.version@ == version
                && s.url@ == url) ==> action_after(CheckEvent::Answered { reply, shown })
                == CheckView::Sleep(86_400)
        },
        action_after(CheckEvent::Told { delivered: true }) == CheckView::Sleep(86_400),
        action_after(CheckEvent::Told { delivered: false }) == CheckView::Stop,
        crate::checker::FIRST_UPDATE_CHECK_DELAY_SECS == 5,
        label_of(version) == "⬆ Update available: v"@ + version,
{
}

/// A launch without a record of another is greeted as the first, one after
/// another version as an update, and one after the same version not at all.
pub proof fn launch_is_greeted_by_its_record(recorded: Seq<char>, current: Seq<char>)
    ensures
        deserved(None, current) == GreetingView::FirstLaunch,
        trimmed(recorded).len() == 0 ==> deserved(Some(recorded), current)
            == GreetingView::FirstLaunch,
        trimmed(recorded).len() > 0 && trimmed(recorded) == current ==> deserved(
            Some(recorded),
            current,
        ) == GreetingView::Silent,
        trimmed(recorded).len() > 0 && trimmed(recorded) != current ==> deserved(
            Some(recorded),
            current,
        ) == GreetingView::Updated(current),
{
}

/// A greeting comes only where the version could be recorded, and the version is
/// recorded exactly where a greeting is due.
pub proof fn greeting_needs_its_record(file: FileRead, current: Seq<char>)
    ensures
        greeted(file, current, false) == GreetingView::Silent,
        greeted(file, current, true) == deserved(recorded_in(file), current),
        record_of(file, current) is Some <==> greeted(file, current, true) != GreetingView::Silent,
        record_of(file, current) matches Some(version) ==> version == current,
        !(file is Text) ==> greeted(file, current, true) == GreetingView::FirstLaunch,
        file matches FileRead::Text(body) ==> recorded_in(file) == (if trimmed(body@).len() == 0 {
            None
        } else {
            Some(trimmed(body@))
        }),
{
}

// ---------------------------------------------------------------------------
// The one instance
// ---------------------------------------------------------------------------

/// A lock is known to be held only where another process has it, and known to be
/// free only where there is none or it could be taken.
pub proof fn lock_is_probed(opened: Opened, locked: Locked)
    ensures
        probe_of(opened, locked) == Probe::Held <==> opened == Opened::Yes && locked
            == Locked::WouldBlock,
        probe_of(opened, locked) == Probe::Free <==> opened == Opened::NotFound || (opened
            == Opened::Yes && locked == Locked::Yes),
        probe_of(opened, locked) == Probe::Unknown <==> opened == Opened::Failed || (opened
            == Opened::Yes && locked == Locked::Failed),
{
}

/// The lock is taken exactly where the file was opened and the lock given; it is
/// busy exactly where another process has it; anything else is a failure.
pub proof fn lock_is_taken(opened: bool, locked: Locked)
    ensures
        attempt_of(opened, locked) == Attempt::Taken <==> opened && locked == Locked::Yes,
        attempt_of(opened, locked) == Attempt::Busy <==> opened && locked == Locked::WouldBlock,
        attempt_of(opened, locked) == Attempt::Failed <==> !opened || locked == Locked::Failed,
{
}

/// Only a busy lock is tried for again, and only while there is time; the last
/// attempt is the outcome.
pub proof fn busy_lock_is_tried_again(attempt: Attempt, time_is_up: bool)
    ensures
        retry_after(attempt, time_is_up) == Retry::Again <==> attempt == Attempt::Busy
            && !time_is_up,
        retry_after(attempt, time_is_up) != Retry::Again ==> retry_after(attempt, time_is_up)
            == Retry::Stop(attempt),
{
}

/// A lock whose file is still there is kept. One whose file was replaced gives
/// way to the fresh one where that could be taken, and else is kept with a
/// warning.
pub proof fn replaced_lock_gives_way(
    held: Option<FileIdentity>,
    on_disk: Option<FileIdentity>,
    fresh: Attempt,
)
    ensures
        still_there(held, on_disk) <==> held is Some && on_disk is Some && held->0.dev
            == on_disk->0.dev && held->0.ino == on_disk->0.ino,
        lock_to_hold(still_there(held, on_disk), fresh) == Revalidation::Keep <==> still_there(
            held,
            on_disk,
        ),
        lock_to_hold(false, fresh) == Revalidation::Replace <==> fresh == Attempt::Taken,
        lock_to_hold(false, fresh) == Revalidation::KeepAndWarn <==> fresh != Attempt::Taken,
{
}

/// A process is on its way out where the signal reached it, and where it is gone
/// already.
pub proof fn signal_or_absence_ends_it(delivered: bool, gone: bool)
    ensures
        !on_its_way_out(delivered, gone) <==> !delivered && !gone,
{
}

/// A lock file names its holder by a plain number, never the first process, and
/// one that cannot be read names nobody.
pub proof fn holder_is_a_plain_number(contents: Seq<char>, file: FileRead)
    ensures
        named_pid(contents) matches Some(pid) ==> pid > 1 && unsigned(trimmed(contents)) == Some(
            pid as u64,
        ),
        named_pid(contents) is None <==> (unsigned(trimmed(contents)) matches Some(n) ==> n == 0
            || n == 1 || n > 0x7fff_ffff),
        !(file is Text) ==> holder_in(file) is None,
        file matches FileRead::Text(text) ==> holder_in(file) == named_pid(text@),
{
}

/// Where the lock lives: elsewhere than on macOS the runtime directory, then the
/// cache; on macOS the local data directory and never the cache, where only
/// earlier releases had it; the directory for temporary files comes last.
pub proof fn lock_has_its_directory(
    runtime: Option<Seq<char>>,
    data: Option<Seq<char>>,
    cache: Option<Seq<char>>,
    temp: Seq<char>,
    assistant: Assistant,
)
    ensures
        data matches Some(d) ==> lock_dir(true, runtime, data, cache, temp) == d,
        data is None ==> lock_dir(true, runtime, data, cache, temp) == temp,
        runtime matches Some(d) ==> lock_dir(false, runtime, data, cache, temp) == d,
        runtime is None ==> (cache matches Some(d) ==> lock_dir(false, runtime, data, cache, temp)
            == d),
        runtime is None && cache is None ==> lock_dir(false, runtime, data, cache, temp) == temp,
        cache matches Some(d) ==> legacy_dirs(true, cache) == seq![d],
        legacy_dirs(false, cache).len() == 0,
        cache is None ==> legacy_dirs(true, cache).len() == 0,
        lock_file(assistant) == assistant.name@ + "-usage-tray"@ + ".lock"@,
{
}

/// This process is the instance exactly where it took the lock and no earlier
/// release is in the way: none that holds its lock, and none that cannot be
/// checked but names a process. It gives way exactly where somebody is, or may
/// be, running.
pub proof fn instance_is_claimed(primary: Attempt, legacy: Seq<LegacyLook>)
    ensures
        ({
            let in_the_way = exists|i: int|
                0 <= i < legacy.len() && ((#[trigger] legacy[i]).probe == Probe::Held || (
                legacy[i].probe == Probe::Unknown && legacy[i].pid is Some));
            &&& claim_of(primary, legacy) == Claim::Busy <==> primary == Attempt::Busy
                || in_the_way
            &&& claim_of(primary, legacy) == Claim::Held <==> primary == Attempt::Taken
                && !in_the_way
            &&& claim_of(primary, legacy) == Claim::Unlockable <==> primary == Attempt::Failed
                && !in_the_way
        }),
{
    let in_the_way = exists|i: int|
        0 <= i < legacy.len() && ((#[trigger] legacy[i]).probe == Probe::Held || (legacy[i].probe
            == Probe::Unknown && legacy[i].pid is Some));
    let found = exists|i: int| 0 <= i < legacy.len() && (#[trigger] legacy[i]).occupied();
    if in_the_way {
        let i = choose|i: int|
            0 <= i < legacy.len() && ((#[trigger] legacy[i]).probe == Probe::Held || (
            legacy[i].probe == Probe::Unknown && legacy[i].pid is Some));
        assert(legacy[i].occupied());
    }
    if found {
        let i = choose|i: int| 0 <= i < legacy.len() && (#[trigger] legacy[i]).occupied();
        assert(legacy[i].probe == Probe::Held || (legacy[i].probe == Probe::Unknown
            && legacy[i].pid is Some));
    }
}

/// The locks that could not be checked are listed, each by its position, and no
/// others, as far as the first that is in the way.
pub proof fn unchecked_locks_are_listed(legacy: Seq<LegacyLook>, count: int, i: usize)
    requires
        0 <= count <= legacy.len() <= usize::MAX,
    ensures
        unsure(legacy, count).contains(i) <==> i < count && legacy[i as int].probe
            == Probe::Unknown,
        0 <= vacant(legacy) <= legacy.len(),
        i < vacant(legacy) ==> !legacy[i as int].occupied(),
        vacant(legacy) < legacy.len() ==> legacy[vacant(legacy)].occupied(),
    decreases count,
{
    vacant_is_before_the_first(legacy, i as int);
    if count > 0 {
        unchecked_locks_are_listed(legacy, count - 1, i);
        let before = unsure(legacy, count - 1);
        let last = (count - 1) as usize;
        if legacy[count - 1].probe == Probe::Unknown {
            let all = before.push(last);
            assert(unsure(legacy, count) == all);
            if before.contains(i) {
                let k = choose|k: int| 0 <= k < before.len() && before[k] == i;
                assert(all[k] == i);
            }
            if i == last {
                assert(all[before.len() as int] == i);
            }
            if all.contains(i) && i != last {
                let k = choose|k: int| 0 <= k < all.len() && all[k] == i;
                assert(before[k] == i);
            }
        }
    }
}

/// Nothing is said of earlier locks where the lock itself is busy, and else of
/// exactly those that could not be checked before the first that is in the way.
pub proof fn unchecked_locks_are_noted(primary: Attempt, legacy: Seq<LegacyLook>, i: usize)
    requires
        legacy.len() <= usize::MAX,
    ensures
        primary == Attempt::Busy ==> notes_due(primary, legacy).len() == 0,
        primary != Attempt::Busy ==> (notes_due(primary, legacy).contains(i) <==> i < vacant(legacy)
            && legacy[i as int].probe == Probe::Unknown),
{
    vacant_is_before_the_first(legacy, 0);
    unchecked_locks_are_listed(legacy, vacant(legacy), i);
}

/// How far the looks go before one is in the way.
proof fn vacant_is_before_the_first(legacy: Seq<LegacyLook>, i: int)
    ensures
        0 <= vacant(legacy) <= legacy.len(),
        0 <= i < vacant(legacy) ==> !legacy[i].occupied(),
        vacant(legacy) < legacy.len() ==> legacy[vacant(legacy)].occupied(),
    decreases legacy.len(),
{
    if legacy.len() > 0 && !legacy[0].occupied() {
        vacant_is_before_the_first(legacy.drop_first(), i - 1);
        if 0 < i < vacant(legacy) {
            assert(legacy.drop_first()[i - 1] == legacy[i]);
        }
        if vacant(legacy) < legacy.len() {
            assert(legacy.drop_first()[vacant(legacy) - 1] == legacy[vacant(legacy)]);
        }
    }
}

// ---------------------------------------------------------------------------
// A restart
// ---------------------------------------------------------------------------

/// A process is killed only where it is known to hold a lock. A free lock is
/// clear, one that cannot be checked is passed over only where it names nobody,
/// and everything else is a failure before anybody was killed.
pub proof fn only_a_known_holder_is_killed(start: ClearStart, path: Seq<char>, look: LegacyLook)
    requires
        clearing(start, path, look),
    ensures
        start is Clear <==> look.probe == Probe::Free,
        start is ClearUnchecked <==> look.probe == Probe::Unknown && look.pid is None,
        start is Kill <==> look.probe == Probe::Held && look.pid is Some,
        start matches ClearStart::Kill(pid) ==> look.pid == Some(pid),
        start matches ClearStart::Fail(failure) ==> failure is BeforeKill,
{
}

/// What is known of the lock itself: it is taken, or unusable, or its holder is
/// killed; without a name for the holder that is a failure before anybody was.
pub proof fn lock_is_cleared(step: HoldStep, attempt: Attempt, pid: Option<i32>)
    requires
        holding(step, attempt, pid),
    ensures
        attempt == Attempt::Taken ==> step == HoldStep::Done(
            Cleared { held: true, signalled: false },
        ),
        attempt == Attempt::Failed ==> step == HoldStep::Done(
            Cleared { held: false, signalled: false },
        ),
        step is Kill <==> attempt == Attempt::Busy && pid is Some,
        step matches HoldStep::Kill(p) ==> pid == Some(p),
        step matches HoldStep::Fail(failure) ==> failure is BeforeKill,
        step is Fail <==> attempt == Attempt::Busy && pid is None,
{
}

/// After the kill the lock is held, or unusable, or the holder did not exit,
/// which is a failure after it was killed.
pub proof fn lock_is_cleared_after_a_kill(
    outcome: Result<Cleared, ClearFailure>,
    attempt: Attempt,
    pid: int,
)
    requires
        held_after_kill(outcome, attempt, pid),
    ensures
        outcome is Err <==> attempt == Attempt::Busy,
        outcome matches Ok(cleared) ==> cleared.signalled && (cleared.held <==> attempt
            == Attempt::Taken),
        outcome matches Err(failure) ==> failure is AfterKill,
        kill_note(attempt, pid) is Some <==> attempt == Attempt::Taken,
        kill_note(attempt, pid) matches Some(note) ==> note == "stopped the running instance (pid "@
            + crate::text::decimal(pid) + ")"@,
{
}

/// A process that was told to exit is gone exactly where its lock is free. It is
/// waited for as long as there is time, and at least for two seconds.
pub proof fn exit_is_waited_for(
    wait: ExitWait,
    pid: int,
    probe: Probe,
    time_is_up: bool,
    remaining: u64,
)
    requires
        waiting(wait, pid, probe, time_is_up),
    ensures
        wait is Gone <==> probe == Probe::Free,
        wait is Again <==> probe != Probe::Free && !time_is_up,
        wait is Fail <==> probe != Probe::Free && time_is_up,
        wait matches ExitWait::Fail(failure) ==> failure is AfterKill,
        exit_grace(remaining) >= 2000,
        remaining >= 2000 ==> exit_grace(remaining) == remaining,
        remaining < 2000 ==> exit_grace(remaining) == 2000,
{
}

/// What is said of a process names it by its number, and says whether it exited,
/// did not exit, or could not be told to.
pub proof fn messages_name_the_process(pid: int, path: Seq<char>)
    ensures
        crate::restart::unstoppable_holder(pid) == "could not stop the running instance (pid "@
            + crate::text::decimal(pid) + ")"@,
        crate::restart::stubborn_holder(pid) == "the running instance (pid "@
            + crate::text::decimal(pid) + ") did not exit; nothing was started"@,
        crate::restart::stopped_holder(pid) == "stopped the running instance (pid "@
            + crate::text::decimal(pid) + ")"@,
        crate::restart::unchecked_holder(path)
            == "an older instance may still be running (lock: "@ + path
            + "), but it cannot be checked from here; quit it from its tray menu and try again"@,
        crate::restart::unnamed_holder()
            == "another instance is running but did not record its process id, so it cannot be stopped from here; quit it from its tray menu and try again"@,
        crate::restart::not_up()
            == "the new tray did not come up; check that the new binary runs"@,
{
}

/// A signal that did not reach a process is a failure before it was killed.
pub proof fn undelivered_signal_is_a_failure(pid: int)
    ensures
        signal_failure(pid, true) is None,
        signal_failure(pid, false) is Some,
        !signal_failure(pid, false)->0.after_kill,
{
}

/// The replacement is up the moment anyone holds the lock, even where time is up;
/// and it is given up only then.
pub proof fn replacement_is_seen_by_its_lock(probe: Probe, time_is_up: bool)
    ensures
        replacement_seen(probe, time_is_up) == Some(true) <==> probe == Probe::Held,
        replacement_seen(probe, time_is_up) == Some(false) <==> probe != Probe::Held && time_is_up,
        replacement_seen(probe, time_is_up) is None <==> probe != Probe::Held && !time_is_up,
{
}

/// A failed restart ends with 1, and with 3 where it has told the user itself;
/// one that worked ends with 0. The watcher speaks up for every other code, and
/// for a restart that was killed.
pub proof fn exit_code_tells_who_reports(message: Seq<char>, code: i32)
    ensures
        failed(message, false).code == 1 && !failed(message, false).toast,
        failed(message, true).code == 3 && failed(message, true).toast,
        failed(message, true).message == Some(message),
        failed(message, false).message == Some(message),
        succeeded().code == 0 && succeeded().message is None && !succeeded().toast,
        left_to_watcher(None),
        left_to_watcher(Some(code)) <==> code != 0 && code != 3,
{
}

/// A restart clears each earlier lock in turn, then the lock itself; it then
/// starts the new tray, and waits to see it where it held the lock. Whoever was
/// told to exit on the way is remembered.
pub proof fn restart_takes_its_steps(
    restart: Restart,
    i: usize,
    signalled: bool,
    cleared: Cleared,
    up: bool,
)
    requires
        i < restart.legacy,
    ensures
        restart.phase == crate::restart::Phase::Legacy(i) ==> ({
            let (next, action) = step(restart, Event::LegacyCleared { signalled });
            &&& next.killed == (restart.killed || signalled)
            &&& next.legacy == restart.legacy && next.verifiable == restart.verifiable
            &&& i + 1 < restart.legacy ==> action == RestartAction::ClearLegacy(i + 1)
                && next.phase == crate::restart::Phase::Legacy((i + 1) as usize)
            &&& i + 1 == restart.legacy ==> action == RestartAction::ClearPrimary && next.phase
                == crate::restart::Phase::Primary
        }),
        restart.phase == crate::restart::Phase::Primary ==> ({
            let (next, action) = step(restart, Event::PrimaryCleared(cleared));
            &&& action == RestartAction::Spawn
            &&& next.phase == crate::restart::Phase::Spawning
            &&& next.killed == (restart.killed || cleared.signalled)
            &&& next.verifiable == cleared.held
        }),
        restart.phase == crate::restart::Phase::Spawning ==> ({
            let (next, action) = step(restart, Event::Spawned);
            &&& restart.verifiable ==> action == RestartAction::Verify && next.phase
                == crate::restart::Phase::Verifying
            &&& !restart.verifiable ==> action == RestartAction::Finish(succeeded())
        }),
        restart.phase == crate::restart::Phase::Verifying ==> ({
            let (next, action) = step(restart, Event::Seen(up));
            &&& action matches RestartAction::Finish(exit)
            &&& exit.code == 0 <==> up
            &&& !up ==> exit.toast == restart.killed
        }),
{
}

/// A restart begins with the first earlier lock, and with the lock itself where
/// there is none.
pub proof fn restart_begins_with_the_first_lock(restart: Restart, legacy: usize)
    ensures
        fresh_restart(legacy).legacy == legacy,
        !fresh_restart(legacy).killed && !fresh_restart(legacy).verifiable,
        restart.legacy > 0 ==> clear_at(restart, 0).1 == RestartAction::ClearLegacy(0),
        restart.legacy == 0 ==> clear_at(restart, 0).1 == RestartAction::ClearPrimary,
        clear_at(restart, 0).0.killed == restart.killed,
{
}

/// A restart that could not clear the way, or not start the new tray, ends there
/// with the reason, and tells the user itself where somebody was killed.
pub proof fn failed_restart_tells_the_reason(
    restart: Restart,
    failure: ClearFailure,
    message: String,
)
    ensures
        restart.phase is Legacy || restart.phase is Primary ==> (step(
            restart,
            Event::ClearFailed(failure),
        ).1 matches RestartAction::Finish(exit) && exit.message == Some(failure@.message)
            && exit.toast == (restart.killed || failure is AfterKill) && exit.code != 0),
        restart.phase is Spawning ==> (step(restart, Event::SpawnFailed(message)).1 matches
            RestartAction::Finish(exit) && exit.message == Some(message@) && exit.toast
            == restart.killed && exit.code != 0),
{
}

/// The program on disk counts as replaced at the first look that finds another
/// file than the first that was seen. A file that is gone is no news, and only
/// the first file ever seen is compared to.
pub proof fn replacement_is_noticed(
    watch: WatchView,
    first: BinaryIdentity,
    seen: Option<BinaryIdentity>,
)
    ensures
        watch.swapped ==> !finds_swap(watch, seen) && after_look(watch, seen) == watch,
        seen is None ==> !finds_swap(watch, seen) && after_look(watch, seen) == watch,
        !watch.swapped && watch.baseline is None ==> !finds_swap(watch, seen) && after_look(
            watch,
            seen,
        ).baseline == seen && !after_look(watch, seen).swapped,
        !watch.swapped && watch.baseline == Some(first) ==> (finds_swap(watch, seen) <==> seen
            is Some && seen != Some(first)) && after_look(watch, seen).baseline == Some(first)
            && after_look(watch, seen).swapped == finds_swap(watch, seen),
        after_look(watch, seen).path == watch.path,
{
}

// ---------------------------------------------------------------------------
// The command line
// ---------------------------------------------------------------------------

/// What the command line asks for: the tray without arguments, and else what the
/// first word says, which three of them say only alone.
pub proof fn first_word_says_what_to_do(args: Seq<Seq<char>>)
    ensures
        mode_of(Seq::empty()) == Mode::Detach,
        mode_of(args) == Mode::Detach ==> args.len() == 0,
        mode_of(args) == (Mode::Foreground { spawned: false }) <==> args.len() == 1 && args[0]
            == "--foreground"@,
        mode_of(args) == (Mode::Foreground { spawned: true }) <==> args.len() == 1 && args[0]
            == "__run-foreground"@,
        mode_of(args) == Mode::Restart <==> args.len() == 1 && args[0] == "restart"@,
        mode_of(args) == Mode::Statusline <==> args.len() >= 1 && args[0] == "statusline"@,
        mode_of(args) == Mode::Hook <==> args.len() >= 1 && args[0] == "hook"@,
{
    reveal_strlit("--foreground");
    reveal_strlit("__run-foreground");
    reveal_strlit("restart");
    reveal_strlit("statusline");
    reveal_strlit("hook");
    assert("--foreground"@.len() == 12 && "__run-foreground"@.len() == 16 && "restart"@.len() == 7
        && "statusline"@.len() == 10 && "hook"@.len() == 4);
}

/// The statusline runs quietly, or a command that follows the option, and takes
/// nothing else.
pub proof fn statusline_takes_one_command(mode: StatuslineMode, args: Seq<Seq<char>>)
    requires
        statusline_asks(mode, args),
    ensures
        mode is Quiet <==> args.len() == 0,
        mode is Exec <==> args.len() == 2 && args[0] == "--exec"@,
        mode matches StatuslineMode::Exec(command) ==> command@ == args[1],
        statusline_code(mode) == 0 <==> args.len() == 0 || (args.len() == 2 && args[0]
            == "--exec"@),
        statusline_code(mode) == 0 || statusline_code(mode) == 2,
{
}

/// The hook takes one of three words. Anything else is a usage error, which ends
/// with 2; a status is always given; an install or uninstall that failed ends
/// with 1.
pub proof fn hook_takes_one_word(args: Seq<Seq<char>>, worked: bool)
    ensures
        hook_mode_of(args) == HookMode::Install <==> args.len() == 1 && args[0] == "install"@,
        hook_mode_of(args) == HookMode::Uninstall <==> args.len() == 1 && args[0] == "uninstall"@,
        hook_mode_of(args) == HookMode::Status <==> args.len() == 1 && args[0] == "status"@,
        hook_code(HookMode::Usage, worked) == 2,
        hook_code(HookMode::Status, worked) == 0,
        hook_code(HookMode::Install, true) == 0 && hook_code(HookMode::Install, false) == 1,
        hook_code(HookMode::Uninstall, true) == 0 && hook_code(HookMode::Uninstall, false) == 1,
{
    reveal_strlit("install");
    reveal_strlit("uninstall");
    reveal_strlit("status");
    assert("install"@.len() == 7 && "uninstall"@.len() == 9 && "status"@.len() == 6);
}

} // verus!
