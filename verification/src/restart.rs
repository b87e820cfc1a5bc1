//! Becoming the one instance, and replacing the one that runs. Each function
//! takes what was seen of the locks and the processes and says what to do
//! next.

use vstd::prelude::*;
use vstd::string::*;

use crate::instance::{Attempt, Probe};
use crate::text::{decimal, int_text};

verus! {

/// How long `restart` takes to clear the way, in milliseconds.
pub const RESTART_TIMEOUT_MS: u64 = 10_000;

/// How long `restart` waits to see the replacement hold the lock.
pub const VERIFY_TIMEOUT_MS: u64 = 10_000;

/// How long a direct launch tries for the lock.
pub const DIRECT_LAUNCH_PATIENCE_MS: u64 = 300;

/// How long a tray that was just started waits for the one that started it.
pub const CHILD_LOCK_TIMEOUT_MS: u64 = 5_000;

/// The least time a tray that was told to exit is given, even when the time of
/// the restart is already spent.
pub const POST_KILL_FLOOR_MS: u64 = 2_000;

/// Exit code of a restart that failed and has told the user so itself. Not the
/// code of a usage error, which must be reported by whoever sees it.
pub const EXIT_RESTART_REPORTED: i32 = 3;

// ---------------------------------------------------------------------------
// Claiming
// ---------------------------------------------------------------------------

/// The outcome of trying to become the instance.
#[derive(Clone, Copy, Debug, PartialEq, Eq, Structural)]
pub enum Claim {
    /// This process is the instance.
    Held,
    /// Another instance is running, or may be.
    Busy,
    /// The lock file is unusable, which keeps nobody from running the tray.
    Unlockable,
}

/// What was seen of a lock that an earlier release may hold.
#[derive(Clone, Copy, Debug, PartialEq, Eq, Structural)]
pub struct LegacyLook {
    pub probe: Probe,
    /// The process that the file names.
    pub pid: Option<i32>,
}

impl LegacyLook {
    /// Whether an earlier release runs, as far as can be told: one that cannot
    /// be checked but names a process counts as running.
    pub open spec fn occupied(self) -> bool {
        match self.probe {
            Probe::Held => true,
            Probe::Free => false,
            Probe::Unknown => self.pid is Some,
        }
    }

    /// Whether an earlier release runs, as far as can be told.
    pub fn is_occupied(&self) -> (occupied: bool)
        ensures
            occupied == self.occupied(),
    {
        match self.probe {
            Probe::Held => true,
            Probe::Free => false,
            Probe::Unknown => self.pid.is_some(),
        }
    }
}

/// The claim that an attempt at the lock and looks at earlier locks make.
pub open spec fn claim_of(primary: Attempt, legacy: Seq<LegacyLook>) -> Claim {
    if primary == Attempt::Busy || exists|i: int|
        0 <= i < legacy.len() && (#[trigger] legacy[i]).occupied() {
        Claim::Busy
    } else if primary == Attempt::Taken {
        Claim::Held
    } else {
        Claim::Unlockable
    }
}

/// The positions of the looks that found nothing and could not be sure, up to
/// the first that found an earlier release.
pub open spec fn unsure(legacy: Seq<LegacyLook>, count: int) -> Seq<usize>
    decreases count,
{
    if count <= 0 {
        Seq::empty()
    } else if legacy[count - 1].probe == Probe::Unknown {
        unsure(legacy, count - 1).push((count - 1) as usize)
    } else {
        unsure(legacy, count - 1)
    }
}

/// How many looks come before the first that found an earlier release.
pub open spec fn vacant(legacy: Seq<LegacyLook>) -> int
    decreases legacy.len(),
{
    if legacy.len() == 0 || legacy[0].occupied() {
        0
    } else {
        1 + vacant(legacy.drop_first())
    }
}

/// The looks before the first that found an earlier release are vacant.
pub proof fn vacant_comes_first(legacy: Seq<LegacyLook>, count: int)
    requires
        0 <= count <= legacy.len(),
        forall|k: int| 0 <= k < count ==> !(#[trigger] legacy[k]).occupied(),
        count < legacy.len() ==> legacy[count].occupied(),
    ensures
        vacant(legacy) == count,
    decreases count,
{
    if count > 0 {
        assert(!legacy[0].occupied());
        let rest = legacy.drop_first();
        assert forall|k: int| 0 <= k < count - 1 implies !(#[trigger] rest[k]).occupied() by {
            assert(rest[k] == legacy[k + 1]);
        }
        vacant_comes_first(rest, count - 1);
    }
}

/// The positions of the earlier locks of which it is to be said that they could
/// not be checked.
pub open spec fn notes_due(primary: Attempt, legacy: Seq<LegacyLook>) -> Seq<usize> {
    if primary == Attempt::Busy {
        Seq::empty()
    } else {
        unsure(legacy, vacant(legacy))
    }
}

/// Whether this process is the instance: it took the lock, and no earlier
/// release holds one. Also gives the positions of the earlier locks of which
/// it is to be said that they could not be checked.
pub fn claim_instance(primary: Attempt, legacy: &[LegacyLook]) -> (claim: (Claim, Vec<usize>))
    ensures
        claim.0 == claim_of(primary, legacy@),
        claim.1@ == (if primary == Attempt::Busy {
            Seq::empty()
        } else {
            unsure(legacy@, vacant(legacy@))
        }),
        claim.1@ == notes_due(primary, legacy@),
{
    let mut notes: Vec<usize> = Vec::new();
    if let Attempt::Busy = primary {
        return (Claim::Busy, notes);
    }
    let mut i: usize = 0;
    while i < legacy.len()
        invariant
            i <= legacy@.len(),
            primary != Attempt::Busy,
            notes@ == unsure(legacy@, i as int),
            forall|k: int| 0 <= k < i ==> !(#[trigger] legacy@[k]).occupied(),
        decreases legacy@.len() - i,
    {
        if legacy[i].is_occupied() {
            proof {
                assert(legacy@[i as int].occupied());
                vacant_comes_first(legacy@, i as int);
            }
            return (Claim::Busy, notes);
        }
        if let Probe::Unknown = legacy[i].probe {
            notes.push(i);
        }
        i = i + 1;
    }
    proof {
        vacant_comes_first(legacy@, i as int);
    }
    match primary {
        Attempt::Taken => (Claim::Held, notes),
        _ => (Claim::Unlockable, notes),
    }
}

/// One instance at most: the claim is held only by the process that took the
/// lock, and only while no earlier release is seen to run.
pub proof fn held_claim_is_exclusive(primary: Attempt, legacy: Seq<LegacyLook>, i: int)
    requires
        claim_of(primary, legacy) == Claim::Held,
        0 <= i < legacy.len(),
    ensures
        primary == Attempt::Taken,
        !legacy[i].occupied(),
{
}

/// Said of an earlier lock that cannot be checked and names nobody.
pub fn unchecked_lock_note(path: &str) -> (text: String)
    ensures
        text@ == "could not check the old lock at "@ + path@,
{
    let mut text = "could not check the old lock at ".to_owned();
    text.append(path);
    text
}

// ---------------------------------------------------------------------------
// Clearing the way
// ---------------------------------------------------------------------------

/// A failure to clear a lock, by whether the holder was already told to exit:
/// before that it lives to report the failure, after that it may not.
#[derive(Clone, Debug, PartialEq, Eq)]
pub enum ClearFailure {
    BeforeKill(String),
    AfterKill(String),
}

/// What a [`ClearFailure`] says.
pub ghost struct FailureView {
    pub after_kill: bool,
    pub message: Seq<char>,
}

impl View for ClearFailure {
    type V = FailureView;

    open spec fn view(&self) -> FailureView {
        match *self {
            ClearFailure::BeforeKill(message) => FailureView {
                after_kill: false,
                message: message@,
            },
            ClearFailure::AfterKill(message) => FailureView { after_kill: true, message: message@ },
        }
    }
}

/// Said when the holder did not record its process.
pub open spec fn unnamed_holder() -> Seq<char> {
    "another instance is running but did not record its process id, so it cannot be stopped from here; quit it from its tray menu and try again"@
}

/// Said when an earlier release may run but cannot be checked.
pub open spec fn unchecked_holder(path: Seq<char>) -> Seq<char> {
    "an older instance may still be running (lock: "@ + path
        + "), but it cannot be checked from here; quit it from its tray menu and try again"@
}

/// Said when the holder could not be told to exit.
pub open spec fn unstoppable_holder(pid: int) -> Seq<char> {
    "could not stop the running instance (pid "@ + decimal(pid) + ")"@
}

/// Said when the holder was told to exit and did not.
pub open spec fn stubborn_holder(pid: int) -> Seq<char> {
    "the running instance (pid "@ + decimal(pid) + ") did not exit; nothing was started"@
}

/// Said when the holder has exited.
pub open spec fn stopped_holder(pid: int) -> Seq<char> {
    "stopped the running instance (pid "@ + decimal(pid) + ")"@
}

fn about_pid(before: &str, pid: i32, after: &str) -> (text: String)
    ensures
        text@ == before@ + decimal(pid as int) + after@,
{
    let mut text = before.to_owned();
    let number = int_text(pid as i64);
    text.append(number.as_str());
    text.append(after);
    text
}

fn unnamed_holder_text() -> (text: String)
    ensures
        text@ == unnamed_holder(),
{
    "another instance is running but did not record its process id, so it cannot be stopped from here; quit it from its tray menu and try again".to_owned()
}

/// What to do about a lock that an earlier release may hold.
#[derive(Clone, Debug, PartialEq, Eq)]
pub enum ClearStart {
    /// Nothing is in the way.
    Clear,
    /// Nothing is known to be in the way; say that it could not be checked.
    ClearUnchecked,
    /// Give up.
    Fail(ClearFailure),
    /// Tell this process to exit.
    Kill(i32),
}

/// What to do about an earlier lock, given what was seen of it. The one answer
/// that must not be taken for a free lock is no answer.
pub open spec fn clearing(start: ClearStart, path: Seq<char>, look: LegacyLook) -> bool {
    match look.probe {
        Probe::Free => start == ClearStart::Clear,
        Probe::Unknown => match look.pid {
            Some(_) => start matches ClearStart::Fail(f) && f@ == (FailureView {
                after_kill: false,
                message: unchecked_holder(path),
            }),
            None => start == ClearStart::ClearUnchecked,
        },
        Probe::Held => match look.pid {
            Some(pid) => start == ClearStart::Kill(pid),
            None => start matches ClearStart::Fail(f) && f@ == (FailureView {
                after_kill: false,
                message: unnamed_holder(),
            }),
        },
    }
}

/// Decides what to do about a lock at `path` that an earlier release may hold.
pub fn clear_legacy(path: &str, look: LegacyLook) -> (start: ClearStart)
    ensures
        clearing(start, path@, look),
{
    match look.probe {
        Probe::Free => ClearStart::Clear,
        Probe::Unknown => match look.pid {
            Some(_) => {
                let mut message = "an older instance may still be running (lock: ".to_owned();
                message.append(path);
                message.append(
                    "), but it cannot be checked from here; quit it from its tray menu and try again",
                );
                ClearStart::Fail(ClearFailure::BeforeKill(message))
            },
            None => ClearStart::ClearUnchecked,
        },
        Probe::Held => match look.pid {
            Some(pid) => ClearStart::Kill(pid),
            None => ClearStart::Fail(ClearFailure::BeforeKill(unnamed_holder_text())),
        },
    }
}

/// What is said where a process could not be told to exit.
pub open spec fn signal_failure(pid: int, delivered: bool) -> Option<FailureView> {
    if delivered {
        None
    } else {
        Some(FailureView { after_kill: false, message: unstoppable_holder(pid) })
    }
}

/// What it means that a process could be told to exit, or could not.
pub fn after_signal(pid: i32, delivered: bool) -> (failure: Option<ClearFailure>)
    ensures
        match failure {
            Some(f) => !delivered && f@ == (FailureView {
                after_kill: false,
                message: unstoppable_holder(pid as int),
            }),
            None => delivered,
        },
        signal_failure(pid as int, delivered) == (match failure {
            Some(f) => Some(f@),
            None => None,
        }),
{
    if delivered {
        None
    } else {
        Some(
            ClearFailure::BeforeKill(
                about_pid("could not stop the running instance (pid ", pid, ")"),
            ),
        )
    }
}

/// How long a process that was told to exit is given, in milliseconds.
pub open spec fn exit_grace(remaining_ms: u64) -> u64 {
    if remaining_ms < POST_KILL_FLOOR_MS {
        POST_KILL_FLOOR_MS
    } else {
        remaining_ms
    }
}

/// How long to wait for a process that was told to exit, in milliseconds.
pub fn post_kill_wait(remaining_ms: u64) -> (ms: u64)
    ensures
        ms >= remaining_ms,
        ms >= POST_KILL_FLOOR_MS,
        ms == remaining_ms || ms == POST_KILL_FLOOR_MS,
        ms == exit_grace(remaining_ms),
{
    if remaining_ms < POST_KILL_FLOOR_MS {
        POST_KILL_FLOOR_MS
    } else {
        remaining_ms
    }
}

/// What to do while a process that was told to exit may still run.
#[derive(Clone, Debug, PartialEq, Eq)]
pub enum ExitWait {
    /// It is gone; say so.
    Gone(String),
    /// Wait a little and look again.
    Again,
    /// Give up.
    Fail(ClearFailure),
}

/// What a look at the lock means while its holder may still run: only a free
/// lock means that it is gone.
pub open spec fn waiting(wait: ExitWait, pid: int, probe: Probe, time_is_up: bool) -> bool {
    if probe == Probe::Free {
        wait matches ExitWait::Gone(text) && text@ == stopped_holder(pid)
    } else if time_is_up {
        wait matches ExitWait::Fail(f) && f@ == (FailureView {
            after_kill: true,
            message: stubborn_holder(pid),
        })
    } else {
        wait == ExitWait::Again
    }
}

/// Decides whether to go on waiting for a process that was told to exit.
pub fn wait_for_exit(pid: i32, probe: Probe, time_is_up: bool) -> (wait: ExitWait)
    ensures
        waiting(wait, pid as int, probe, time_is_up),
{
    if let Probe::Free = probe {
        return ExitWait::Gone(about_pid("stopped the running instance (pid ", pid, ")"));
    }
    if time_is_up {
        ExitWait::Fail(
            ClearFailure::AfterKill(
                about_pid("the running instance (pid ", pid, ") did not exit; nothing was started"),
            ),
        )
    } else {
        ExitWait::Again
    }
}

/// How the way to the lock was cleared.
#[derive(Clone, Copy, Debug, PartialEq, Eq, Structural)]
pub struct Cleared {
    /// Whether this process holds the lock now; not where it is unusable.
    pub held: bool,
    /// Whether a process was told to exit.
    pub signalled: bool,
}

/// What to do about the lock itself.
#[derive(Clone, Debug, PartialEq, Eq)]
pub enum HoldStep {
    /// The way is clear.
    Done(Cleared),
    /// Tell this process to exit, then try for the lock again.
    Kill(i32),
    /// Give up.
    Fail(ClearFailure),
}

/// What an attempt at the lock means, before anyone was told to exit.
pub open spec fn holding(step: HoldStep, attempt: Attempt, pid: Option<i32>) -> bool {
    match attempt {
        Attempt::Taken => step == HoldStep::Done(Cleared { held: true, signalled: false }),
        Attempt::Failed => step == HoldStep::Done(Cleared { held: false, signalled: false }),
        Attempt::Busy => match pid {
            Some(pid) => step == HoldStep::Kill(pid),
            None => step matches HoldStep::Fail(f) && f@ == (FailureView {
                after_kill: false,
                message: unnamed_holder(),
            }),
        },
    }
}

/// Decides how to come to hold the lock, so that between the old tray's exit
/// and the new one's start it is never free. `pid` is the process that the lock
/// file names.
pub fn clear_and_hold_primary(attempt: Attempt, pid: Option<i32>) -> (step: HoldStep)
    ensures
        holding(step, attempt, pid),
{
    match attempt {
        Attempt::Taken => HoldStep::Done(Cleared { held: true, signalled: false }),
        Attempt::Failed => HoldStep::Done(Cleared { held: false, signalled: false }),
        Attempt::Busy => match pid {
            Some(pid) => HoldStep::Kill(pid),
            None => HoldStep::Fail(ClearFailure::BeforeKill(unnamed_holder_text())),
        },
    }
}

/// What the attempt at the lock means after its holder was told to exit.
pub open spec fn held_after_kill(
    outcome: Result<Cleared, ClearFailure>,
    attempt: Attempt,
    pid: int,
) -> bool {
    match attempt {
        Attempt::Taken => outcome == Ok::<Cleared, ClearFailure>(
            Cleared { held: true, signalled: true },
        ),
        Attempt::Failed => outcome == Ok::<Cleared, ClearFailure>(
            Cleared { held: false, signalled: true },
        ),
        Attempt::Busy => outcome matches Err(f) && f@ == (FailureView {
            after_kill: true,
            message: stubborn_holder(pid),
        }),
    }
}

/// What is said of a holder that was told to exit, where anything is.
pub open spec fn kill_note(attempt: Attempt, pid: int) -> Option<Seq<char>> {
    if attempt == Attempt::Taken {
        Some(stopped_holder(pid))
    } else {
        None
    }
}

/// Takes in the attempt at the lock after its holder was told to exit. Where the
/// lock was taken, also gives what to say of the holder.
pub fn hold_after_kill(attempt: Attempt, pid: i32) -> (held: (
    Result<Cleared, ClearFailure>,
    Option<String>,
))
    ensures
        held_after_kill(held.0, attempt, pid as int),
        match held.1 {
            Some(note) => attempt == Attempt::Taken && note@ == stopped_holder(pid as int),
            None => attempt != Attempt::Taken,
        },
        kill_note(attempt, pid as int) == (match held.1 {
            Some(note) => Some(note@),
            None => None,
        }),
{
    match attempt {
        Attempt::Taken => (
            Ok(Cleared { held: true, signalled: true }),
            Some(about_pid("stopped the running instance (pid ", pid, ")")),
        ),
        Attempt::Failed => (Ok(Cleared { held: false, signalled: true }), None),
        Attempt::Busy => (
            Err(
                ClearFailure::AfterKill(
                    about_pid(
                        "the running instance (pid ",
                        pid,
                        ") did not exit; nothing was started",
                    ),
                ),
            ),
            None,
        ),
    }
}

/// What a look at the lock says of the replacement, if it says anything.
pub open spec fn replacement_seen(probe: Probe, time_is_up: bool) -> Option<bool> {
    if probe == Probe::Held {
        Some(true)
    } else if time_is_up {
        Some(false)
    } else {
        None
    }
}

/// Whether the replacement is up: the moment anyone holds the lock, and not
/// once time is up.
pub fn verify_replacement(probe: Probe, time_is_up: bool) -> (verdict: Option<bool>)
    ensures
        verdict == (if probe == Probe::Held {
            Some(true)
        } else if time_is_up {
            Some(false)
        } else {
            None
        }),
        verdict == replacement_seen(probe, time_is_up),
{
    match probe {
        Probe::Held => Some(true),
        _ => if time_is_up {
            Some(false)
        } else {
            None
        },
    }
}

// ---------------------------------------------------------------------------
// Restarting
// ---------------------------------------------------------------------------

/// How a restart ends.
#[derive(Clone, Debug, PartialEq, Eq)]
pub struct Exit {
    /// The exit code.
    pub code: i32,
    /// What went wrong, if anything did.
    pub message: Option<String>,
    /// Whether this process shows the failure as a notification, before it is
    /// written to a pipe that may have no reader left.
    pub toast: bool,
}

/// What an [`Exit`] says.
pub ghost struct ExitView {
    pub code: int,
    pub message: Option<Seq<char>>,
    pub toast: bool,
}

impl View for Exit {
    type V = ExitView;

    open spec fn view(&self) -> ExitView {
        ExitView {
            code: self.code as int,
            message: match self.message {
                Some(m) => Some(m@),
                None => None,
            },
            toast: self.toast,
        }
    }
}

/// The end of a restart that failed.
pub open spec fn failed(message: Seq<char>, reported_here: bool) -> ExitView {
    ExitView {
        code: if reported_here {
            EXIT_RESTART_REPORTED as int
        } else {
            1
        },
        message: Some(message),
        toast: reported_here,
    }
}

/// The end of a restart that worked.
pub open spec fn succeeded() -> ExitView {
    ExitView { code: 0, message: None, toast: false }
}

/// Reports a failed restart, with the exit code that tells whoever watches
/// whether it was shown already.
pub fn report_failure_text(message: String, reported_here: bool) -> (exit: Exit)
    ensures
        exit@ == failed(message@, reported_here),
{
    Exit {
        code: if reported_here {
            EXIT_RESTART_REPORTED
        } else {
            1
        },
        message: Some(message),
        toast: reported_here,
    }
}

/// Reports a failure to clear the way. `killed` is whether anyone was told to
/// exit earlier.
pub fn report_restart_failure(failure: ClearFailure, killed: bool) -> (exit: Exit)
    ensures
        exit@ == failed(failure@.message, killed || failure@.after_kill),
{
    match failure {
        ClearFailure::BeforeKill(message) => report_failure_text(message, killed),
        ClearFailure::AfterKill(message) => report_failure_text(message, true),
    }
}

/// Whether the tray that watches a restart reports its failure: where it failed,
/// and has not said so itself. None is the code of one that was killed.
pub open spec fn left_to_watcher(code: Option<i32>) -> bool {
    code != Some(0i32) && code != Some(EXIT_RESTART_REPORTED)
}

/// Whether the tray that watches a restart reports its failure.
pub fn watcher_reports(code: Option<i32>) -> (reports: bool)
    ensures
        reports == left_to_watcher(code),
{
    match code {
        Some(code) => code != 0 && code != EXIT_RESTART_REPORTED,
        None => true,
    }
}

/// Where a restart stands.
#[derive(Clone, Copy, Debug, PartialEq, Eq, Structural)]
pub enum Phase {
    /// Clearing the earlier lock at this position.
    Legacy(usize),
    /// Clearing the lock itself.
    Primary,
    /// Starting the new tray.
    Spawning,
    /// Waiting to see the new tray.
    Verifying,
    Finished,
}

/// A restart under way.
#[derive(Clone, Copy, Debug, PartialEq, Eq, Structural)]
pub struct Restart {
    /// How many earlier locks there are.
    pub legacy: usize,
    pub phase: Phase,
    /// Whether anyone was told to exit.
    pub killed: bool,
    /// Whether the lock is held, so that the new tray can be seen to take it.
    pub verifiable: bool,
}

/// What happened.
#[derive(Clone, Debug, PartialEq, Eq)]
pub enum Event {
    /// An earlier lock is out of the way.
    LegacyCleared { signalled: bool },
    /// The lock itself is out of the way.
    PrimaryCleared(Cleared),
    /// The way could not be cleared.
    ClearFailed(ClearFailure),
    /// The new tray was started.
    Spawned,
    /// The new tray could not be started.
    SpawnFailed(String),
    /// The new tray was seen, or was not.
    Seen(bool),
}

/// What to do next.
#[derive(Clone, Debug, PartialEq, Eq)]
pub enum Action {
    /// Clear the earlier lock at this position.
    ClearLegacy(usize),
    /// Clear the lock itself and hold it.
    ClearPrimary,
    /// Start the new tray and let go of the lock.
    Spawn,
    /// Wait to see the new tray.
    Verify,
    /// Stop.
    Finish(Exit),
}

/// What an [`Action`] is.
pub ghost enum RestartAction {
    ClearLegacy(int),
    ClearPrimary,
    Spawn,
    Verify,
    Finish(ExitView),
}

impl View for Action {
    type V = RestartAction;

    open spec fn view(&self) -> RestartAction {
        match *self {
            Action::ClearLegacy(i) => RestartAction::ClearLegacy(i as int),
            Action::ClearPrimary => RestartAction::ClearPrimary,
            Action::Spawn => RestartAction::Spawn,
            Action::Verify => RestartAction::Verify,
            Action::Finish(exit) => RestartAction::Finish(exit@),
        }
    }
}

/// The message of a replacement that did not come up.
pub open spec fn not_up() -> Seq<char> {
    "the new tray did not come up; check that the new binary runs"@
}

/// Clearing the lock at a position, or the lock itself behind the last.
pub open spec fn clear_at(restart: Restart, position: int) -> (Restart, RestartAction) {
    if position < restart.legacy {
        (
            Restart { phase: Phase::Legacy(position as usize), ..restart },
            RestartAction::ClearLegacy(position),
        )
    } else {
        (Restart { phase: Phase::Primary, ..restart }, RestartAction::ClearPrimary)
    }
}

/// The end of a restart.
pub open spec fn finish(restart: Restart, exit: ExitView) -> (Restart, RestartAction) {
    (Restart { phase: Phase::Finished, ..restart }, RestartAction::Finish(exit))
}

/// What follows when something happens in a restart that has not finished. What
/// does not belong to the phase changes nothing: the restart goes on with what
/// it was doing.
pub open spec fn step(restart: Restart, event: Event) -> (Restart, RestartAction) {
    match (restart.phase, event) {
        (Phase::Legacy(i), Event::LegacyCleared { signalled }) => clear_at(
            Restart { killed: restart.killed || signalled, ..restart },
            i + 1,
        ),
        (Phase::Legacy(_), Event::ClearFailed(f)) => finish(
            restart,
            failed(f@.message, restart.killed || f@.after_kill),
        ),
        (Phase::Primary, Event::PrimaryCleared(cleared)) => (
            Restart {
                phase: Phase::Spawning,
                killed: restart.killed || cleared.signalled,
                verifiable: cleared.held,
                ..restart
            },
            RestartAction::Spawn,
        ),
        (Phase::Primary, Event::ClearFailed(f)) => finish(
            restart,
            failed(f@.message, restart.killed || f@.after_kill),
        ),
        (Phase::Spawning, Event::SpawnFailed(message)) => finish(
            restart,
            failed(message@, restart.killed),
        ),
        (Phase::Spawning, Event::Spawned) => if restart.verifiable {
            (Restart { phase: Phase::Verifying, ..restart }, RestartAction::Verify)
        } else {
            finish(restart, succeeded())
        },
        (Phase::Verifying, Event::Seen(up)) => if up {
            finish(restart, succeeded())
        } else {
            finish(restart, failed(not_up(), restart.killed))
        },
        (Phase::Legacy(i), _) => (restart, RestartAction::ClearLegacy(i as int)),
        (Phase::Primary, _) => (restart, RestartAction::ClearPrimary),
        (Phase::Spawning, _) => (restart, RestartAction::Spawn),
        (Phase::Verifying, _) => (restart, RestartAction::Verify),
        (Phase::Finished, _) => finish(restart, succeeded()),
    }
}

/// A restart that has done nothing yet.
pub open spec fn fresh_restart(legacy: usize) -> Restart {
    Restart { legacy, phase: Phase::Primary, killed: false, verifiable: false }
}

impl Restart {
    /// A restart with so many earlier locks to clear, and what to do first.
    pub fn begin(legacy: usize) -> (begun: (Restart, Action))
        ensures
            (begun.0, begun.1@) == clear_at(
                Restart { legacy, phase: Phase::Primary, killed: false, verifiable: false },
                0,
            ),
            (begun.0, begun.1@) == clear_at(fresh_restart(legacy), 0),
    {
        if legacy > 0 {
            (
                Restart { legacy, phase: Phase::Legacy(0), killed: false, verifiable: false },
                Action::ClearLegacy(0),
            )
        } else {
            (
                Restart { legacy, phase: Phase::Primary, killed: false, verifiable: false },
                Action::ClearPrimary,
            )
        }
    }

    /// Ends the restart.
    fn end(&mut self, exit: Exit) -> (action: Action)
        ensures
            (*final(self), action@) == finish(*old(self), exit@),
    {
        self.phase = Phase::Finished;
        Action::Finish(exit)
    }

    /// Ends the restart as one that worked.
    fn end_well(&mut self) -> (action: Action)
        ensures
            (*final(self), action@) == finish(*old(self), succeeded()),
    {
        self.end(Exit { code: 0, message: None, toast: false })
    }

    /// Takes in what happened, and says what to do next.
    pub fn run_restart(&mut self, event: Event) -> (action: Action)
        requires
            old(self).phase != Phase::Finished,
            old(self).phase matches Phase::Legacy(i) ==> i < old(self).legacy,
        ensures
            (*final(self), action@) == step(*old(self), event),
            final(self).phase matches Phase::Legacy(i) ==> i < final(self).legacy,
    {
        match self.phase {
            Phase::Legacy(i) => match event {
                Event::LegacyCleared { signalled } => {
                    self.killed = self.killed || signalled;
                    if i + 1 < self.legacy {
                        self.phase = Phase::Legacy(i + 1);
                        Action::ClearLegacy(i + 1)
                    } else {
                        self.phase = Phase::Primary;
                        Action::ClearPrimary
                    }
                },
                Event::ClearFailed(failure) => {
                    let exit = report_restart_failure(failure, self.killed);
                    self.end(exit)
                },
                _ => Action::ClearLegacy(i),
            },
            Phase::Primary => match event {
                Event::PrimaryCleared(cleared) => {
                    self.killed = self.killed || cleared.signalled;
                    self.verifiable = cleared.held;
                    self.phase = Phase::Spawning;
                    Action::Spawn
                },
                Event::ClearFailed(failure) => {
                    let exit = report_restart_failure(failure, self.killed);
                    self.end(exit)
                },
                _ => Action::ClearPrimary,
            },
            Phase::Spawning => match event {
                Event::SpawnFailed(message) => {
                    let exit = report_failure_text(message, self.killed);
                    self.end(exit)
                },
                Event::Spawned => {
                    if self.verifiable {
                        self.phase = Phase::Verifying;
                        Action::Verify
                    } else {
                        self.end_well()
                    }
                },
                _ => Action::Spawn,
            },
            Phase::Verifying => match event {
                Event::Seen(up) => {
                    if up {
                        self.end_well()
                    } else {
                        let message =
                            "the new tray did not come up; check that the new binary runs".to_owned();
                        let exit = report_failure_text(message, self.killed);
                        self.end(exit)
                    }
                },
                _ => Action::Verify,
            },
            Phase::Finished => self.end_well(),
        }
    }
}

/// A failure is reported by exactly one process, and a success by none: the
/// restart shows a failure itself exactly when it ends with the code that says
/// so, which it does exactly when someone was told to exit, in an earlier step or
/// in the one that failed. Otherwise the tray that watches it does.
pub proof fn failure_is_reported_once(restart: Restart, event: Event)
    requires
        restart.phase != Phase::Finished,
    ensures
        step(restart, event).1 matches RestartAction::Finish(exit) ==> {
            &&& exit.toast <==> exit.code == EXIT_RESTART_REPORTED
            &&& exit.code == 0 <==> exit.message is None
            &&& exit.code == 0 || exit.code == 1 || exit.code == EXIT_RESTART_REPORTED
            &&& exit.message is Some ==> exit.toast != left_to_watcher(Some(exit.code as i32))
            &&& exit.message is None ==> !exit.toast && !left_to_watcher(Some(exit.code as i32))
            &&& restart.killed && exit.message is Some ==> exit.toast
            &&& exit.toast ==> restart.killed || (event matches Event::ClearFailed(f)
                && f@.after_kill)
        },
{
}

/// That someone was told to exit is not forgotten.
pub proof fn kill_is_remembered(restart: Restart, event: Event)
    ensures
        restart.killed ==> step(restart, event).0.killed,
{
}

/// The new tray is started only once the lock itself was cleared.
pub proof fn start_follows_clearing(restart: Restart, event: Event)
    requires
        restart.phase != Phase::Spawning,
        step(restart, event).1 == RestartAction::Spawn,
    ensures
        restart.phase == Phase::Primary,
        event is PrimaryCleared,
{
}

} // verus!
