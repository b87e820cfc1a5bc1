//! The command line, claiming and restarting, notifications, the poll loop and
//! the wrapped command.

use jiff::tz::TimeZone;
use usage_tray::assistant::Assistant;
use usage_tray::cli::{
    already_running, backgrounded, hook_exit, parse_hook, parse_mode, parse_statusline,
    statusline_exit, usage, HookMode, Mode,
    StatuslineMode, FOREGROUND_FLAG, RUN_FOREGROUND_FLAG,
};
use usage_tray::instance::{Attempt, Probe};
use usage_tray::percent::Percent;
use usage_tray::platform::{Channel, Urgency};
use usage_tray::poll::{
    on_wake, PollAction, PollCycle, PollEvent, PollLoop, PollStep, PostRead, Woken,
};
use usage_tray::restart::{
    after_signal, claim_instance, clear_and_hold_primary, clear_legacy, hold_after_kill,
    post_kill_wait, report_restart_failure, unchecked_lock_note, verify_replacement, wait_for_exit, watcher_reports,
    Action, Claim, ClearFailure, ClearStart, Cleared, Event, Exit, ExitWait, HoldStep, LegacyLook,
    Restart, EXIT_RESTART_REPORTED,
};
use usage_tray::source::{Metric, SnapshotState, UsageSnapshot};
use usage_tray::time::Timestamp;
use usage_tray::toasts::{
    binary_swapped_toast, refresh_toast, reset_toast, restart_failure_toast, threshold_toast,
};
use usage_tray::ui::{NotifyPrefs, ResetAlert, UsageAlert, Wake};
use usage_tray::wrapped::{after_look, Look, Next};

fn acme() -> Assistant {
    Assistant {
        name: "acme".to_string(),
        title: "Acme".to_string(),
    }
}

const BASE: i64 = 1_700_000_000;

fn ts(secs: i64) -> Timestamp {
    Timestamp::from_second(secs).expect("valid timestamp")
}

fn percent(value: f64) -> Percent {
    Percent::from_bits(value.to_bits()).expect("finite")
}

fn owned(args: &[&str]) -> Vec<String> {
    args.iter().map(|arg| (*arg).to_string()).collect()
}

fn mode(args: &[&str]) -> Mode {
    parse_mode(&owned(args))
}

// The command line

#[test]
fn a_bare_invocation_detaches() {
    assert_eq!(mode(&[]), Mode::Detach);
}

#[test]
fn the_foreground_flag_and_the_private_flag_both_run_here() {
    assert_eq!(mode(&["--foreground"]), Mode::Foreground { spawned: false });
    assert_eq!(
        mode(&["__run-foreground"]),
        Mode::Foreground { spawned: true }
    );
}

#[test]
fn restart_is_its_own_mode() {
    assert_eq!(mode(&["restart"]), Mode::Restart);
}

#[test]
fn the_synchronous_subcommands_are_untouched() {
    assert_eq!(mode(&["statusline"]), Mode::Statusline);
    assert_eq!(mode(&["statusline", "--exec", "prompt"]), Mode::Statusline);
    assert_eq!(mode(&["hook", "install"]), Mode::Hook);
    assert_eq!(mode(&["hook", "status"]), Mode::Hook);
}

#[test]
fn anything_else_is_a_usage_error() {
    for args in [
        vec!["--background"],
        vec!["-f"],
        vec!["--foreground", "extra"],
        vec!["restart", "now"],
        vec![""],
    ] {
        assert_eq!(mode(&args), Mode::Usage, "unexpected mode for {args:?}");
    }
}

#[test]
fn the_usage_text_documents_the_public_flags_only() {
    let text = usage(&acme());
    assert!(text.contains("--foreground"));
    assert!(text.contains("acme-usage-tray restart"));
    assert!(!text.contains(RUN_FOREGROUND_FLAG));
}

#[test]
fn the_usage_text_reads_line_by_line() {
    let expected = "\
acme-usage-tray — Acme Code usage in the system tray

  acme-usage-tray                      run the tray in the background
  acme-usage-tray --foreground         run the tray in this terminal
  acme-usage-tray restart              stop the running tray and start again
  acme-usage-tray statusline [--exec CMD]
                                         Acme Code statusline command: caches
                                         the stdin JSON, optionally running CMD
                                         and passing its output through
  acme-usage-tray hook install         point statusLine.command at this binary
  acme-usage-tray hook uninstall       undo that
  acme-usage-tray hook status          report what is currently wired up
";
    assert_eq!(usage(&acme()), expected);
}

#[test]
fn the_already_running_message_points_at_restart() {
    let text = already_running(&acme());
    assert!(text.starts_with("acme-usage-tray is already running"));
    assert!(text.contains("acme-usage-tray restart"));
}

#[test]
fn the_background_notice_mentions_how_to_stay_attached() {
    let text = backgrounded(&acme());
    assert!(text.contains("running in the background"));
    assert!(text.contains(FOREGROUND_FLAG));
}

#[test]
fn the_subcommands_take_their_own_arguments_only() {
    assert_eq!(parse_statusline(&[]), StatuslineMode::Quiet);
    assert_eq!(
        parse_statusline(&owned(&["--exec", "prompt"])),
        StatuslineMode::Exec("prompt".to_string())
    );
    assert_eq!(parse_statusline(&owned(&["--exec"])), StatuslineMode::Usage);
    assert_eq!(parse_statusline(&owned(&["a", "b"])), StatuslineMode::Usage);
    assert_eq!(parse_hook(&owned(&["install"])), HookMode::Install);
    assert_eq!(parse_hook(&owned(&["uninstall"])), HookMode::Uninstall);
    assert_eq!(parse_hook(&owned(&["status"])), HookMode::Status);
    assert_eq!(parse_hook(&owned(&["status", "now"])), HookMode::Usage);
    assert_eq!(parse_hook(&[]), HookMode::Usage);
    for (mode, worked, code) in [
        (HookMode::Install, true, 0),
        (HookMode::Install, false, 1),
        (HookMode::Uninstall, true, 0),
        (HookMode::Uninstall, false, 1),
        (HookMode::Status, true, 0),
        (HookMode::Status, false, 0),
        (HookMode::Usage, true, 2),
        (HookMode::Usage, false, 2),
    ] {
        assert_eq!(hook_exit(mode, worked), code, "{mode:?}");
    }
    assert_eq!(statusline_exit(&StatuslineMode::Quiet), 0);
    assert_eq!(statusline_exit(&StatuslineMode::Exec("ls".to_string())), 0);
    assert_eq!(statusline_exit(&StatuslineMode::Usage), 2);
}

// Claiming

fn look(probe: Probe, pid: Option<i32>) -> LegacyLook {
    LegacyLook { probe, pid }
}

#[test]
fn claiming_records_this_process_pid_the_moment_the_lock_is_taken() {
    assert_eq!(claim_instance(Attempt::Taken, &[]), (Claim::Held, vec![]));
}

#[test]
fn claiming_refuses_when_the_primary_lock_is_held() {
    assert_eq!(claim_instance(Attempt::Busy, &[]), (Claim::Busy, vec![]));
}

#[test]
fn claiming_refuses_when_a_legacy_lock_is_held_and_releases_the_primary() {
    let legacy = [look(Probe::Held, None)];
    assert_eq!(claim_instance(Attempt::Taken, &legacy).0, Claim::Busy);
}

#[test]
fn claiming_ignores_a_legacy_path_that_does_not_exist_and_creates_nothing() {
    let legacy = [look(Probe::Free, None)];
    assert_eq!(claim_instance(Attempt::Taken, &legacy), (Claim::Held, vec![]));
}

#[test]
fn a_legacy_lock_that_cannot_be_checked_counts_when_it_names_a_process() {
    let unnamed = look(Probe::Unknown, None);
    let named = look(Probe::Unknown, Some(42));
    assert_eq!(
        claim_instance(Attempt::Taken, &[unnamed]),
        (Claim::Held, vec![0])
    );
    assert_eq!(
        claim_instance(Attempt::Failed, &[unnamed]),
        (Claim::Unlockable, vec![0])
    );
    assert_eq!(
        claim_instance(Attempt::Taken, &[unnamed, named, unnamed]),
        (Claim::Busy, vec![0])
    );
    assert_eq!(
        unchecked_lock_note("/c/l.lock"),
        "could not check the old lock at /c/l.lock"
    );
}

// Clearing the way

#[test]
fn clearing_a_free_or_absent_legacy_path_is_a_no_op() {
    assert_eq!(
        clear_legacy("/c/legacy.lock", look(Probe::Free, Some(7))),
        ClearStart::Clear
    );
    assert_eq!(
        clear_legacy("/c/legacy.lock", look(Probe::Unknown, None)),
        ClearStart::ClearUnchecked
    );
}

#[test]
fn clearing_a_legacy_holder_that_ignores_the_signal_times_out_after_the_kill() {
    let pid = 2147483632;
    assert_eq!(
        clear_legacy("/c/legacy.lock", look(Probe::Held, Some(pid))),
        ClearStart::Kill(pid)
    );
    assert_eq!(after_signal(pid, true), None);
    assert_eq!(wait_for_exit(pid, Probe::Held, false), ExitWait::Again);
    assert_eq!(wait_for_exit(pid, Probe::Unknown, false), ExitWait::Again);
    assert_eq!(
        wait_for_exit(pid, Probe::Held, true),
        ExitWait::Fail(ClearFailure::AfterKill(
            "the running instance (pid 2147483632) did not exit; nothing was started".to_string()
        ))
    );
    assert_eq!(
        wait_for_exit(42, Probe::Free, true),
        ExitWait::Gone("stopped the running instance (pid 42)".to_string())
    );
}

#[test]
fn clearing_a_legacy_holder_with_no_recorded_pid_fails_before_any_kill() {
    assert!(matches!(
        clear_legacy("/c/legacy.lock", look(Probe::Held, None)),
        ClearStart::Fail(ClearFailure::BeforeKill(_))
    ));
    assert_eq!(
        clear_legacy("/c/legacy.lock", look(Probe::Unknown, Some(9))),
        ClearStart::Fail(ClearFailure::BeforeKill(
            "an older instance may still be running (lock: /c/legacy.lock), but it cannot be \
             checked from here; quit it from its tray menu and try again"
                .to_string()
        ))
    );
    assert_eq!(
        after_signal(9, false),
        Some(ClearFailure::BeforeKill(
            "could not stop the running instance (pid 9)".to_string()
        ))
    );
}

#[test]
fn holding_the_primary_when_it_is_free_records_the_pid_and_keeps_the_lock() {
    assert_eq!(
        clear_and_hold_primary(Attempt::Taken, None),
        HoldStep::Done(Cleared {
            held: true,
            signalled: false
        })
    );
    assert_eq!(
        clear_and_hold_primary(Attempt::Failed, None),
        HoldStep::Done(Cleared {
            held: false,
            signalled: false
        })
    );
}

#[test]
fn holding_the_primary_against_a_deaf_holder_times_out_after_the_kill() {
    let pid = 2147483632;
    assert_eq!(
        clear_and_hold_primary(Attempt::Busy, Some(pid)),
        HoldStep::Kill(pid)
    );
    let (outcome, note) = hold_after_kill(Attempt::Busy, pid);
    assert!(matches!(outcome, Err(ClearFailure::AfterKill(_))));
    assert_eq!(note, None);
    let (outcome, note) = hold_after_kill(Attempt::Taken, 42);
    assert_eq!(
        outcome,
        Ok(Cleared {
            held: true,
            signalled: true
        })
    );
    assert_eq!(
        note.as_deref(),
        Some("stopped the running instance (pid 42)")
    );
}

#[test]
fn holding_the_primary_against_a_holder_with_no_pid_fails_before_any_kill() {
    assert!(matches!(
        clear_and_hold_primary(Attempt::Busy, None),
        HoldStep::Fail(ClearFailure::BeforeKill(_))
    ));
}

#[test]
fn a_tray_that_was_told_to_exit_gets_two_seconds_at_least() {
    assert_eq!(post_kill_wait(0), 2_000);
    assert_eq!(post_kill_wait(7_500), 7_500);
}

#[test]
fn verification_sees_a_replacement_that_takes_the_lock() {
    assert_eq!(verify_replacement(Probe::Free, false), None);
    assert_eq!(verify_replacement(Probe::Held, false), Some(true));
    assert_eq!(verify_replacement(Probe::Held, true), Some(true));
}

#[test]
fn verification_gives_up_when_nothing_ever_takes_the_lock() {
    assert_eq!(verify_replacement(Probe::Unknown, false), None);
    assert_eq!(verify_replacement(Probe::Free, true), Some(false));
}

// Restarting

#[test]
fn a_restart_clears_starts_and_verifies() {
    let (mut restart, action) = Restart::begin(1);
    assert_eq!(action, Action::ClearLegacy(0));
    assert_eq!(
        restart.run_restart(Event::LegacyCleared { signalled: false }),
        Action::ClearPrimary
    );
    assert_eq!(
        restart.run_restart(Event::PrimaryCleared(Cleared {
            held: true,
            signalled: true
        })),
        Action::Spawn
    );
    assert_eq!(restart.run_restart(Event::Spawned), Action::Verify);
    assert_eq!(
        restart.run_restart(Event::Seen(true)),
        Action::Finish(Exit {
            code: 0,
            message: None,
            toast: false
        })
    );
}

#[test]
fn an_unusable_lock_is_not_verified() {
    let (mut restart, action) = Restart::begin(0);
    assert_eq!(action, Action::ClearPrimary);
    restart.run_restart(Event::PrimaryCleared(Cleared {
        held: false,
        signalled: false,
    }));
    assert!(matches!(
        restart.run_restart(Event::Spawned),
        Action::Finish(Exit { code: 0, .. })
    ));
}

#[test]
fn a_failure_after_a_kill_is_reported_by_the_restart_itself() {
    let (mut restart, _) = Restart::begin(2);
    assert_eq!(
        restart.run_restart(Event::LegacyCleared { signalled: true }),
        Action::ClearLegacy(1)
    );
    let failure = ClearFailure::BeforeKill("why".to_string());
    assert_eq!(
        restart.run_restart(Event::ClearFailed(failure)),
        Action::Finish(Exit {
            code: EXIT_RESTART_REPORTED,
            message: Some("why".to_string()),
            toast: true
        })
    );
}

#[test]
fn a_failure_before_any_kill_is_left_to_the_watching_tray() {
    let exit = report_restart_failure(ClearFailure::BeforeKill("why".to_string()), false);
    assert_eq!(
        exit,
        Exit {
            code: 1,
            message: Some("why".to_string()),
            toast: false
        }
    );
    let exit = report_restart_failure(ClearFailure::AfterKill("why".to_string()), false);
    assert_eq!((exit.code, exit.toast), (3, true));

    let (mut restart, _) = Restart::begin(0);
    restart.run_restart(Event::PrimaryCleared(Cleared {
        held: true,
        signalled: false,
    }));
    restart.run_restart(Event::Spawned);
    assert_eq!(
        restart.run_restart(Event::Seen(false)),
        Action::Finish(Exit {
            code: 1,
            message: Some(
                "the new tray did not come up; check that the new binary runs".to_string()
            ),
            toast: false
        })
    );
}

#[test]
fn the_watching_tray_reports_what_was_not_reported() {
    assert!(watcher_reports(Some(1)));
    assert!(watcher_reports(Some(2)), "a usage error of an older program");
    assert!(watcher_reports(None));
    assert!(!watcher_reports(Some(3)));
    assert!(!watcher_reports(Some(0)));
}

#[test]
fn a_tray_that_cannot_be_started_ends_the_restart() {
    let (mut restart, _) = Restart::begin(0);
    restart.run_restart(Event::PrimaryCleared(Cleared {
        held: true,
        signalled: true,
    }));
    assert_eq!(
        restart.run_restart(Event::SpawnFailed("no".to_string())),
        Action::Finish(Exit {
            code: 3,
            message: Some("no".to_string()),
            toast: true
        })
    );
}

// Notifications

#[test]
fn normal_threshold_alert_routes_to_threshold_alert_channel() {
    let alert = UsageAlert {
        threshold: 75,
        percent: percent(75.0),
        critical: false,
    };
    let (toast, channel) = threshold_toast(&alert, &acme());
    assert_eq!(channel, Channel::ThresholdAlert);
    assert_eq!(toast.urgency, Urgency::Normal);
    assert!(!toast.transient);
}

#[test]
fn critical_threshold_alert_also_routes_to_threshold_alert_channel() {
    let alert = UsageAlert {
        threshold: 90,
        percent: percent(90.0),
        critical: true,
    };
    let (toast, channel) = threshold_toast(&alert, &acme());
    assert_eq!(channel, Channel::ThresholdAlert);
    assert_eq!(toast.urgency, Urgency::Critical);
    assert!(!toast.transient);
}

#[test]
fn reset_alert_routes_to_ephemeral_channel() {
    let alert = ResetAlert { at: ts(BASE) };
    let (toast, channel) = reset_toast(&alert, &acme());
    assert_eq!(channel, Channel::Ephemeral);
    assert_eq!(toast.summary, "Acme usage tray");
}

#[test]
fn the_binary_swap_toast_routes_to_the_ephemeral_channel_and_persists() {
    let (toast, channel) = binary_swapped_toast(&acme());
    assert_eq!(channel, Channel::Ephemeral);
    assert_eq!(toast.urgency, Urgency::Normal);
    assert!(
        !toast.transient,
        "a restart prompt is worth finding again in history"
    );
    assert_eq!(toast.body, "Update installed — restart to apply");
}

#[test]
fn refresh_toast_routes_to_ephemeral_channel() {
    let (toast, channel) = refresh_toast("2 requests today", &acme());
    assert_eq!(channel, Channel::Ephemeral);
    assert!(toast.transient);
}

#[test]
fn a_failed_restart_is_worth_finding_again() {
    let (toast, channel) = restart_failure_toast("why");
    assert_eq!(channel, Channel::Ephemeral);
    assert_eq!(toast.summary, "Could not restart to update");
    assert_eq!(toast.body, "why");
    assert!(!toast.transient);
}

// The poll loop

fn reading(value: f64, resets_at: i64) -> UsageSnapshot {
    UsageSnapshot {
        session: Some(Metric {
            percent: Some(percent(value)),
            resets_at: Some(ts(resets_at)),
        }),
        written_at: Some(ts(BASE)),
        state: SnapshotState::Fresh,
        ..UsageSnapshot::default()
    }
}

fn prefs() -> NotifyPrefs {
    NotifyPrefs {
        thresholds: vec![50, 75],
        on_reset: true,
    }
}

#[test]
fn what_wakes_the_loop_decides_what_it_does() {
    assert_eq!(on_wake(Woken::TimedOut), PollStep::Read(PostRead::Silent));
    assert_eq!(on_wake(Woken::Disconnected), PollStep::Stop);
    for (wake, step) in [
        (Wake::Refresh, PollStep::Read(PostRead::RefreshToast)),
        (Wake::ShowStatus, PollStep::Read(PostRead::StatusToast)),
        (Wake::IntervalChanged, PollStep::Again),
        (Wake::NotifyChanged, PollStep::Again),
        (Wake::AppearanceChanged, PollStep::Repaint),
        (Wake::UpdateAvailable, PollStep::Repaint),
        (Wake::InstallHook, PollStep::InstallThenRead(PostRead::Silent)),
        (Wake::Quit, PollStep::Stop),
    ] {
        assert_eq!(on_wake(Woken::Sent(wake)), step, "{wake:?}");
    }
}

#[test]
fn the_loop_announces_a_crossing_and_the_reset_that_follows() {
    let reset = BASE + 100;
    let mut poll = PollLoop::new(reading(10.0, reset), &prefs());
    assert_eq!(poll.announce(&prefs()), None);
    assert_eq!(poll.tick(ts(BASE), true), (None, false));
    assert_eq!(poll.wait(60, ts(BASE)), 60);
    assert_eq!(poll.wait(60, ts(BASE + 90)), 10);

    let (changed, said) = poll.receive(
        reading(80.0, reset),
        PostRead::Silent,
        ts(BASE + 50),
        &TimeZone::UTC,
        &acme(),
    );
    assert!(changed);
    assert_eq!(said, None);
    assert_eq!(poll.announce(&prefs()).expect("crossed").threshold, 75);

    let (alert, rolled_over) = poll.tick(ts(reset), true);
    assert_eq!(alert.expect("due").at, ts(reset));
    assert!(rolled_over, "the snapshot is to be read again");
    assert_eq!(poll.tick(ts(reset), true), (None, false));
}

#[test]
fn a_refresh_says_what_is_new_and_a_click_what_is() {
    let mut poll = PollLoop::new(reading(10.0, BASE + 100), &prefs());
    let (changed, said) = poll.receive(
        reading(10.0, BASE + 100),
        PostRead::RefreshToast,
        ts(BASE),
        &TimeZone::UTC,
        &acme(),
    );
    assert!(!changed);
    assert_eq!(
        said.as_deref(),
        Some("No new data — Acme Code last reported at 22:13")
    );
    let (_, said) = poll.receive(
        reading(32.0, BASE + 100),
        PostRead::StatusToast,
        ts(BASE),
        &TimeZone::UTC,
        &acme(),
    );
    assert_eq!(
        said.as_deref(),
        Some("You've used 32% of your 5-hour session (resets at 22:15); weekly usage is unknown.")
    );
}

#[test]
fn a_refresh_of_the_record_is_asked_for_once_an_hour() {
    let mut poll = PollLoop::new(reading(10.0, BASE + 100), &prefs());
    assert!(!poll.refresh_due(false, ts(BASE)));
    assert!(poll.refresh_due(true, ts(BASE)));
    assert!(!poll.refresh_due(true, ts(BASE + 3600)));
    assert!(poll.refresh_due(true, ts(BASE + 3601)));
}

/// A loop that waits for the tray, at ten percent.
fn waiting() -> PollCycle {
    let (mut cycle, action) = PollCycle::begin(reading(10.0, BASE + 100), &prefs());
    assert_eq!(action, PollAction::AskPrefs);
    up_to_the_wait(&mut cycle, ts(BASE));
    cycle
}

fn tell(cycle: &mut PollCycle, event: PollEvent) -> PollAction {
    cycle.poll_loop(event, &TimeZone::UTC, &acme())
}

/// One cycle in which there is nothing to do, up to the wait.
fn up_to_the_wait(cycle: &mut PollCycle, now: Timestamp) {
    assert_eq!(tell(cycle, PollEvent::Prefs(prefs())), PollAction::AskRefresh);
    let setting = PollEvent::RefreshSetting {
        enabled: false,
        now,
    };
    assert_eq!(tell(cycle, setting), PollAction::LookAtBinary);
    let same = PollEvent::Binary { swapped: false };
    assert_eq!(tell(cycle, same), PollAction::LookAtClock);
    assert_eq!(tell(cycle, PollEvent::Clock(now)), PollAction::AskInterval);
    assert_eq!(
        tell(cycle, PollEvent::Interval { secs: 5, now }),
        PollAction::Wait(5)
    );
}

fn snapshot(value: f64) -> PollEvent {
    PollEvent::Snapshot {
        next: reading(value, BASE + 100),
        now: ts(BASE),
    }
}

#[test]
fn the_tray_is_given_only_what_changed() {
    let mut cycle = waiting();
    for value in [10.0, 20.0] {
        let timer = PollEvent::Woken(Woken::TimedOut);
        assert_eq!(tell(&mut cycle, timer), PollAction::LookAtHandle);
        let open = PollEvent::Handle { closed: false };
        assert_eq!(tell(&mut cycle, open), PollAction::Read);
        if value == 10.0 {
            assert_eq!(tell(&mut cycle, snapshot(value)), PollAction::AskPrefs);
        } else {
            assert_eq!(tell(&mut cycle, snapshot(value)), PollAction::ShowSnapshot);
            assert_eq!(cycle.snapshot(), &reading(value, BASE + 100));
            assert_eq!(tell(&mut cycle, PollEvent::Done), PollAction::AskPrefs);
        }
        up_to_the_wait(&mut cycle, ts(BASE));
    }
}

#[test]
fn a_click_reads_shows_and_says() {
    let mut cycle = waiting();
    let click = PollEvent::Woken(Woken::Sent(Wake::ShowStatus));
    assert_eq!(tell(&mut cycle, click), PollAction::LookAtHandle);
    let open = PollEvent::Handle { closed: false };
    assert_eq!(tell(&mut cycle, open), PollAction::Read);
    assert_eq!(tell(&mut cycle, snapshot(32.0)), PollAction::ShowSnapshot);
    assert_eq!(
        tell(&mut cycle, PollEvent::Done),
        PollAction::Say(
            "You've used 32% of your 5-hour session (resets at 22:15); weekly usage is unknown."
                .to_string()
        )
    );
    assert_eq!(tell(&mut cycle, PollEvent::Done), PollAction::AskPrefs);
}

#[test]
fn the_loop_ends_on_quit_on_a_lost_channel_and_on_a_closed_tray() {
    let mut quit = waiting();
    let event = PollEvent::Woken(Woken::Sent(Wake::Quit));
    assert_eq!(tell(&mut quit, event), PollAction::Stop);
    let mut lost = waiting();
    let event = PollEvent::Woken(Woken::Disconnected);
    assert_eq!(tell(&mut lost, event), PollAction::Stop);
    let mut closed = waiting();
    let event = PollEvent::Woken(Woken::Sent(Wake::InstallHook));
    assert_eq!(tell(&mut closed, event), PollAction::InstallHook);
    assert_eq!(tell(&mut closed, PollEvent::Done), PollAction::LookAtHandle);
    let event = PollEvent::Handle { closed: true };
    assert_eq!(tell(&mut closed, event), PollAction::Stop);
}

#[test]
fn a_changed_setting_reads_nothing() {
    for wake in [Wake::IntervalChanged, Wake::NotifyChanged] {
        let event = PollEvent::Woken(Woken::Sent(wake));
        assert_eq!(tell(&mut waiting(), event), PollAction::AskPrefs);
    }
    for wake in [Wake::AppearanceChanged, Wake::UpdateAvailable] {
        let mut cycle = waiting();
        let event = PollEvent::Woken(Woken::Sent(wake));
        assert_eq!(tell(&mut cycle, event), PollAction::Repaint);
        assert_eq!(tell(&mut cycle, PollEvent::Done), PollAction::AskPrefs);
    }
}

#[test]
fn a_rollover_is_announced_and_read_at_once() {
    let mut cycle = waiting();
    let event = PollEvent::Woken(Woken::Sent(Wake::IntervalChanged));
    assert_eq!(tell(&mut cycle, event), PollAction::AskPrefs);
    assert_eq!(tell(&mut cycle, PollEvent::Prefs(prefs())), PollAction::AskRefresh);
    let setting = PollEvent::RefreshSetting {
        enabled: true,
        now: ts(BASE + 100),
    };
    assert_eq!(tell(&mut cycle, setting), PollAction::StartRefresh);
    assert_eq!(tell(&mut cycle, PollEvent::Done), PollAction::LookAtBinary);
    let swapped = PollEvent::Binary { swapped: true };
    assert_eq!(tell(&mut cycle, swapped), PollAction::ShowSwap);
    assert_eq!(tell(&mut cycle, PollEvent::Done), PollAction::LookAtClock);
    match tell(&mut cycle, PollEvent::Clock(ts(BASE + 100))) {
        PollAction::ShowReset(alert) => assert_eq!(alert.at, ts(BASE + 100)),
        other => panic!("unexpected {other:?}"),
    }
    assert_eq!(tell(&mut cycle, PollEvent::Done), PollAction::Read);
    assert_eq!(tell(&mut cycle, snapshot(10.0)), PollAction::AskPrefs);
}

#[test]
fn the_cycle_announces_a_crossing() {
    let mut cycle = waiting();
    let timer = PollEvent::Woken(Woken::TimedOut);
    assert_eq!(tell(&mut cycle, timer), PollAction::LookAtHandle);
    let open = PollEvent::Handle { closed: false };
    assert_eq!(tell(&mut cycle, open), PollAction::Read);
    assert_eq!(tell(&mut cycle, snapshot(60.0)), PollAction::ShowSnapshot);
    assert_eq!(tell(&mut cycle, PollEvent::Done), PollAction::AskPrefs);
    match tell(&mut cycle, PollEvent::Prefs(prefs())) {
        PollAction::ShowAlert(alert) => assert_eq!(alert.threshold, 50),
        other => panic!("unexpected {other:?}"),
    }
    assert_eq!(tell(&mut cycle, PollEvent::Done), PollAction::AskRefresh);
}

// The wrapped command

#[test]
fn a_command_is_killed_at_the_deadline_or_when_it_cannot_be_seen() {
    assert_eq!(after_look(Look::Exited, false), Next::Finish);
    assert_eq!(after_look(Look::Running, true), Next::Wait);
    assert_eq!(after_look(Look::Running, false), Next::Kill);
    assert_eq!(after_look(Look::Failed, true), Next::Kill);
}
