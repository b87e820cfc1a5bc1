//! The single-instance lock: where it is, who holds it, and how it is taken.

use usage_tray::assistant::Assistant;
use usage_tray::files::FileRead;
use usage_tray::instance::{
    acquire_with_retry, choose_legacy_lock_dirs, choose_lock_dir, legacy_lock_paths, lock_matches,
    lock_name, lock_path, parse_pid, pid_line, probe_held, read_pid, revalidate, terminate,
    try_acquire, Attempt, FileIdentity, Locked, Opened, Probe, Retry, Revalidation,
};

fn acme() -> Assistant {
    Assistant {
        name: "acme".to_string(),
        title: "Acme".to_string(),
    }
}

fn some(path: &str) -> Option<String> {
    Some(path.to_string())
}

#[test]
fn a_second_acquire_is_refused_while_the_first_is_held() {
    assert_eq!(try_acquire(true, Locked::Yes), Attempt::Taken);
    assert_eq!(try_acquire(true, Locked::WouldBlock), Attempt::Busy);
}

#[test]
fn a_lock_file_that_cannot_be_used_is_a_failure() {
    assert_eq!(try_acquire(false, Locked::Yes), Attempt::Failed);
    assert_eq!(try_acquire(true, Locked::Failed), Attempt::Failed);
}

#[test]
fn the_holder_records_its_own_pid() {
    let line = pid_line(4321);
    assert_eq!(line, "4321\n");
    assert_eq!(read_pid(&FileRead::Text(line)), Some(4321));
}

#[test]
fn pid_parsing_accepts_a_plain_number_with_surrounding_whitespace() {
    assert_eq!(parse_pid("4321"), Some(4321));
    assert_eq!(parse_pid("  4321\n"), Some(4321));
}

#[test]
fn pid_parsing_refuses_anything_that_is_not_a_real_pid() {
    for garbage in ["", "   ", "abc", "12x", "-1", "0", "1", "12 34", "3.5"] {
        assert_eq!(parse_pid(garbage), None, "accepted {garbage:?}");
    }
    assert_eq!(parse_pid("2147483647"), Some(i32::MAX));
    assert_eq!(parse_pid("2147483648"), None);
}

#[test]
fn reading_a_pid_from_a_missing_or_empty_file_gives_nothing() {
    assert_eq!(read_pid(&FileRead::NotFound), None);
    assert_eq!(read_pid(&FileRead::Text(String::new())), None);
}

#[test]
fn probing_reports_held_free_and_missing_without_creating_anything() {
    assert_eq!(probe_held(Opened::NotFound, Locked::Failed), Probe::Free);
    assert_eq!(probe_held(Opened::Yes, Locked::WouldBlock), Probe::Held);
    assert_eq!(probe_held(Opened::Yes, Locked::Yes), Probe::Free);
    assert_eq!(probe_held(Opened::Failed, Locked::Yes), Probe::Unknown);
    assert_eq!(probe_held(Opened::Yes, Locked::Failed), Probe::Unknown);
}

#[test]
fn a_retrying_acquire_gets_the_lock_when_the_holder_leaves() {
    assert_eq!(acquire_with_retry(Attempt::Busy, false), Retry::Again);
    assert_eq!(
        acquire_with_retry(Attempt::Taken, false),
        Retry::Stop(Attempt::Taken)
    );
}

#[test]
fn a_retrying_acquire_gives_up_when_the_holder_stays() {
    assert_eq!(acquire_with_retry(Attempt::Busy, false), Retry::Again);
    assert_eq!(
        acquire_with_retry(Attempt::Busy, true),
        Retry::Stop(Attempt::Busy)
    );
}

#[test]
fn a_zero_timeout_acquire_is_a_single_immediate_attempt() {
    assert_eq!(
        acquire_with_retry(Attempt::Busy, true),
        Retry::Stop(Attempt::Busy)
    );
    assert_eq!(
        acquire_with_retry(Attempt::Failed, false),
        Retry::Stop(Attempt::Failed)
    );
}

#[test]
fn a_held_lock_matches_its_path_until_the_file_is_replaced() {
    let held = Some(FileIdentity { dev: 1, ino: 7 });
    assert!(lock_matches(held, held));
    assert!(!lock_matches(held, None));
    assert!(!lock_matches(held, Some(FileIdentity { dev: 1, ino: 8 })));
    assert!(!lock_matches(None, None));
}

#[test]
fn revalidating_a_deleted_lock_takes_a_fresh_one_and_records_the_pid() {
    assert_eq!(revalidate(false, Attempt::Taken), Revalidation::Replace);
    assert_eq!(revalidate(false, Attempt::Busy), Revalidation::KeepAndWarn);
}

#[test]
fn revalidating_an_intact_lock_changes_nothing() {
    assert_eq!(revalidate(true, Attempt::Taken), Revalidation::Keep);
}

#[test]
fn terminating_a_process_that_is_already_gone_counts_as_done() {
    assert!(terminate(false, true));
    assert!(terminate(true, false));
    assert!(!terminate(false, false));
}

#[test]
fn the_default_lock_path_is_named_after_the_program() {
    let path = lock_path(
        false,
        some("/run/user/1000"),
        None,
        None,
        "/tmp".to_string(),
        &acme(),
    );
    assert_eq!(path, "/run/user/1000/acme-usage-tray.lock");
    assert!(path.ends_with(&lock_name(&acme())));
}

#[test]
fn the_lock_dir_on_macos_prefers_application_support_over_caches() {
    let dir = choose_lock_dir(
        true,
        None,
        some("/u/Library/Application Support"),
        some("/u/Library/Caches"),
        "/tmp".to_string(),
    );
    assert_eq!(dir, "/u/Library/Application Support");
}

#[test]
fn the_lock_dir_on_macos_falls_back_to_temp_when_data_local_is_unknown() {
    let dir = choose_lock_dir(
        true,
        None,
        None,
        some("/u/Library/Caches"),
        "/tmp".to_string(),
    );
    assert_eq!(dir, "/tmp");
}

#[test]
fn the_lock_dir_on_linux_is_unchanged_runtime_then_cache_then_temp() {
    let data = some("/u/.local/share");
    let cache = some("/u/.cache");
    assert_eq!(
        choose_lock_dir(
            false,
            some("/run/user/1000"),
            data.clone(),
            cache.clone(),
            "/tmp".to_string()
        ),
        "/run/user/1000"
    );
    assert_eq!(
        choose_lock_dir(false, None, data, cache, "/tmp".to_string()),
        "/u/.cache"
    );
    assert_eq!(
        choose_lock_dir(false, None, None, None, "/tmp".to_string()),
        "/tmp"
    );
}

#[test]
fn legacy_lock_dirs_exist_only_on_macos_and_point_at_caches() {
    assert_eq!(
        choose_legacy_lock_dirs(true, some("/u/Library/Caches")),
        vec!["/u/Library/Caches"]
    );
    assert!(choose_legacy_lock_dirs(true, None).is_empty());
    assert!(choose_legacy_lock_dirs(false, some("/u/.cache")).is_empty());
}

#[test]
fn legacy_lock_paths_join_the_lock_name_onto_each_legacy_dir() {
    assert_eq!(
        legacy_lock_paths(true, some("/u/Library/Caches"), &acme()),
        vec!["/u/Library/Caches/acme-usage-tray.lock"]
    );
    assert!(legacy_lock_paths(false, some("/u/.cache"), &acme()).is_empty());
}
