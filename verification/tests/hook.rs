//! The statusline hook: commands, script cleanup, install, uninstall, status.

use std::collections::BTreeMap;

use usage_tray::assistant::Assistant;
use usage_tray::files::{FileRead, FileStep};
use usage_tray::hook::command::{
    build_command, is_plain, parse_our_command, quote_if_needed, shell_quote, shell_split,
};
use usage_tray::hook::legacy::{strip_legacy_blocks, SCRIPT_BACKUP_SUFFIX};
use usage_tray::hook::lifecycle::{
    append_suffix, command_to_wrap, install_in, script_path_of, uninstall_in, InstallInput, InstallReport,
    ScriptFile, UninstallInput, UninstallReport,
};
use usage_tray::hook::report::{install_toast, recorded_config_dir, status_in, StatusReport};
use usage_tray::hook::settings::{
    read_settings, HookError, HookErrorKind, SETTINGS_BACKUP_FILE_NAME, SETTINGS_FILE_NAME,
};
use usage_tray::source::{SnapshotState, CACHE_FILE_NAME, LEGACY_CACHE_FILE_NAME};
use usage_tray::time::Timestamp;

const EXE: &str = "/home/me/bin/acme-usage-tray";

const DIR: &str = "/home/me/.acme";

fn acme() -> Assistant {
    Assistant {
        name: "acme".to_string(),
        title: "Acme".to_string(),
    }
}

fn ts(secs: i64) -> Timestamp {
    Timestamp::from_second(secs).expect("valid timestamp")
}

fn now() -> Timestamp {
    ts(1_700_000_000)
}

/// A disk in memory.
#[derive(Default)]
struct Disk {
    files: BTreeMap<String, String>,
}

impl Disk {
    fn path(name: &str) -> String {
        format!("{DIR}/{name}")
    }

    fn has(&self, name: &str) -> bool {
        self.files.contains_key(&Disk::path(name))
    }

    fn read(&self, name: &str) -> FileRead {
        match self.files.get(&Disk::path(name)) {
            Some(text) => FileRead::Text(text.clone()),
            None => FileRead::NotFound,
        }
    }

    fn write(&mut self, name: &str, body: &str) {
        self.files.insert(Disk::path(name), body.to_string());
    }

    fn write_settings(&mut self, body: &str) {
        self.write(SETTINGS_FILE_NAME, body);
    }

    fn settings_json(&self) -> serde_json::Value {
        let text = &self.files[&Disk::path(SETTINGS_FILE_NAME)];
        serde_json::from_str(text).expect("valid json")
    }

    fn take(&mut self, steps: Vec<FileStep>) {
        for step in steps {
            match step {
                FileStep::Copy { from, to } => {
                    let body = self.files[&from].clone();
                    self.files.insert(to, body);
                }
                FileStep::Write { path, body } => {
                    self.files.insert(path, body);
                }
                FileStep::Remove { path } => {
                    self.files.remove(&path).expect("a file to remove");
                }
            }
        }
    }

    fn install(&mut self, exe: &str) -> Result<InstallReport, HookError> {
        let settings = self.read(SETTINGS_FILE_NAME);
        let script = command_to_wrap(&Disk::path(SETTINGS_FILE_NAME), &settings)
            .and_then(|command| script_path_of(&command, Some("/home/me")))
            .and_then(|path| {
                let body = self.files.get(&path).cloned()?;
                let backup = append_suffix(&path, SCRIPT_BACKUP_SUFFIX);
                Some(ScriptFile {
                    backup_exists: self.files.contains_key(&backup),
                    body: Some(body),
                    path,
                })
            });
        let input = InstallInput {
            settings,
            settings_backup_exists: self.has(SETTINGS_BACKUP_FILE_NAME),
            script,
            home: Some("/home/me".to_string()),
            program: acme().program_name(),
            legacy_cache_exists: self.has(LEGACY_CACHE_FILE_NAME),
        };
        let install = install_in(DIR, exe, &input)?;
        self.take(install.steps);
        Ok(install.report)
    }

    fn uninstall(&mut self) -> Result<UninstallReport, HookError> {
        let input = UninstallInput {
            settings: self.read(SETTINGS_FILE_NAME),
            settings_backup_exists: self.has(SETTINGS_BACKUP_FILE_NAME),
            cache_exists: self.has(CACHE_FILE_NAME),
            legacy_cache_exists: self.has(LEGACY_CACHE_FILE_NAME),
        };
        let uninstall = uninstall_in(DIR, &input)?;
        self.take(uninstall.steps);
        Ok(uninstall.report)
    }

    fn status(&self) -> StatusReport {
        status_in(
            DIR,
            &self.read(SETTINGS_FILE_NAME),
            &self.read(CACHE_FILE_NAME),
            if self.has(CACHE_FILE_NAME) { Some(now()) } else { None },
            now(),
        )
    }
}

#[test]
fn build_command_without_an_original_is_just_the_subcommand() {
    assert_eq!(
        build_command("/home/me/bin/acme-usage-tray", None),
        "/home/me/bin/acme-usage-tray statusline"
    );
    assert_eq!(
        build_command("/home/me/bin/acme-usage-tray", Some("   ")),
        "/home/me/bin/acme-usage-tray statusline"
    );
}

#[test]
fn build_command_wraps_the_original_in_single_quotes() {
    assert_eq!(
        build_command("/opt/tray", Some("~/.acme/statusline.sh")),
        "/opt/tray statusline --exec '~/.acme/statusline.sh'"
    );
}

#[test]
fn build_command_quotes_an_exe_path_with_spaces() {
    assert_eq!(
        build_command("/home/my name/tray", None),
        "'/home/my name/tray' statusline"
    );
}

#[test]
fn build_command_escapes_single_quotes_in_the_original() {
    let command = build_command("/opt/tray", Some("echo 'hi there'"));
    assert_eq!(command, r"/opt/tray statusline --exec 'echo '\''hi there'\'''");
    // And it round-trips through the parser.
    let parsed = parse_our_command(&command).expect("ours");
    assert_eq!(parsed.original.as_deref(), Some("echo 'hi there'"));
}

#[test]
fn parse_our_command_recognizes_the_statusline_argument() {
    let parsed = parse_our_command("/anywhere/renamed-binary statusline").expect("ours");
    assert_eq!(parsed.exe, "/anywhere/renamed-binary");
    assert_eq!(parsed.original, None);
}

#[test]
fn parse_our_command_extracts_a_wrapped_original() {
    let parsed =
        parse_our_command("/opt/tray statusline --exec '/home/me/.acme/line.sh --color'")
            .expect("ours");
    assert_eq!(
        parsed.original.as_deref(),
        Some("/home/me/.acme/line.sh --color")
    );
}

#[test]
fn parse_our_command_rejects_someone_elses_command() {
    assert_eq!(parse_our_command("~/.acme/statusline-command.sh"), None);
    assert_eq!(parse_our_command("bash -c 'echo hi'"), None);
    assert_eq!(parse_our_command(""), None);
    // A script that merely has "statusline" in its *name* is not ours: the
    // marker has to be the second word.
    assert_eq!(parse_our_command("/usr/bin/statusline-thing --fancy"), None);
}

#[test]
fn parse_our_command_declines_an_unterminated_quote() {
    assert_eq!(parse_our_command("/opt/tray statusline --exec 'oops"), None);
}

#[test]
fn shell_split_handles_quotes_and_escapes() {
    assert_eq!(
        shell_split(r#"a "b c" 'd e' f\ g"#).expect("splits"),
        vec!["a", "b c", "d e", "f g"]
    );
    assert_eq!(shell_split("   ").expect("splits"), Vec::<String>::new());
    assert_eq!(shell_split("'"), None);
}

const V1_SCRIPT: &str = "#!/bin/bash\n\
    input=$(cat)\n\
    # --- acme-usage-tray hook: tees rate_limits to the tray's cache file ---\n\
    if command -v jq >/dev/null 2>&1; then\n\
    :\n\
    fi\n\
    # --- end acme-usage-tray hook ---\n\
    echo \"my statusline\"\n";

#[test]
fn strip_legacy_blocks_removes_the_v1_block() {
    let cleaned = strip_legacy_blocks(V1_SCRIPT, "acme-usage-tray").expect("something was stripped");
    assert_eq!(cleaned, "#!/bin/bash\ninput=$(cat)\necho \"my statusline\"\n");
}

#[test]
fn strip_legacy_blocks_removes_versioned_blocks() {
    let body = "before\n\
        # >>> acme-usage-tray hook v2 >>>\n\
        junk\n\
        # <<< acme-usage-tray hook <<<\n\
        after\n";
    assert_eq!(
        strip_legacy_blocks(body, "acme-usage-tray").expect("stripped"),
        "before\nafter\n"
    );
}

#[test]
fn strip_legacy_blocks_removes_several_blocks() {
    let body = "a\n# >>> acme-usage-tray hook v1 >>>\nx\n# <<< acme-usage-tray hook <<<\n\
        b\n# >>> acme-usage-tray hook v2 >>>\ny\n# <<< acme-usage-tray hook <<<\nc\n";
    assert_eq!(strip_legacy_blocks(body, "acme-usage-tray").expect("stripped"), "a\nb\nc\n");
}

#[test]
fn strip_legacy_blocks_leaves_untouched_scripts_alone() {
    assert_eq!(strip_legacy_blocks("#!/bin/sh\necho hi\n", "acme-usage-tray"), None);
}

#[test]
fn strip_legacy_blocks_refuses_an_unterminated_block() {
    // Half-edited script: guessing where the block ends could delete the
    // user's own code, so we do nothing.
    let body = "a\n# --- acme-usage-tray hook ---\nb\nc\n";
    assert_eq!(strip_legacy_blocks(body, "acme-usage-tray"), None);
}

#[test]
fn install_into_a_config_dir_without_settings_creates_the_key() {
    let mut disk = Disk::default();
    let report = disk.install(EXE).expect("install succeeds");

    assert_eq!(report.command, "/home/me/bin/acme-usage-tray statusline");
    assert_eq!(report.wrapped, None);
    assert!(!report.refreshed);
    assert!(!report.created_backup, "nothing existed to back up");

    let settings = disk.settings_json();
    assert_eq!(settings["statusLine"]["type"], "command");
    assert_eq!(
        settings["statusLine"]["command"],
        "/home/me/bin/acme-usage-tray statusline"
    );
}

#[test]
fn install_preserves_every_other_settings_key() {
    let mut disk = Disk::default();
    disk.write_settings(
        r#"{"model":"opus","env":{"FOO":"bar"},"permissions":{"allow":["Bash(ls:*)"]}}"#,
    );
    disk.install(EXE).expect("install succeeds");

    let settings = disk.settings_json();
    assert_eq!(settings["model"], "opus");
    assert_eq!(settings["env"]["FOO"], "bar");
    assert_eq!(settings["permissions"]["allow"][0], "Bash(ls:*)");
    assert!(settings["statusLine"]["command"].is_string());
}

#[test]
fn install_wraps_an_existing_statusline_command() {
    let mut disk = Disk::default();
    disk.write_settings(
        r#"{"statusLine":{"type":"command","command":"~/.acme/statusline-command.sh","padding":0}}"#,
    );
    let report = disk.install(EXE).expect("install succeeds");

    assert_eq!(
        report.wrapped.as_deref(),
        Some("~/.acme/statusline-command.sh")
    );
    assert_eq!(
        report.command,
        "/home/me/bin/acme-usage-tray statusline --exec '~/.acme/statusline-command.sh'"
    );
    let settings = disk.settings_json();
    assert_eq!(settings["statusLine"]["command"], report.command);
    // Sibling keys under statusLine survive.
    assert_eq!(settings["statusLine"]["padding"], 0);
}

#[test]
fn install_is_idempotent_and_never_double_wraps() {
    let mut disk = Disk::default();
    disk.write_settings(
        r#"{"statusLine":{"type":"command","command":"~/.acme/line.sh"}}"#,
    );
    let first = disk.install(EXE).expect("first install");
    let second = disk.install(EXE).expect("second install");

    assert_eq!(first.command, second.command);
    assert!(!first.refreshed);
    assert!(second.refreshed);
    assert_eq!(second.wrapped.as_deref(), Some("~/.acme/line.sh"));
    assert_eq!(second.command.matches("statusline").count(), 1);
}

#[test]
fn install_refreshes_a_moved_binary_path() {
    let mut disk = Disk::default();
    disk.write_settings(
        r#"{"statusLine":{"type":"command","command":"/old/path/tray statusline --exec '~/.acme/line.sh'"}}"#,
    );
    let report = disk.install("/new/path/tray").expect("install");
    assert!(report.refreshed);
    assert_eq!(
        report.command,
        "/new/path/tray statusline --exec '~/.acme/line.sh'"
    );
}

#[test]
fn install_report_renders_the_essentials() {
    let mut disk = Disk::default();
    disk.write_settings(
        r#"{"statusLine":{"type":"command","command":"~/.acme/line.sh"}}"#,
    );
    let rendered = disk.install(EXE).expect("install").render(&acme());
    assert!(rendered.contains("Installed statusline hook"));
    assert!(rendered.contains("--exec '~/.acme/line.sh'"));
    assert!(rendered.contains("wrapping your command: ~/.acme/line.sh"));
}

#[test]
fn uninstall_restores_the_wrapped_command() {
    let mut disk = Disk::default();
    disk.write_settings(
        r#"{"model":"opus","statusLine":{"type":"command","command":"~/.acme/line.sh"}}"#,
    );
    disk.install(EXE).expect("install");
    let report = disk.uninstall().expect("uninstall");

    assert!(report.was_installed);
    assert_eq!(report.restored.as_deref(), Some("~/.acme/line.sh"));
    let settings = disk.settings_json();
    assert_eq!(settings["statusLine"]["command"], "~/.acme/line.sh");
    assert_eq!(settings["model"], "opus", "other keys survive");
}

#[test]
fn uninstall_removes_the_statusline_key_when_there_was_nothing_to_restore() {
    let mut disk = Disk::default();
    disk.write_settings(r#"{"model":"opus"}"#);
    disk.install(EXE).expect("install");
    let report = disk.uninstall().expect("uninstall");

    assert!(report.removed_statusline);
    let settings = disk.settings_json();
    assert!(settings.get("statusLine").is_none());
    assert_eq!(settings["model"], "opus");
}

#[test]
fn install_then_uninstall_round_trips_the_settings_file() {
    let mut disk = Disk::default();
    disk.write_settings(
        "{\n  \"statusLine\": {\n    \"type\": \"command\",\n    \"command\": \"~/.acme/line.sh\"\n  }\n}\n",
    );
    let before: serde_json::Value = disk.settings_json();
    disk.install(EXE).expect("install");
    disk.uninstall().expect("uninstall");
    assert_eq!(disk.settings_json(), before);
}

#[test]
fn status_reports_an_installed_hook_with_its_wrapped_command() {
    let mut disk = Disk::default();
    disk.write_settings(
        r#"{"statusLine":{"type":"command","command":"~/.acme/line.sh"}}"#,
    );
    disk.install(EXE).expect("install");

    let report = disk.status();
    assert!(report.installed);
    assert_eq!(report.recorded_exe.as_deref(), Some(EXE));
    assert_eq!(report.wrapped.as_deref(), Some("~/.acme/line.sh"));
    assert_eq!(report.cache_state, SnapshotState::Missing);

    let rendered = report.render(Some(EXE), now());
    assert!(rendered.contains("hook: installed"));
    assert!(rendered.contains("wrapping: ~/.acme/line.sh"));
    assert!(rendered.contains("no cache file yet"));
    assert!(!rendered.contains("differs from the running"));
}

#[test]
fn status_reports_a_foreign_statusline_as_not_installed() {
    let mut disk = Disk::default();
    disk.write_settings(
        r#"{"statusLine":{"type":"command","command":"~/.acme/line.sh"}}"#,
    );
    let report = disk.status();
    assert!(!report.installed);
    let rendered = report.render(None, now());
    assert!(rendered.contains("hook: NOT installed"));
    assert!(rendered.contains("~/.acme/line.sh"));
}

#[test]
fn status_on_an_empty_config_dir_says_nothing_is_configured() {
    let mut disk = Disk::default();
    let report = disk.status();
    assert!(!report.installed);
    assert_eq!(report.command, None);
    assert!(
        report
            .render(None, now())
            .contains("no statusLine.command configured")
    );
}

#[test]
fn install_backs_settings_up_once_and_keeps_the_original_backup() {
    let mut disk = Disk::default();
    let pristine = r#"{"statusLine":{"type":"command","command":"~/.acme/line.sh"}}"#;
    disk.write_settings(pristine);

    let first = disk.install(EXE).expect("first install");
    assert!(first.created_backup);
    let backup = Disk::path(SETTINGS_BACKUP_FILE_NAME);
    assert_eq!(disk.files[&backup], pristine);

    let second = disk.install(EXE).expect("second install");
    assert!(!second.created_backup, "must not re-back-up");
    assert_eq!(disk.files[&backup], pristine, "the pristine backup is preserved");
}

#[test]
fn install_refuses_to_touch_invalid_settings_json() {
    let mut disk = Disk::default();
    disk.write_settings("{ not json");
    let before = disk.files.clone();
    let err = disk.install(EXE).expect_err("must refuse");
    assert_eq!(err.kind(), HookErrorKind::InvalidData);
    assert!(err.message().contains(SETTINGS_FILE_NAME), "{}", err.message());
    assert_eq!(disk.files, before);

    disk.write_settings("[1, 2]");
    let err = disk.install(EXE).expect_err("settings that are no object");
    assert_eq!(err.kind(), HookErrorKind::InvalidData);
    let failed = InstallInput {
        settings: FileRead::Failed("denied".to_string()),
        settings_backup_exists: false,
        script: None,
        home: None,
        program: acme().program_name(),
        legacy_cache_exists: false,
    };
    let err = install_in(DIR, EXE, &failed).expect_err("unreadable");
    assert_eq!(err.kind(), HookErrorKind::Io);
    assert!(err.message().contains("denied"), "{}", err.message());
}

#[test]
fn install_strips_v1_hook_blocks_from_the_wrapped_script() {
    let mut disk = Disk::default();
    let script = Disk::path("statusline-command.sh");
    disk.write("statusline-command.sh", V1_SCRIPT);
    disk.write_settings(&format!(
        r#"{{"statusLine":{{"type":"command","command":"{script}"}}}}"#
    ));

    let report = disk.install(EXE).expect("install");
    assert_eq!(report.cleaned_script.as_deref(), Some(script.as_str()));
    let cleaned = &disk.files[&script];
    assert!(!cleaned.contains("acme-usage-tray hook"));
    assert!(cleaned.contains("echo \"my statusline\""));
    let backup = append_suffix(&script, SCRIPT_BACKUP_SUFFIX);
    assert_eq!(disk.files[&backup], V1_SCRIPT);
}

#[test]
fn install_leaves_a_clean_script_and_its_backup_alone() {
    let mut disk = Disk::default();
    let script = Disk::path("line.sh");
    disk.write("line.sh", "#!/bin/sh\necho hi\n");
    disk.write_settings(&format!(
        r#"{{"statusLine":{{"type":"command","command":"{script}"}}}}"#
    ));
    let report = disk.install(EXE).expect("install");
    assert_eq!(report.cleaned_script, None);
    assert!(!disk.files.contains_key(&append_suffix(&script, SCRIPT_BACKUP_SUFFIX)));
}

#[test]
fn install_deletes_the_obsolete_v1_cache() {
    let mut disk = Disk::default();
    disk.write(LEGACY_CACHE_FILE_NAME, "{}");

    let report = disk.install(EXE).expect("install");
    assert!(report.removed_legacy_cache);
    assert!(!disk.has(LEGACY_CACHE_FILE_NAME));

    let report = disk.install(EXE).expect("install");
    assert!(!report.removed_legacy_cache);
}

#[test]
fn uninstall_deletes_the_cache_file() {
    let mut disk = Disk::default();
    disk.install(EXE).expect("install");
    disk.write(CACHE_FILE_NAME, "{}");

    let report = disk.uninstall().expect("uninstall");
    assert!(report.removed_cache);
    assert!(!disk.has(CACHE_FILE_NAME));
}

#[test]
fn uninstall_leaves_someone_elses_statusline_alone() {
    let mut disk = Disk::default();
    disk.write_settings("{\n  \"statusLine\": {\n    \"command\": \"~/.acme/line.sh\"\n  }\n}");
    let before = disk.files.clone();
    let report = disk.uninstall().expect("uninstall");

    assert!(!report.was_installed);
    assert_eq!(
        disk.files, before,
        "an untouched settings file must not even be reformatted"
    );
}

#[test]
fn uninstall_without_a_settings_file_does_not_create_one() {
    let mut disk = Disk::default();
    let report = disk.uninstall().expect("uninstall");
    assert!(!report.was_installed);
    assert!(!disk.has(SETTINGS_FILE_NAME));
    assert!(report.render(&acme()).contains("No acme-usage-tray"));
}

#[test]
fn status_flags_a_recorded_binary_that_is_not_the_running_one() {
    let mut disk = Disk::default();
    disk.install(EXE).expect("install");
    let rendered = disk.status().render(Some("/somewhere/else/tray"), now());
    assert!(rendered.contains("differs from the running"));
}

#[test]
fn status_reports_cache_freshness_from_its_age() {
    let mut disk = Disk::default();
    disk.write(CACHE_FILE_NAME, "{}");
    let report = disk.status();
    assert_eq!(report.cache_state, SnapshotState::Fresh);
    let at = report.cache_written_at.expect("mtime known");
    assert!(report.cache_freshness(at).starts_with("fresh, last written"));

    let mut stale = report.clone();
    stale.cache_state = SnapshotState::Stale;
    stale.cache_written_at = Some(ts(1_700_000_000));
    assert_eq!(
        stale.cache_freshness(ts(1_700_000_700)),
        "stale, last written 700 s ago"
    );
    stale.cache_written_at = None;
    assert_eq!(stale.cache_freshness(now()), "present, age unknown");
}

#[test]
fn install_toast_text_matches_the_spec() {
    let mut disk = Disk::default();
    let ok = disk.install(EXE);
    assert_eq!(
        install_toast(&ok, &acme()),
        "Hook installed — data appears next time Acme Code refreshes"
    );

    let err = Err(HookError::new(HookErrorKind::Io, "nope".to_string()));
    assert_eq!(install_toast(&err, &acme()), "Hook install failed: nope");
}

#[test]
fn install_toast_says_so_when_the_hook_was_already_installed() {
    let mut disk = Disk::default();
    let first = disk.install(EXE).expect("first install");
    assert!(!first.refreshed);

    let again = disk.install(EXE);
    assert!(again.as_ref().expect("second install").refreshed);
    assert_eq!(
        install_toast(&again, &acme()),
        "Hook already installed — entry refreshed"
    );
}

#[test]
fn settings_are_written_with_indentation_and_a_newline() {
    let mut disk = Disk::default();
    disk.install("/opt/tray").expect("install");
    let text = &disk.files[&Disk::path(SETTINGS_FILE_NAME)];
    let expected = "{
  \"statusLine\": {
    \"command\": \"/opt/tray statusline\",
    \"type\": \"command\"
  }
}
";
    assert_eq!(text, expected);
}

#[test]
fn an_uninstall_reports_what_it_did() {
    let mut disk = Disk::default();
    disk.write_settings(r#"{"statusLine":{"type":"command","command":"~/.acme/line.sh"}}"#);
    disk.install(EXE).expect("install");
    disk.write(CACHE_FILE_NAME, "{}");
    let text = disk.uninstall().expect("uninstall").render(&acme());
    assert_eq!(
        text,
        "Removed the statusline hook from /home/me/.acme/settings.json\n  restored your command: ~/.acme/line.sh\n  deleted the cache file"
    );
    assert!(!disk.uninstall().expect("again").was_installed);
}

#[test]
fn an_install_report_says_everything_that_was_done() {
    let mut disk = Disk::default();
    let script = Disk::path("line.sh");
    disk.write("line.sh", V1_SCRIPT);
    disk.write(LEGACY_CACHE_FILE_NAME, "{}");
    disk.write_settings(&format!(r#"{{"statusLine":{{"command":"{script}"}}}}"#));
    let text = disk.install("/opt/tray").expect("install").render(&acme());
    assert_eq!(
        text,
        "Installed statusline hook in /home/me/.acme/settings.json\n  \
         statusLine.command = /opt/tray statusline --exec '/home/me/.acme/line.sh'\n  \
         wrapping your command: /home/me/.acme/line.sh\n  \
         backup: settings.json.bak-usage-tray\n  \
         removed old shell hook blocks from /home/me/.acme/line.sh (backup: /home/me/.acme/line.sh.bak-usage-tray)\n  \
         deleted the obsolete usage-tray-cache.json cache\n  \
         data appears the next time Acme Code refreshes the statusline"
    );
}

#[test]
fn a_cleaned_script_has_nothing_left_to_clean() {
    let cleaned = strip_legacy_blocks(V1_SCRIPT, "acme-usage-tray").expect("stripped");
    assert_eq!(strip_legacy_blocks(&cleaned, "acme-usage-tray"), None);
    assert_eq!(
        strip_legacy_blocks(V1_SCRIPT, "other-usage-tray"),
        None,
        "another program's blocks are its own"
    );
}

#[test]
fn quoted_words_split_back_into_themselves() {
    for word in ["", "a b", "it's", "''", "a\\b", "\"x\"", "plain/path-1.2_3"] {
        assert_eq!(
            shell_split(&shell_quote(word)).expect("splits"),
            vec![word.to_string()],
            "{word}"
        );
        if !word.is_empty() {
            assert_eq!(
                shell_split(&quote_if_needed(word)).expect("splits"),
                vec![word.to_string()],
                "{word}"
            );
        }
    }
    assert!(is_plain("/opt/tray"));
    assert!(!is_plain("/opt/my tray"));
}

#[test]
fn a_command_may_name_its_config_directory() {
    assert_eq!(
        recorded_config_dir("/opt/tray statusline --config-dir /elsewhere"),
        Some("/elsewhere".to_string())
    );
    assert_eq!(recorded_config_dir("/opt/tray statusline"), None);
    assert_eq!(recorded_config_dir("/opt/line.sh x --config-dir /a"), None);
}

#[test]
fn a_home_relative_script_is_found_in_the_home_directory() {
    assert_eq!(
        script_path_of("~/.acme/line.sh --color", Some("/home/me")),
        Some("/home/me/.acme/line.sh".to_string())
    );
    assert_eq!(script_path_of("~/x", None), None);
    assert_eq!(script_path_of("'", Some("/home/me")), None);
    assert_eq!(script_path_of("", Some("/home/me")), None);
}

#[test]
fn written_settings_are_read_back() {
    let body = r#"{"a":[1,-9223372036854775808,18446744073709551615,null,true],
        "k\u0001\"\\":{"nested":{"empty":{},"list":[[],[{}]]}},"é":"\n☃"}"#;
    let doc = read_settings("s.json", &FileRead::Text(body.to_string())).expect("an object");
    let text = doc.render().expect("printed");
    let again = read_settings("s.json", &FileRead::Text(text.clone())).expect("an object");
    assert_eq!(again.render(), Some(text.clone()));
    let value: serde_json::Value = serde_json::from_str(body).expect("JSON");
    let back: serde_json::Value = serde_json::from_str(&text).expect("JSON");
    assert_eq!(back, value);
}

#[test]
fn settings_nested_to_the_limit_are_read_back() {
    let nested = |levels: usize| {
        let mut body = "{\"a\":".to_string();
        body.push_str(&"[".repeat(levels - 1));
        body.push_str(&"]".repeat(levels - 1));
        body.push('}');
        body
    };
    let doc = read_settings("s.json", &FileRead::Text(nested(127))).expect("an object");
    let text = doc.render().expect("printed");
    let again = read_settings("s.json", &FileRead::Text(text.clone())).expect("an object");
    assert_eq!(again.render(), Some(text));
    assert!(read_settings("s.json", &FileRead::Text(nested(128))).is_err());
}

#[test]
fn settings_with_doubles_are_installed_over_and_brought_back() {
    let body = r#"{"a":0.1,"b":[1e300,-2.5e-300,5e-324,-0.0,8.9e307,122.416294033786585,3],
        "statusLine":{"type":"command","command":"sh s.sh","padding":0.5}}"#;
    let mut disk = Disk::default();
    disk.write_settings(body);
    let before = disk.settings_json();
    let first = disk.install(EXE).expect("first install");
    let second = disk.install("/opt/other").expect("second install");
    assert!(!first.refreshed);
    assert!(second.refreshed);
    assert_eq!(second.wrapped, first.wrapped);
    assert_eq!(second.command, build_command("/opt/other", Some("sh s.sh")));
    let third = disk.install("/opt/other").expect("third install");
    assert_eq!(third.command, second.command);

    let removed = disk.uninstall().expect("uninstall");
    assert!(removed.was_installed);
    assert_eq!(removed.restored.as_deref(), Some("sh s.sh"));
    assert!(!removed.removed_statusline);
    let after = disk.settings_json();
    assert_eq!(after["statusLine"]["command"], before["statusLine"]["command"]);
    assert_eq!(after["statusLine"]["type"], before["statusLine"]["type"]);
    assert_eq!(after["b"][6], before["b"][6]);
    for i in 0..6 {
        assert!(after["b"][i].is_f64(), "{i}");
    }
    assert!(after["a"].is_f64());
}

#[test]
fn a_line_of_quoted_words_splits_into_the_words() {
    let words = ["", "a b", "it's", "$HOME", "plain", "\\", "\"", "é\n"];
    let quoted: Vec<String> = words.iter().map(|w| shell_quote(w)).collect();
    let needed: Vec<String> = words.iter().map(|w| quote_if_needed(w)).collect();
    for line in [quoted.join(" "), needed.join(" ")] {
        let split = shell_split(&line).expect("a line");
        assert_eq!(split, words, "{line}");
    }
    assert_eq!(shell_split("").expect("a line"), Vec::<String>::new());
}

#[test]
fn settings_with_ordinary_doubles_come_back_equal() {
    let mut disk = Disk::default();
    disk.write_settings(
        r#"{"a":0.1,"b":[0.5,-2.25,1e22,123456.789,1.0,-0.0,1e-7],
        "statusLine":{"type":"command","command":"sh s.sh","padding":0.3}}"#,
    );
    let before = disk.settings_json();
    disk.install(EXE).expect("install");
    disk.install("/opt/other").expect("install again");
    disk.uninstall().expect("uninstall");
    assert_eq!(disk.settings_json(), before);
}
