//! Names, paths, autostart entries, greetings and the settings file.

use std::collections::BTreeMap;

use usage_tray::assistant::Assistant;
use usage_tray::autostart::{
    default_autostart_dir, desktop_entry, disable_in, enable_in, entry_name, entry_path, set_enabled,
};
use usage_tray::config::{
    default_config_path, env_override, is_critical, load_from, load_on, parse_config,
    parse_config_on, render_config, render_config_on, Config, IconStyle, DEFAULT_REFRESH_SECS, REFRESH_CHOICES,
};
use usage_tray::files::{FileRead, FileStep};
use usage_tray::greeting::{check_and_record, classify, read_recorded, record, state_path, Greeting};
use usage_tray::platform::macos::autostart as agent;
use usage_tray::platform::macos::{
    applescript_escape, notification_script, sends_again, SEND_ATTEMPTS,
};

fn acme() -> Assistant {
    Assistant {
        name: "acme".to_string(),
        title: "Acme".to_string(),
    }
}

fn with(refresh_secs: u64, launch_at_login: bool) -> Config {
    Config {
        refresh_secs,
        launch_at_login,
        ..Config::default()
    }
}

// The assistant

#[test]
fn the_program_is_named_after_the_assistant() {
    assert_eq!(
        Assistant::of_program("/usr/local/bin/acme-usage-tray"),
        Some(acme())
    );
    assert_eq!(acme().program_name(), "acme-usage-tray");
    assert_eq!(acme().product_name(), "Acme Code");
    assert_eq!(acme().tray_title_text(), "Acme usage tray");
    assert_eq!(acme().dir_name(), ".acme");
    assert_eq!(acme().sibling_prefix(), ".acme-");
    assert_eq!(acme().record_name(), ".acme.json");
}

#[test]
fn a_program_of_another_name_is_after_nobody() {
    for exe in ["/opt/tray", "/opt/-usage-tray", "/opt/Acme-usage-tray", "/", "", "/opt/a1-usage-tray"] {
        assert_eq!(Assistant::of_program(exe), None, "{exe}");
    }
}

// Autostart

/// Takes a step on a disk in memory.
fn take(disk: &mut BTreeMap<String, String>, step: FileStep) {
    match step {
        FileStep::Copy { from, to } => {
            let body = disk.get(&from).expect("a file").clone();
            disk.insert(to, body);
        }
        FileStep::Write { path, body } => {
            disk.insert(path, body);
        }
        FileStep::Remove { path } => {
            disk.remove(&path);
        }
    }
}

#[test]
fn enable_creates_the_entry_and_the_directory() {
    let mut disk: BTreeMap<String, String> = BTreeMap::new();
    take(&mut disk, enable_in("/a", "/opt/tray", &acme()));
    let path = entry_path("/a", &acme());
    assert_eq!(disk.get(&path), Some(&desktop_entry("/opt/tray", &acme())));
}

#[test]
fn enable_is_idempotent_and_leaves_no_temp_file() {
    let mut disk: BTreeMap<String, String> = BTreeMap::new();
    take(&mut disk, enable_in("/a", "/opt/tray", &acme()));
    take(&mut disk, enable_in("/a", "/opt/tray", &acme()));
    let names: Vec<&String> = disk.keys().collect();
    assert_eq!(names, [&format!("/a/{}", entry_name(&acme()))]);
}

#[test]
fn disable_removes_the_entry() {
    let mut disk: BTreeMap<String, String> = BTreeMap::new();
    take(&mut disk, enable_in("/a", "/opt/tray", &acme()));
    take(&mut disk, disable_in("/a", &acme()));
    assert!(disk.is_empty());
}

#[test]
fn disable_when_absent_succeeds() {
    let mut disk: BTreeMap<String, String> = BTreeMap::new();
    take(&mut disk, disable_in("/a", &acme()));
    assert!(disk.is_empty());
}

#[test]
fn autostart_enable_creates_the_entry_and_the_directory() {
    let mut disk: BTreeMap<String, String> = BTreeMap::new();
    take(&mut disk, agent::enable_in("/a", "/opt/tray", &acme()));
    let path = agent::entry_path("/a", &acme());
    assert_eq!(disk.get(&path), Some(&agent::launch_agent_plist("/opt/tray", &acme())));
}

#[test]
fn autostart_enable_is_idempotent_and_leaves_no_temp_file() {
    let mut disk: BTreeMap<String, String> = BTreeMap::new();
    take(&mut disk, agent::enable_in("/a", "/opt/tray", &acme()));
    take(&mut disk, agent::enable_in("/a", "/opt/tray", &acme()));
    let names: Vec<&String> = disk.keys().collect();
    assert_eq!(names, [&format!("/a/{}", agent::entry_name(&acme()))]);
}

#[test]
fn autostart_disable_removes_the_entry() {
    let mut disk: BTreeMap<String, String> = BTreeMap::new();
    take(&mut disk, agent::enable_in("/a", "/opt/tray", &acme()));
    take(&mut disk, agent::disable_in("/a", &acme()));
    assert!(disk.is_empty());
}

#[test]
fn autostart_disable_when_absent_succeeds() {
    let mut disk: BTreeMap<String, String> = BTreeMap::new();
    take(&mut disk, agent::disable_in("/a", &acme()));
    assert!(disk.is_empty());
}

#[test]
fn the_wanted_state_is_brought_about() {
    for (enabled, exec, step) in [
        (true, Some("/opt/tray"), Some(enable_in("/a", "/opt/tray", &acme()))),
        (true, None, None),
        (false, Some("/opt/tray"), Some(disable_in("/a", &acme()))),
        (false, None, Some(disable_in("/a", &acme()))),
    ] {
        assert_eq!(set_enabled(enabled, "/a", exec, &acme()), step);
    }
    assert_eq!(
        agent::set_enabled(true, "/a", Some("/opt/tray"), &acme()),
        Some(agent::enable_in("/a", "/opt/tray", &acme()))
    );
    assert_eq!(agent::set_enabled(true, "/a", None, &acme()), None);
    assert_eq!(
        agent::set_enabled(false, "/a", None, &acme()),
        Some(agent::disable_in("/a", &acme()))
    );
}

#[test]
fn desktop_entry_has_the_required_keys() {
    let entry = desktop_entry("/usr/local/bin/acme-usage-tray", &acme());
    assert!(entry.starts_with("[Desktop Entry]\n"));
    for line in [
        "Type=Application",
        "Name=Acme Usage Tray",
        "Exec=/usr/local/bin/acme-usage-tray",
        "X-GNOME-Autostart-enabled=true",
    ] {
        assert!(entry.lines().any(|l| l == line), "missing {line:?}");
    }
}

#[test]
fn desktop_entry_uses_the_absolute_exec_path_given() {
    let entry = desktop_entry("/home/someone/bin/tray", &acme());
    assert!(entry.contains("Exec=/home/someone/bin/tray\n"));
}

#[test]
fn the_desktop_entry_is_in_the_autostart_directory() {
    let dir = default_autostart_dir(Some("/home/me/.config"));
    assert_eq!(dir, "/home/me/.config/autostart");
    assert_eq!(entry_name(&acme()), "acme-usage-tray.desktop");
    assert_eq!(
        entry_path(&dir, &acme()),
        "/home/me/.config/autostart/acme-usage-tray.desktop"
    );
    assert_eq!(default_autostart_dir(None), "./autostart");
    assert!(desktop_entry("/x", &acme())
        .contains("Comment=Acme Code subscription usage in the system tray\n"));
}

fn program_arguments(plist: &str) -> Vec<&str> {
    let arguments = plist
        .split("<key>ProgramArguments</key>")
        .nth(1)
        .and_then(|rest| rest.split("</array>").next())
        .expect("a ProgramArguments array");
    arguments
        .split("<string>")
        .skip(1)
        .filter_map(|piece| piece.split("</string>").next())
        .collect()
}

#[test]
fn the_plist_has_the_required_keys() {
    let plist = agent::launch_agent_plist("/usr/local/bin/acme-usage-tray", &acme());
    assert!(plist.starts_with("<?xml version=\"1.0\" encoding=\"UTF-8\"?>\n"));
    for fragment in [
        "<key>Label</key>",
        "<string>com.patrickdappollonio.acme-usage-tray</string>",
        "<key>ProgramArguments</key>",
        "<string>/usr/local/bin/acme-usage-tray</string>",
        "<key>RunAtLoad</key>",
        "<true/>",
    ] {
        assert!(plist.contains(fragment), "missing {fragment:?}");
    }
    assert!(plist.trim_end().ends_with("</plist>"));
}

#[test]
fn the_plist_runs_the_tray_in_the_foreground() {
    let plist = agent::launch_agent_plist("/usr/local/bin/acme-usage-tray", &acme());
    assert_eq!(
        program_arguments(&plist),
        vec!["/usr/local/bin/acme-usage-tray", "--foreground"]
    );
}

#[test]
fn the_label_matches_the_file_name() {
    let label = agent::label(&acme());
    assert_eq!(agent::entry_name(&acme()), format!("{label}.plist"));
}

#[test]
fn the_plist_uses_the_absolute_exec_path_given() {
    let plist = agent::launch_agent_plist("/Users/someone/bin/tray", &acme());
    assert!(plist.contains("<string>/Users/someone/bin/tray</string>"));
}

#[test]
fn the_plist_keeps_a_bundled_exe_path_with_spaces_in_one_argument() {
    let exec = "/Applications/Acme Usage Tray.app/Contents/MacOS/acme-usage-tray";
    let plist = agent::launch_agent_plist(exec, &acme());
    assert_eq!(program_arguments(&plist), vec![exec, "--foreground"]);
}

#[test]
fn the_plist_escapes_xml_in_the_exec_path() {
    let plist = agent::launch_agent_plist("/Users/a&b/<c>/tray", &acme());
    assert!(plist.contains("<string>/Users/a&amp;b/&lt;c&gt;/tray</string>"));
    assert!(!plist.contains("/Users/a&b/"));
}

#[test]
fn the_default_directory_is_the_users_launch_agents_folder() {
    let dir = agent::default_autostart_dir(Some("/Users/someone"));
    assert!(
        dir.ends_with("Library/LaunchAgents"),
        "unexpected directory: {dir}"
    );
    assert!(!dir.starts_with("/Library"), "must not be system-wide");
    assert_eq!(
        agent::entry_path(&dir, &acme()),
        "/Users/someone/Library/LaunchAgents/com.patrickdappollonio.acme-usage-tray.plist"
    );
}

#[test]
fn xml_text_holds_no_special_character() {
    assert_eq!(
        agent::escape_xml("a&b<c>d\"e'f"),
        "a&amp;b&lt;c&gt;d&quot;e&apos;f"
    );
}

#[test]
fn a_notification_script_quotes_its_strings() {
    assert_eq!(applescript_escape("a\"b\\c"), "a\\\"b\\\\c");
    let script = notification_script("Title \"x\"", "Body");
    assert!(script.contains("\\\"x\\\""), "{script}");
    assert!(script.contains("Body"));
}

// Greeting

#[test]
fn no_recorded_version_is_first_launch() {
    assert_eq!(classify(None, "0.1.0"), Greeting::FirstLaunch);
}

#[test]
fn matching_version_is_silent() {
    assert_eq!(classify(Some("0.1.0"), "0.1.0"), Greeting::Silent);
}

#[test]
fn different_version_is_updated_with_current_version() {
    assert_eq!(
        classify(Some("0.0.9"), "0.1.0"),
        Greeting::Updated("0.1.0".to_string())
    );
}

#[test]
fn whitespace_only_recording_counts_as_first_launch() {
    assert_eq!(classify(Some("  \n"), "0.1.0"), Greeting::FirstLaunch);
}

#[test]
fn read_recorded_treats_missing_and_empty_files_as_nothing() {
    assert_eq!(read_recorded(&FileRead::NotFound), None);
    assert_eq!(read_recorded(&FileRead::Text("\n".to_string())), None);
}

#[test]
fn record_round_trips_through_read_recorded() {
    let body = record(&FileRead::NotFound, "0.1.0").expect("record");
    assert_eq!(body, "0.1.0");
    assert_eq!(read_recorded(&FileRead::Text(body)), Some("0.1.0".to_string()));
}

/// One launch, with the record on a disk in memory.
fn launch(disk: &mut FileRead, current: &str) -> Greeting {
    let body = record(disk, current);
    let greeting = check_and_record(disk, current, body.is_some());
    if let Some(body) = body {
        *disk = FileRead::Text(body);
    }
    greeting
}

#[test]
fn check_and_record_is_silent_on_second_call() {
    let mut disk = FileRead::NotFound;
    assert_eq!(launch(&mut disk, "0.1.0"), Greeting::FirstLaunch);
    assert_eq!(launch(&mut disk, "0.1.0"), Greeting::Silent);
    assert_eq!(launch(&mut disk, "0.2.0"), Greeting::Updated("0.2.0".to_string()));
    assert_eq!(launch(&mut disk, "0.2.0"), Greeting::Silent);
    assert_eq!(record(&disk, "0.2.0"), None);
}

#[test]
fn unwritable_destination_yields_no_greeting() {
    assert_eq!(
        check_and_record(&FileRead::NotFound, "0.1.0", false),
        Greeting::Silent
    );
}

#[test]
fn the_tray_keeps_its_files_in_its_own_directory() {
    assert_eq!(
        state_path(Some("/home/me/.config"), &acme()),
        "/home/me/.config/acme-usage-tray/last-version"
    );
    assert_eq!(
        default_config_path(Some("/home/me/.config"), &acme()),
        "/home/me/.config/acme-usage-tray/config.toml"
    );
    assert_eq!(
        default_config_path(None, &acme()),
        "./acme-usage-tray/config.toml"
    );
}

// Settings file

#[test]
fn default_is_five_seconds_and_no_autostart() {
    assert_eq!(Config::default(), with(5, false));
}

#[test]
fn parses_a_full_config() {
    let config = parse_config("refresh_secs = 30\nlaunch_at_login = true\n");
    assert_eq!(config, with(30, true));
}

#[test]
fn parses_a_partial_config_with_defaults_for_the_rest() {
    assert_eq!(parse_config("launch_at_login = true\n"), with(5, true));
    assert_eq!(parse_config("refresh_secs = 60\n"), with(60, false));
}

#[test]
fn ignores_unknown_keys() {
    assert_eq!(
        parse_config("colour = \"blue\"\nrefresh_secs = 15\n"),
        with(15, false)
    );
}

#[test]
fn corrupt_or_wrong_typed_values_fall_back_to_defaults() {
    assert_eq!(parse_config("this is not toml {{{"), Config::default());
    assert_eq!(parse_config(""), Config::default());
    assert_eq!(
        parse_config("refresh_secs = \"soon\"\nlaunch_at_login = 7\n"),
        Config::default()
    );
    assert_eq!(parse_config("refresh_secs = 0\n"), Config::default());
    assert_eq!(parse_config("refresh_secs = -5\n"), Config::default());
}

#[test]
fn render_round_trips_through_parse() {
    let config = with(60, true);
    assert_eq!(parse_config(&render_config(&config)), config);
}

#[test]
fn every_setting_is_read_back_as_it_was_written() {
    let mut config = Config {
        refresh_secs: 30,
        launch_at_login: true,
        notify_on_reset: false,
        icon_style: IconStyle::MonoLight,
        check_updates: false,
        cli_refresh: !Config::default().cli_refresh,
        ..Config::default()
    };
    config.set_notifies_at(75, false);
    assert_eq!(parse_config(&render_config(&config)), config);
    assert_eq!(
        render_config(&Config::default()),
        "refresh_secs = 5\nlaunch_at_login = false\n"
    );
}

#[test]
fn load_from_missing_file_is_defaults() {
    assert_eq!(load_from(&FileRead::NotFound), Config::default());
    assert_eq!(
        load_from(&FileRead::Failed("denied".to_string())),
        Config::default()
    );
}

#[test]
fn save_then_load_round_trips_and_creates_the_directory() {
    let config = with(15, true);
    assert_eq!(load_from(&FileRead::Text(render_config(&config))), config);
}

#[test]
fn the_default_icon_is_monochrome_on_macos_and_color_elsewhere() {
    assert_eq!(Config::default().icon_style, IconStyle::Color);
    for (macos, style) in [(false, IconStyle::Color), (true, IconStyle::MonoAuto)] {
        assert_eq!(Config::default_on(macos).icon_style, style);
        assert_eq!(load_on(&FileRead::NotFound, macos).icon_style, style);
        assert_eq!(parse_config_on("icon_style = \"blue\"\n", macos).icon_style, style);
        assert_eq!(
            render_config_on(&Config::default_on(macos), macos),
            "refresh_secs = 5\nlaunch_at_login = false\n"
        );
        for chosen in IconStyle::ALL {
            let config = Config {
                icon_style: chosen,
                ..Config::default_on(macos)
            };
            let file = FileRead::Text(render_config_on(&config, macos));
            assert_eq!(load_on(&file, macos), config);
        }
    }
}

#[test]
fn env_override_accepts_a_valid_value() {
    assert_eq!(env_override(Some(" 30 ")), Some(30));
}

#[test]
fn env_override_rejects_unset_garbage_zero_and_negative() {
    assert_eq!(env_override(None), None);
    assert_eq!(env_override(Some("")), None);
    assert_eq!(env_override(Some("soon")), None);
    assert_eq!(env_override(Some("-1")), None);
    assert_eq!(env_override(Some("0")), None);
}

#[test]
fn env_override_wins_over_the_configured_interval() {
    let config = with(60, false);
    assert_eq!(env_override(Some("2")).unwrap_or(config.refresh_secs), 2);
    assert_eq!(env_override(None).unwrap_or(config.refresh_secs), 60);
}

#[test]
fn refresh_choice_maps_to_the_radio_index() {
    for (index, &secs) in REFRESH_CHOICES.iter().enumerate() {
        assert_eq!(with(secs, false).refresh_choice(), index);
    }
}

#[test]
fn refresh_choice_for_an_unlisted_interval_selects_the_default() {
    let config = with(7, false);
    assert_eq!(
        REFRESH_CHOICES[config.refresh_choice()],
        DEFAULT_REFRESH_SECS
    );
}

#[test]
fn switching_one_threshold_leaves_the_others() {
    let mut config = Config::default();
    config.set_notifies_at(90, false);
    assert_eq!(config.notify_thresholds, vec![50, 75, 99, 100]);
    config.set_notifies_at(90, true);
    assert_eq!(config.notify_thresholds, Config::default().notify_thresholds);
    assert!(is_critical(90));
    assert!(!is_critical(89));
}

#[test]
fn thresholds_that_are_not_all_integers_are_the_default() {
    let all = Config::default().notify_thresholds;
    for list in ["[50, \"x\"]", "[50.0]", "[[50]]", "50"] {
        let config = parse_config(&format!("notify_thresholds = {list}\n"));
        assert_eq!(config.notify_thresholds, all, "{list}");
    }
    assert_eq!(parse_config("notify_thresholds = [50]\n").notify_thresholds, [50]);
    assert!(parse_config("notify_thresholds = []\n").notify_thresholds.is_empty());
}

#[test]
fn a_notification_is_sent_five_times_at_most() {
    assert_eq!(SEND_ATTEMPTS, 5);
    assert!(sends_again(1, false));
    assert!(sends_again(4, false));
    assert!(!sends_again(5, false));
    assert!(!sends_again(1, true));
}
