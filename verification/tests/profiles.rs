//! Finding the config directories, noting them, and reporting on them.

use std::collections::BTreeMap;

use usage_tray::assistant::Assistant;
use usage_tray::files::FileRead;
use usage_tray::profiles::{
    candidates, discover, discover_in, known_dirs_path, read_known_dirs, record_known_dir, render,
    sibling_profiles, DirLook, Discovery, Entry, Profile, ProfileFiles, Skipped,
};
use usage_tray::time::Timestamp;

const HOME: &str = "/home/me";

const NEVER_USED: &str = "no sessions/ and projects/ folders, so Acme Code has not used it";

fn acme() -> Assistant {
    Assistant {
        name: "acme".to_string(),
        title: "Acme".to_string(),
    }
}

fn now() -> Timestamp {
    Timestamp::from_second(1_700_000_000).expect("valid timestamp")
}

/// The directories of a machine, each with whether it was used.
#[derive(Default)]
struct Machine {
    dirs: BTreeMap<String, bool>,
    files_in_home: Vec<String>,
}

impl Machine {
    fn used(mut self, path: &str) -> Machine {
        self.dirs.insert(path.to_string(), true);
        self
    }

    fn empty(mut self, path: &str) -> Machine {
        self.dirs.insert(path.to_string(), false);
        self
    }

    fn siblings(&self) -> Vec<String> {
        let mut entries = Vec::new();
        for path in self.dirs.keys().rev() {
            if let Some(name) = path.strip_prefix("/home/me/") {
                entries.push(Entry {
                    name: name.to_string(),
                    is_dir: true,
                });
            }
        }
        for name in &self.files_in_home {
            entries.push(Entry {
                name: name.clone(),
                is_dir: false,
            });
        }
        sibling_profiles(HOME, &entries, &acme())
    }

    fn looks(&self, known: &Vec<String>) -> Vec<DirLook> {
        candidates(HOME, &self.siblings(), known, &acme())
            .iter()
            .map(|path| {
                let used = self.dirs.get(path).copied();
                DirLook {
                    is_dir: used.is_some(),
                    has_sessions: used == Some(true),
                    has_projects: used == Some(true),
                }
            })
            .collect()
    }

    fn discover_in(&self, env_dir: Option<&str>, known: &[&str]) -> Discovery {
        let known: Vec<String> = known.iter().map(|dir| dir.to_string()).collect();
        let looks = self.looks(&known);
        discover_in(env_dir, HOME, &self.siblings(), &known, &looks, &acme())
    }
}

fn dirs_of(discovery: &Discovery) -> Vec<String> {
    discovery
        .profiles
        .iter()
        .map(|p| p.config_dir.clone())
        .collect()
}

fn names_of(discovery: &Discovery) -> Vec<String> {
    discovery.profiles.iter().map(|p| p.name.clone()).collect()
}

#[test]
fn default_profile_reads_claude_json_from_home() {
    let profile = Profile::new("/home/me/.acme".to_string(), "/home/me", true, &acme());
    assert_eq!(profile.name, "default");
    assert_eq!(
        profile.cache_path,
        "/home/me/.acme/usage-tray-statusline.json"
    );
    assert_eq!(profile.app_cache_path, "/home/me/.acme.json");
}

#[test]
fn other_profiles_read_claude_json_from_inside_and_get_short_names() {
    let home = "/home/me";
    let work = Profile::new("/home/me/.acme-work".to_string(), home, false, &acme());
    assert_eq!(work.name, "work");
    assert_eq!(work.app_cache_path, "/home/me/.acme-work/.acme.json");
    let custom = Profile::new("/srv/some/dir".to_string(), home, false, &acme());
    assert_eq!(custom.name, "dir");
    let hidden = Profile::new("/srv/.agent".to_string(), home, false, &acme());
    assert_eq!(hidden.name, "agent");
}

#[test]
fn a_directory_without_a_name_is_called_by_its_path() {
    for dir in ["/", "/srv/..", "/srv/.acme-"] {
        let profile = Profile::new(dir.to_string(), "/home/me", false, &acme());
        assert_eq!(profile.name, dir);
    }
    let slash = Profile::new("/home/me/.acme/".to_string(), "/home/me", true, &acme());
    assert_eq!(slash.name, "default", "a path is told by its components");
}

#[test]
fn with_nothing_on_disk_the_primary_still_counts() {
    let found = Machine::default().discover_in(None, &[]);
    assert_eq!(dirs_of(&found), vec!["/home/me/.acme"]);
    assert!(found.profiles[0].primary);
    assert!(found.skipped.is_empty());
}

#[test]
fn env_dir_is_primary_and_a_used_default_follows() {
    let machine = Machine::default().used("/home/me/.acme");
    let found = machine.discover_in(Some("/home/me/elsewhere"), &[]);
    assert_eq!(
        dirs_of(&found),
        vec!["/home/me/elsewhere", "/home/me/.acme"]
    );
    assert!(found.profiles[0].primary);
    assert!(!found.profiles[1].primary);
}

#[test]
fn siblings_count_only_when_claude_code_has_used_them() {
    let mut machine = Machine::default()
        .used("/home/me/.acme")
        .used("/home/me/.acme-work")
        .used("/home/me/.acme-alt")
        .empty("/home/me/.acme-empty")
        .empty("/home/me/.acmeish");
    machine.files_in_home.push(".acme-notes".to_string());

    let found = machine.discover_in(None, &[]);
    assert_eq!(names_of(&found), vec!["default", "alt", "work"]);
    assert_eq!(
        found.skipped,
        vec![Skipped {
            config_dir: "/home/me/.acme-empty".to_string(),
            reason: NEVER_USED.to_string(),
        }]
    );
}

#[test]
fn known_dirs_count_once_and_report_when_gone() {
    let machine = Machine::default().used("/home/me/custom");
    let found = machine.discover_in(
        None,
        &["/home/me/custom", "/home/me/custom", "/home/me/gone"],
    );
    assert_eq!(dirs_of(&found), vec!["/home/me/.acme", "/home/me/custom"]);
    assert_eq!(
        found.skipped,
        vec![Skipped {
            config_dir: "/home/me/gone".to_string(),
            reason: "no longer exists".to_string(),
        }]
    );
}

#[test]
fn a_repeated_name_falls_back_to_the_full_path() {
    let machine = Machine::default()
        .used("/home/me/a/acme")
        .used("/home/me/b/acme");
    let found = machine.discover_in(Some("/home/me/a/acme"), &["/home/me/b/acme"]);
    assert_eq!(names_of(&found), vec!["acme", "/home/me/b/acme"]);
}

#[test]
fn an_empty_override_is_no_override() {
    let found = discover(Some(""), HOME, &vec![], &vec![], &[], &acme());
    assert_eq!(dirs_of(&found), vec!["/home/me/.acme"]);
    let found = discover(Some("/x"), HOME, &vec![], &vec![], &[], &acme());
    assert_eq!(dirs_of(&found), vec!["/x"]);
}

#[test]
fn the_order_of_siblings_does_not_depend_on_the_listing() {
    let entry = |name: &str| Entry {
        name: name.to_string(),
        is_dir: true,
    };
    let one = vec![entry(".acme-b"), entry(".acme-a"), entry(".acme-ab"), entry("other")];
    let other = vec![entry("other"), entry(".acme-ab"), entry(".acme-b"), entry(".acme-a")];
    let expected = vec!["/home/me/.acme-a", "/home/me/.acme-ab", "/home/me/.acme-b"];
    assert_eq!(sibling_profiles(HOME, &one, &acme()), expected);
    assert_eq!(sibling_profiles(HOME, &other, &acme()), expected);
}

fn files(here: &str, settings: Option<&str>) -> ProfileFiles {
    ProfileFiles {
        here: here.to_string(),
        settings: match settings {
            Some(text) => FileRead::Text(text.to_string()),
            None => FileRead::NotFound,
        },
        cache: FileRead::NotFound,
        cache_mtime: None,
    }
}

#[test]
fn render_marks_the_primary_and_reports_hooks_data_and_skips() {
    let machine = Machine::default()
        .used("/home/me/.acme")
        .used("/home/me/.acme-work")
        .empty("/home/me/.acme-empty");
    let found = machine.discover_in(None, &[]);
    let read = vec![
        files(
            "/home/me/.acme",
            Some(r#"{"statusLine":{"command":"/opt/tray statusline --config-dir /elsewhere"}}"#),
        ),
        files(
            "/home/me/.acme-work",
            Some(r#"{"statusLine":{"command":"/opt/tray statusline --config-dir /home/me/.acme-work"}}"#),
        ),
    ];

    let text = render(&found, &read, now(), &acme());
    assert!(
        text.starts_with(
            "default  /home/me/.acme  (this shell's profile)\n  hook: installed, but writes its data to /elsewhere"
        ),
        "{text}"
    );
    assert!(text.contains("work  /home/me/.acme-work\n  hook: installed\n  data: no cache file yet"));
    assert!(text.contains("2 profiles, so the tray shows a section for each."));
    assert!(text.contains("Skipped:\n  /home/me/.acme-empty: no sessions/"));
}

#[test]
fn render_of_a_single_profile_says_nothing_changes() {
    let found = Machine::default().discover_in(None, &[]);
    let text = render(&found, &vec![files("/home/me/.acme", None)], now(), &acme());
    assert!(text.contains("hook: not installed"));
    assert!(text.contains("Only one profile"));
    assert!(!text.contains("Skipped"));
}

#[test]
fn a_hook_that_names_no_directory_is_told_apart() {
    let found = Machine::default().discover_in(None, &[]);
    let settings = r#"{"statusLine":{"command":"/opt/tray statusline"}}"#;
    let read = vec![files("/home/me/.acme", Some(settings))];
    assert!(render(&found, &read, now(), &acme())
        .contains("hook: installed (the tray names this folder in it on its next start)"));
}

#[test]
fn record_known_dir_appends_new_dirs_once() {
    let mut file = FileRead::NotFound;
    for dir in ["/srv/a", "/srv/b", "/srv/a"] {
        if let Some(body) = record_known_dir(&file, dir, HOME, &acme()) {
            file = FileRead::Text(body);
        }
    }
    assert_eq!(read_known_dirs(&file), vec!["/srv/a", "/srv/b"]);
    assert_eq!(file, FileRead::Text("/srv/a\n/srv/b\n".to_string()));
}

#[test]
fn record_known_dir_skips_the_default_dir() {
    assert_eq!(
        record_known_dir(&FileRead::NotFound, "/home/me/.acme", HOME, &acme()),
        None
    );
}

#[test]
fn record_known_dir_stores_relative_dirs_as_absolute() {
    let dir = std::path::absolute("rel/dir").expect("a current directory");
    let dir = dir.to_str().expect("text");
    let body = record_known_dir(&FileRead::NotFound, dir, "/nowhere", &acme()).expect("noted");
    let known = read_known_dirs(&FileRead::Text(body));
    assert_eq!(known.len(), 1);
    assert!(known[0].starts_with('/'));
    assert!(known[0].ends_with("/rel/dir"));
}

#[test]
fn read_known_dirs_ignores_blank_lines_and_a_missing_file() {
    assert!(read_known_dirs(&FileRead::NotFound).is_empty());
    assert_eq!(
        read_known_dirs(&FileRead::Text("/a\n\n  \n/b\n".to_string())),
        vec!["/a", "/b"]
    );
    assert_eq!(
        read_known_dirs(&FileRead::Text(" /a \r\n/b".to_string())),
        vec!["/a", "/b"]
    );
}

#[test]
fn the_known_directories_are_noted_beside_the_settings() {
    assert_eq!(
        known_dirs_path(Some("/home/me/.config"), &acme()),
        "/home/me/.config/acme-usage-tray/acme-config-dirs"
    );
}
