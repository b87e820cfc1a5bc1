//! What the hook commands tell the user.

use vstd::prelude::*;
use vstd::string::*;

use crate::assistant::Assistant;
use crate::files::FileRead;
use crate::hook::command::{our_command, parse_our_command, shell_split, slice_text, text_of, words};
use crate::hook::legacy::SCRIPT_BACKUP_SUFFIX;
use crate::hook::lifecycle::{ours_in, InstallReport, InstallView, UninstallReport, UninstallView};
use crate::hook::settings::{
    command_in, read_settings, settings_in, HookError, SETTINGS_BACKUP_FILE_NAME, SETTINGS_FILE_NAME,
};
use crate::paths::{join, joined_path};
use crate::source::{
    cache_path_in, file_snapshot, read_snapshot, SnapshotState, CACHE_FILE_NAME,
    LEGACY_CACHE_FILE_NAME,
};
use crate::text::{decimal, int_text, joined, same_text, texts};
use crate::time::Timestamp;
use crate::ui::labels::{age, age_secs};

verus! {

/// The option by which a recorded command names its config directory.
pub const CONFIG_DIR_OPTION: &'static str = "--config-dir";

/// `lines` with one more where it is wanted.
pub open spec fn also_line(lines: Seq<Seq<char>>, line: Seq<char>, wanted: bool) -> Seq<Seq<char>> {
    if wanted {
        lines.push(line)
    } else {
        lines
    }
}

/// Adds a line.
pub(crate) fn push_line(lines: &mut Vec<String>, line: String)
    ensures
        texts(final(lines)@) == texts(old(lines)@).push(line@),
{
    let ghost before = lines@;
    let ghost view = line@;
    lines.push(line);
    proof {
        assert(texts(lines@) == texts(before).push(view));
    }
}

/// Three pieces put together.
pub(crate) fn concat3(a: &str, b: &str, c: &str) -> (text: String)
    ensures
        text@ == a@ + b@ + c@,
{
    let mut text = a.to_owned();
    text.append(b);
    text.append(c);
    text
}

/// No lines at all.
pub(crate) fn no_lines() -> (lines: Vec<String>)
    ensures
        texts(lines@) == Seq::<Seq<char>>::empty(),
{
    let lines: Vec<String> = Vec::new();
    proof {
        assert(texts(lines@) == Seq::<Seq<char>>::empty());
    }
    lines
}

// ---------------------------------------------------------------------------
// Install and uninstall
// ---------------------------------------------------------------------------

/// The lines that report an install.
pub open spec fn install_lines(report: InstallView, assistant: Assistant) -> Seq<Seq<char>> {
    let verb = if report.refreshed {
        "Refreshed"@
    } else {
        "Installed"@
    };
    let lines = seq![
        verb + " statusline hook in "@ + report.settings_path,
        "  statusLine.command = "@ + report.command,
        match report.wrapped {
            Some(original) => "  wrapping your command: "@ + original,
            None => "  no previous statusline was set, so nothing is printed to the statusline"@,
        },
    ];
    let lines = also_line(
        lines,
        "  backup: "@ + SETTINGS_BACKUP_FILE_NAME@,
        report.created_backup,
    );
    let lines = match report.cleaned_script {
        Some(script) => lines.push(
            "  removed old shell hook blocks from "@ + script + " (backup: "@ + script
                + SCRIPT_BACKUP_SUFFIX@ + ")"@,
        ),
        None => lines,
    };
    let lines = also_line(
        lines,
        "  deleted the obsolete "@ + LEGACY_CACHE_FILE_NAME@ + " cache"@,
        report.removed_legacy_cache,
    );
    lines.push(
        "  data appears the next time "@ + assistant.product() + " refreshes the statusline"@,
    )
}

impl InstallReport {
    /// Summary for the command line.
    pub fn render(&self, assistant: &Assistant) -> (text: String)
        ensures
            text@ == joined(install_lines(self@, *assistant), "\n"@),
    {
        let mut lines = no_lines();
        let verb = if self.refreshed {
            "Refreshed"
        } else {
            "Installed"
        };
        push_line(&mut lines, concat3(verb, " statusline hook in ", self.settings_path.as_str()));
        push_line(&mut lines, concat2("  statusLine.command = ", self.command.as_str()));
        match &self.wrapped {
            Some(original) => {
                push_line(&mut lines, concat2("  wrapping your command: ", original.as_str()));
            },
            None => {
                push_line(
                    &mut lines,
                    "  no previous statusline was set, so nothing is printed to the statusline".to_owned(),
                );
            },
        }
        proof {
            let verb = if self.refreshed {
                "Refreshed"@
            } else {
                "Installed"@
            };
            assert(texts(lines@) =~= seq![
                verb + " statusline hook in "@ + self.settings_path@,
                "  statusLine.command = "@ + self.command@,
                match text_of(self.wrapped) {
                    Some(original) => "  wrapping your command: "@ + original,
                    None => "  no previous statusline was set, so nothing is printed to the statusline"@,
                },
            ]);
        }
        let ghost l0 = texts(lines@);
        if self.created_backup {
            push_line(&mut lines, concat2("  backup: ", SETTINGS_BACKUP_FILE_NAME));
        }
        let ghost l1 = texts(lines@);
        proof {
            assert(l1 == also_line(
                l0,
                "  backup: "@ + SETTINGS_BACKUP_FILE_NAME@,
                self.created_backup,
            ));
        }
        if let Some(script) = &self.cleaned_script {
            let mut line = concat3(
                "  removed old shell hook blocks from ",
                script.as_str(),
                " (backup: ",
            );
            line.append(script.as_str());
            line.append(SCRIPT_BACKUP_SUFFIX);
            line.append(")");
            push_line(&mut lines, line);
        }
        let ghost l2 = texts(lines@);
        proof {
            assert(l2 == (match text_of(self.cleaned_script) {
                Some(script) => l1.push(
                    "  removed old shell hook blocks from "@ + script + " (backup: "@ + script
                        + SCRIPT_BACKUP_SUFFIX@ + ")"@,
                ),
                None => l1,
            }));
        }
        if self.removed_legacy_cache {
            push_line(
                &mut lines,
                concat3("  deleted the obsolete ", LEGACY_CACHE_FILE_NAME, " cache"),
            );
        }
        let product = assistant.product_name();
        push_line(
            &mut lines,
            concat3("  data appears the next time ", product.as_str(), " refreshes the statusline"),
        );
        proof {
            assert(texts(lines@) == install_lines(self@, *assistant));
        }
        crate::text::join(&lines, "\n")
    }
}

/// Two pieces put together.
pub(crate) fn concat2(a: &str, b: &str) -> (text: String)
    ensures
        text@ == a@ + b@,
{
    let mut text = a.to_owned();
    text.append(b);
    text
}

/// The lines that report an uninstall.
pub open spec fn uninstall_lines(report: UninstallView, assistant: Assistant) -> Seq<Seq<char>> {
    let lines = if report.was_installed {
        let first = seq!["Removed the statusline hook from "@ + report.settings_path];
        match report.restored {
            Some(original) => first.push("  restored your command: "@ + original),
            None => also_line(
                first,
                "  removed the statusLine key (there was nothing to restore)"@,
                report.removed_statusline,
            ),
        }
    } else {
        seq![
            "No "@ + assistant.program() + " statusline hook found in "@ + report.settings_path,
        ]
    };
    also_line(lines, "  deleted the cache file"@, report.removed_cache)
}

impl UninstallReport {
    /// Summary for the command line.
    pub fn render(&self, assistant: &Assistant) -> (text: String)
        ensures
            text@ == joined(uninstall_lines(self@, *assistant), "\n"@),
    {
        let mut lines = no_lines();
        if self.was_installed {
            push_line(
                &mut lines,
                concat2("Removed the statusline hook from ", self.settings_path.as_str()),
            );
            proof {
                assert(texts(lines@) =~= seq![
                    "Removed the statusline hook from "@ + self.settings_path@,
                ]);
            }
            match &self.restored {
                Some(original) => {
                    push_line(&mut lines, concat2("  restored your command: ", original.as_str()));
                },
                None => {
                    if self.removed_statusline {
                        push_line(
                            &mut lines,
                            "  removed the statusLine key (there was nothing to restore)".to_owned(),
                        );
                    }
                },
            }
        } else {
            let program = assistant.program_name();
            let mut line = concat3("No ", program.as_str(), " statusline hook found in ");
            line.append(self.settings_path.as_str());
            push_line(&mut lines, line);
            proof {
                assert(texts(lines@) =~= seq![
                    "No "@ + assistant.program() + " statusline hook found in "@
                        + self.settings_path@,
                ]);
            }
        }
        if self.removed_cache {
            push_line(&mut lines, "  deleted the cache file".to_owned());
        }
        crate::text::join(&lines, "\n")
    }
}

/// What is said after an install from the menu. One that only refreshed an
/// entry says so, since no new data is coming because of it.
pub open spec fn install_toast_text(
    result: Result<InstallReport, HookError>,
    assistant: Assistant,
) -> Seq<char> {
    match result {
        Ok(report) => if report.refreshed {
            "Hook already installed — entry refreshed"@
        } else {
            "Hook installed — data appears next time "@ + assistant.product() + " refreshes"@
        },
        Err(error) => "Hook install failed: "@ + error@.1,
    }
}

/// The toast shown after an install from the menu.
pub fn install_toast(result: &Result<InstallReport, HookError>, assistant: &Assistant) -> (text:
    String)
    ensures
        text@ == install_toast_text(*result, *assistant),
{
    match result {
        Ok(report) => if report.refreshed {
            "Hook already installed — entry refreshed".to_owned()
        } else {
            let product = assistant.product_name();
            concat3("Hook installed — data appears next time ", product.as_str(), " refreshes")
        },
        Err(error) => concat2("Hook install failed: ", error.message()),
    }
}

// ---------------------------------------------------------------------------
// Status
// ---------------------------------------------------------------------------

/// What `hook status` found.
#[derive(Clone, Debug, PartialEq, Eq)]
pub struct StatusReport {
    pub settings_path: String,
    /// The command currently configured, whatever it is.
    pub command: Option<String>,
    /// Whether that command is one of ours.
    pub installed: bool,
    /// The binary path recorded in it, if it is ours.
    pub recorded_exe: Option<String>,
    /// The command wrapped in it, if it is ours.
    pub wrapped: Option<String>,
    /// The config directory named in it, if it is ours and names one.
    pub recorded_config_dir: Option<String>,
    pub cache_path: String,
    pub cache_state: SnapshotState,
    pub cache_written_at: Option<Timestamp>,
}

/// The contents of a [`StatusReport`].
pub ghost struct StatusView {
    pub settings_path: Seq<char>,
    pub command: Option<Seq<char>>,
    pub installed: bool,
    pub recorded_exe: Option<Seq<char>>,
    pub wrapped: Option<Seq<char>>,
    pub recorded_config_dir: Option<Seq<char>>,
    pub cache_path: Seq<char>,
    pub cache_state: SnapshotState,
    pub cache_written_at: Option<Timestamp>,
}

impl View for StatusReport {
    type V = StatusView;

    open spec fn view(&self) -> StatusView {
        StatusView {
            settings_path: self.settings_path@,
            command: text_of(self.command),
            installed: self.installed,
            recorded_exe: text_of(self.recorded_exe),
            wrapped: text_of(self.wrapped),
            recorded_config_dir: text_of(self.recorded_config_dir),
            cache_path: self.cache_path@,
            cache_state: self.cache_state,
            cache_written_at: self.cache_written_at,
        }
    }
}

/// The config directory that one of our commands names.
pub open spec fn named_dir(command: Seq<char>) -> Option<Seq<char>> {
    match words(command) {
        Some(w) => if our_command(w) is Some && w.len() >= 4 && w[2] == CONFIG_DIR_OPTION@ {
            Some(w[3])
        } else {
            None
        },
        None => None,
    }
}

/// The config directory that one of our commands names.
pub fn recorded_config_dir(command: &str) -> (dir: Option<String>)
    ensures
        text_of(dir) == named_dir(command@),
{
    if parse_our_command(command).is_none() {
        return None;
    }
    let tokens = match shell_split(command) {
        Some(tokens) => tokens,
        None => {
            return None;
        },
    };
    if tokens.len() < 4 {
        return None;
    }
    proof {
        assert(texts(tokens@)[2] == tokens@[2]@);
        assert(texts(tokens@)[3] == tokens@[3]@);
    }
    if same_text(tokens[2].as_str(), CONFIG_DIR_OPTION) {
        Some(tokens[3].clone())
    } else {
        None
    }
}

/// The command in settings that may not be readable.
pub open spec fn configured_command(path: Seq<char>, settings: FileRead) -> Option<Seq<char>> {
    match settings_in(path, settings) {
        Ok(members) => command_in(members),
        Err(_) => None,
    }
}

/// What an inspection of a config directory finds.
pub open spec fn status_found(
    config_dir: Seq<char>,
    settings: FileRead,
    cache: FileRead,
    cache_mtime: Option<Timestamp>,
    now: Timestamp,
) -> StatusView {
    let settings_path = joined_path(config_dir, SETTINGS_FILE_NAME@);
    let command = configured_command(settings_path, settings);
    let ours = ours_in(command);
    let snapshot = file_snapshot(cache, cache_mtime, now);
    StatusView {
        settings_path,
        command,
        installed: ours is Some,
        recorded_exe: match ours {
            Some(o) => Some(o.exe),
            None => None,
        },
        wrapped: match ours {
            Some(o) => o.original,
            None => None,
        },
        recorded_config_dir: match command {
            Some(c) => named_dir(c),
            None => None,
        },
        cache_path: joined_path(config_dir, CACHE_FILE_NAME@),
        cache_state: snapshot.state,
        cache_written_at: snapshot.written_at,
    }
}

/// Inspects a config directory: what the settings say, and how fresh the cache
/// is.
pub fn status_in(
    config_dir: &str,
    settings: &FileRead,
    cache: &FileRead,
    cache_mtime: Option<Timestamp>,
    now: Timestamp,
) -> (report: StatusReport)
    ensures
        report@ == status_found(config_dir@, *settings, *cache, cache_mtime, now),
{
    let settings_path = join(config_dir, SETTINGS_FILE_NAME);
    let command = match read_settings(settings_path.as_str(), settings) {
        Ok(doc) => doc.command_of(),
        Err(_) => None,
    };
    let mut installed = false;
    let mut recorded_exe: Option<String> = None;
    let mut wrapped: Option<String> = None;
    let mut dir: Option<String> = None;
    if let Some(command) = &command {
        dir = recorded_config_dir(command.as_str());
        if let Some(ours) = parse_our_command(command.as_str()) {
            installed = true;
            recorded_exe = Some(ours.exe);
            wrapped = ours.original;
        }
    }
    let snapshot = read_snapshot(cache, cache_mtime, now);
    StatusReport {
        settings_path,
        command,
        installed,
        recorded_exe,
        wrapped,
        recorded_config_dir: dir,
        cache_path: cache_path_in(config_dir),
        cache_state: snapshot.state,
        cache_written_at: snapshot.written_at,
    }
}

/// How old the cache is, in words.
pub open spec fn freshness_text(
    state: SnapshotState,
    written_at: Option<Timestamp>,
    now: Timestamp,
) -> Seq<char> {
    match (state, written_at) {
        (SnapshotState::Missing, _) => "no cache file yet"@,
        (_, Some(at)) => {
            let label = if state == SnapshotState::Stale {
                "stale"@
            } else {
                "fresh"@
            };
            label + ", last written "@ + decimal(age(at, now)) + " s ago"@
        },
        (_, None) => "present, age unknown"@,
    }
}

/// The lines that report a status.
pub open spec fn status_lines(
    report: StatusView,
    running_exe: Option<Seq<char>>,
    now: Timestamp,
) -> Seq<Seq<char>> {
    let lines = seq!["settings: "@ + report.settings_path];
    let lines = match report.command {
        Some(command) => if report.installed {
            let lines = lines.push("hook: installed"@).push(
                "  statusLine.command = "@ + command,
            ).push(
                match report.wrapped {
                    Some(original) => "  wrapping: "@ + original,
                    None => "  wrapping: nothing (statusline prints nothing)"@,
                },
            );
            match (report.recorded_exe, running_exe) {
                (Some(recorded), Some(running)) => also_line(
                    lines,
                    "  recorded binary "@ + recorded + " differs from the running "@ + running
                        + " — re-run `hook install` to point it here"@,
                    recorded != running,
                ),
                _ => lines,
            }
        } else {
            lines.push("hook: NOT installed"@).push("  statusLine.command = "@ + command)
        },
        None => lines.push("hook: NOT installed (no statusLine.command configured)"@),
    };
    lines.push("cache: "@ + report.cache_path).push(
        "  "@ + freshness_text(report.cache_state, report.cache_written_at, now),
    )
}

impl StatusReport {
    /// Summary for the command line. `running_exe` is the path of the running
    /// program, so that an install that records another one can be told.
    pub fn render(&self, running_exe: Option<&str>, now: Timestamp) -> (text: String)
        ensures
            text@ == joined(status_lines(self@, slice_text(running_exe), now), "\n"@),
    {
        let mut lines = no_lines();
        push_line(&mut lines, concat2("settings: ", self.settings_path.as_str()));
        proof {
            assert(texts(lines@) =~= seq!["settings: "@ + self.settings_path@]);
        }
        match &self.command {
            Some(command) => {
                if self.installed {
                    push_line(&mut lines, "hook: installed".to_owned());
                    push_line(&mut lines, concat2("  statusLine.command = ", command.as_str()));
                    match &self.wrapped {
                        Some(original) => {
                            push_line(&mut lines, concat2("  wrapping: ", original.as_str()));
                        },
                        None => {
                            push_line(
                                &mut lines,
                                "  wrapping: nothing (statusline prints nothing)".to_owned(),
                            );
                        },
                    }
                    if let Some(recorded) = &self.recorded_exe {
                        if let Some(running) = running_exe {
                            if !same_text(recorded.as_str(), running) {
                                let mut line = concat3(
                                    "  recorded binary ",
                                    recorded.as_str(),
                                    " differs from the running ",
                                );
                                line.append(running);
                                line.append(" — re-run `hook install` to point it here");
                                push_line(&mut lines, line);
                            }
                        }
                    }
                } else {
                    push_line(&mut lines, "hook: NOT installed".to_owned());
                    push_line(&mut lines, concat2("  statusLine.command = ", command.as_str()));
                }
            },
            None => {
                push_line(
                    &mut lines,
                    "hook: NOT installed (no statusLine.command configured)".to_owned(),
                );
            },
        }
        push_line(&mut lines, concat2("cache: ", self.cache_path.as_str()));
        let freshness = self.cache_freshness(now);
        push_line(&mut lines, concat2("  ", freshness.as_str()));
        crate::text::join(&lines, "\n")
    }

    /// One line on the age of the cache.
    pub fn cache_freshness(&self, now: Timestamp) -> (text: String)
        ensures
            text@ == freshness_text(self.cache_state, self.cache_written_at, now),
    {
        if let SnapshotState::Missing = self.cache_state {
            return "no cache file yet".to_owned();
        }
        match self.cache_written_at {
            Some(at) => {
                let label = match self.cache_state {
                    SnapshotState::Stale => "stale",
                    _ => "fresh",
                };
                let secs = int_text(age_secs(at, now));
                let mut text = concat3(label, ", last written ", secs.as_str());
                text.append(" s ago");
                text
            },
            None => "present, age unknown".to_owned(),
        }
    }
}

} // verus!
