//! Installing, removing and inspecting the hook. What is on disk comes in as
//! plain values; what is to be done on disk goes out as a list of steps, to be
//! taken in order and abandoned at the first that fails.

use vstd::prelude::*;
use vstd::string::*;

use crate::files::{FileRead, FileStep, StepView};
use crate::hook::command::{
    build_command, command_text, parse_our_command, parse_undoes_build, recorded_command,
    shell_split, slice_text, text_of, words, wrappable, OurCommandView,
};
use crate::hook::legacy::{strip_legacy_blocks, stripped, SCRIPT_BACKUP_SUFFIX};
use crate::hook::settings::{
    changes_keep_storable, command_in, entry, exact_settings_are_kept,
    exact_settings_are_readable, file_holds, line_members, read_settings, reads_as,
    same_change, same_command, settings_in, settings_return, settings_text, storable, with_command,
    without_statusline, HookError, SettingsDoc, SETTINGS_BACKUP_FILE_NAME, SETTINGS_FILE_NAME,
    STATUS_LINE,
};
use crate::json::{exact, modest, readable, reread, returning, same_but_doubles, Tree};
use crate::paths::{join, joined_path};
use crate::source::{cache_path_in, CACHE_FILE_NAME, LEGACY_CACHE_FILE_NAME};
use crate::text::{begins, blank, chars_of, is_blank, same_text, starts_with, string_of, texts};

verus! {

/// What steps do, in order.
pub open spec fn step_views(steps: Seq<FileStep>) -> Seq<StepView> {
    steps.map_values(|s: FileStep| s@)
}

/// `steps` with one more where it is wanted.
pub open spec fn also(steps: Seq<StepView>, step: StepView, wanted: bool) -> Seq<StepView> {
    if wanted {
        steps.push(step)
    } else {
        steps
    }
}

fn push_step(steps: &mut Vec<FileStep>, step: FileStep)
    ensures
        step_views(final(steps)@) == step_views(old(steps)@).push(step@),
{
    let ghost before = steps@;
    let ghost view = step@;
    steps.push(step);
    proof {
        assert(step_views(steps@) == step_views(before).push(view));
    }
}

// ---------------------------------------------------------------------------
// The wrapped script
// ---------------------------------------------------------------------------

/// The file that a command's first word names, with a leading `~/` expanded.
pub open spec fn script_of(command: Seq<char>, home: Option<Seq<char>>) -> Option<Seq<char>> {
    match words(command) {
        Some(w) => if w.len() == 0 {
            None
        } else if begins(w[0], "~/"@) {
            match home {
                Some(h) => Some(joined_path(h, w[0].skip(2))),
                None => None,
            }
        } else {
            Some(w[0])
        },
        None => None,
    }
}

/// The file that a command's first word names. Whether there is such a file is
/// for the caller to see: the word may be a program on the path, or a builtin.
pub fn script_path_of(command: &str, home: Option<&str>) -> (path: Option<String>)
    ensures
        text_of(path) == script_of(command@, slice_text(home)),
{
    let tokens = match shell_split(command) {
        Some(tokens) => tokens,
        None => {
            return None;
        },
    };
    if tokens.len() == 0 {
        proof {
            assert(texts(tokens@).len() == 0);
        }
        return None;
    }
    proof {
        assert(texts(tokens@)[0] == tokens@[0]@);
    }
    let first = &tokens[0];
    if starts_with(first.as_str(), "~/") {
        let home = match home {
            Some(home) => home,
            None => {
                return None;
            },
        };
        let chars = chars_of(first.as_str());
        proof {
            reveal_strlit("~/");
            assert("~/"@.len() == 2);
            assert(chars@.subrange(2, chars@.len() as int) == chars@.skip(2));
        }
        let rest = string_of(&chars, 2, chars.len());
        Some(join(home, rest.as_str()))
    } else {
        Some(first.clone())
    }
}

/// `path` with a suffix behind it: `foo.sh` with `.bak` is `foo.sh.bak`.
pub fn append_suffix(path: &str, suffix: &str) -> (longer: String)
    ensures
        longer@ == path@ + suffix@,
{
    let mut longer = path.to_owned();
    longer.append(suffix);
    longer
}

/// The statusline script on disk.
#[derive(Clone, Debug, PartialEq, Eq)]
pub struct ScriptFile {
    pub path: String,
    /// Its text; none when it is no text or cannot be read.
    pub body: Option<String>,
    /// Whether it was backed up before.
    pub backup_exists: bool,
}

// ---------------------------------------------------------------------------
// Install
// ---------------------------------------------------------------------------

/// What is on disk before an install.
#[derive(Clone, Debug, PartialEq, Eq)]
pub struct InstallInput {
    pub settings: FileRead,
    /// Whether the settings were backed up before.
    pub settings_backup_exists: bool,
    /// The script that the present command names, where it is a file.
    pub script: Option<ScriptFile>,
    /// The home directory, where it is known.
    pub home: Option<String>,
    /// The program's name, as earlier releases wrote it into scripts.
    pub program: String,
    /// Whether an earlier release's cache is there.
    pub legacy_cache_exists: bool,
}

/// What `hook install` did.
#[derive(Clone, Debug, PartialEq, Eq)]
pub struct InstallReport {
    pub settings_path: String,
    /// The command now recorded.
    pub command: String,
    /// The user's own command, if one is wrapped.
    pub wrapped: Option<String>,
    /// Whether this run backs the settings up.
    pub created_backup: bool,
    /// A statusline script that old blocks are stripped out of.
    pub cleaned_script: Option<String>,
    /// Whether an obsolete cache file is deleted.
    pub removed_legacy_cache: bool,
    /// Whether the previous command was already one of ours.
    pub refreshed: bool,
}

/// The contents of an [`InstallReport`].
pub ghost struct InstallView {
    pub settings_path: Seq<char>,
    pub command: Seq<char>,
    pub wrapped: Option<Seq<char>>,
    pub created_backup: bool,
    pub cleaned_script: Option<Seq<char>>,
    pub removed_legacy_cache: bool,
    pub refreshed: bool,
}

impl View for InstallReport {
    type V = InstallView;

    open spec fn view(&self) -> InstallView {
        InstallView {
            settings_path: self.settings_path@,
            command: self.command@,
            wrapped: text_of(self.wrapped),
            created_backup: self.created_backup,
            cleaned_script: text_of(self.cleaned_script),
            removed_legacy_cache: self.removed_legacy_cache,
            refreshed: self.refreshed,
        }
    }
}

/// An install: what it does on disk, and what it reports.
#[derive(Clone, Debug, PartialEq, Eq)]
pub struct Install {
    pub report: InstallReport,
    pub steps: Vec<FileStep>,
}

/// One of our commands that a text records, if it is one.
pub open spec fn ours_in(command: Option<Seq<char>>) -> Option<OurCommandView> {
    match command {
        Some(c) => recorded_command(c),
        None => None,
    }
}

/// The command that an install wraps: what our own command already wraps,
/// never our own command itself, else whatever command is there.
pub open spec fn wrapped_by(members: Map<Seq<char>, Tree>) -> Option<Seq<char>> {
    let existing = command_in(members);
    match ours_in(existing) {
        Some(ours) => ours.original,
        None => wrappable(existing),
    }
}

/// Settings after an install of the binary `exe`.
pub open spec fn installed(members: Map<Seq<char>, Tree>, exe: Seq<char>) -> Map<Seq<char>, Tree> {
    with_command(members, command_text(exe, wrapped_by(members)))
}

/// The script that an install cleans, and its cleaned text.
pub open spec fn cleaned_by(
    wrapped: Option<Seq<char>>,
    input: InstallInput,
) -> Option<(Seq<char>, Seq<char>)> {
    match (wrapped, input.script) {
        (Some(command), Some(script)) => if script_of(command, text_of(input.home)) == Some(
            script.path@,
        ) {
            match script.body {
                Some(body) => match stripped(body@, input.program@) {
                    Some(text) => Some((script.path@, text)),
                    None => None,
                },
                None => None,
            }
        } else {
            None
        },
        _ => None,
    }
}

/// What an install reports.
pub open spec fn install_report(
    config_dir: Seq<char>,
    exe: Seq<char>,
    input: InstallInput,
    members: Map<Seq<char>, Tree>,
) -> InstallView {
    let wrapped = wrapped_by(members);
    InstallView {
        settings_path: joined_path(config_dir, SETTINGS_FILE_NAME@),
        command: command_text(exe, wrapped),
        wrapped,
        created_backup: !input.settings_backup_exists && input.settings != FileRead::NotFound,
        cleaned_script: match cleaned_by(wrapped, input) {
            Some((path, _)) => Some(path),
            None => None,
        },
        removed_legacy_cache: input.legacy_cache_exists,
        refreshed: ours_in(command_in(members)) is Some,
    }
}

/// What an install does on disk: the script is backed up once and cleaned, the
/// settings are backed up once and written, and an obsolete cache is deleted.
pub open spec fn install_steps(
    config_dir: Seq<char>,
    exe: Seq<char>,
    input: InstallInput,
    members: Map<Seq<char>, Tree>,
) -> Seq<StepView> {
    let settings_path = joined_path(config_dir, SETTINGS_FILE_NAME@);
    let report = install_report(config_dir, exe, input, members);
    let steps = Seq::<StepView>::empty();
    let steps = match cleaned_by(wrapped_by(members), input) {
        Some((path, text)) => also(
            steps,
            StepView::Copy { from: path, to: path + SCRIPT_BACKUP_SUFFIX@ },
            !input.script->0.backup_exists,
        ).push(StepView::Write { path, body: text }),
        None => steps,
    };
    let steps = also(
        steps,
        StepView::Copy {
            from: settings_path,
            to: joined_path(config_dir, SETTINGS_BACKUP_FILE_NAME@),
        },
        report.created_backup,
    );
    let steps = steps.push(
        StepView::Write { path: settings_path, body: settings_text(installed(members, exe)) },
    );
    also(
        steps,
        StepView::Remove { path: joined_path(config_dir, LEGACY_CACHE_FILE_NAME@) },
        input.legacy_cache_exists,
    )
}

/// The command that an install would wrap, given what was read of the settings
/// file at `path`. With it the caller finds the script to look at.
pub fn command_to_wrap(path: &str, settings: &FileRead) -> (wrapped: Option<String>)
    ensures
        text_of(wrapped) == (match settings_in(path@, *settings) {
            Ok(members) => wrapped_by(members),
            Err(_) => None,
        }),
{
    match read_settings(path, settings) {
        Ok(doc) => wrap_decision(&doc).0,
        Err(_) => None,
    }
}

/// What an install wraps, and whether the present command is ours.
fn wrap_decision(doc: &SettingsDoc) -> (decision: (Option<String>, bool))
    ensures
        text_of(decision.0) == wrapped_by(doc@),
        decision.1 == (ours_in(command_in(doc@)) is Some),
{
    let existing = match doc.command_of() {
        Some(existing) => existing,
        None => {
            return (None, false);
        },
    };
    match parse_our_command(existing.as_str()) {
        Some(ours) => (ours.original, true),
        None => {
            if is_blank(existing.as_str()) {
                (None, false)
            } else {
                (Some(existing), false)
            }
        },
    }
}

/// The script to clean and its cleaned text, where it is the script of the
/// wrapped command.
fn clean_legacy_script(wrapped: &Option<String>, input: &InstallInput) -> (cleaned: Option<
    (String, String),
>)
    ensures
        match cleaned_by(text_of(*wrapped), *input) {
            Some((path, text)) => cleaned matches Some((p, t)) && p@ == path && t@ == text,
            None => cleaned is None,
        },
{
    let command = match wrapped {
        Some(command) => command,
        None => {
            return None;
        },
    };
    let script = match &input.script {
        Some(script) => script,
        None => {
            return None;
        },
    };
    let home = match &input.home {
        Some(home) => Some(home.as_str()),
        None => None,
    };
    let named = match script_path_of(command.as_str(), home) {
        Some(named) => named,
        None => {
            return None;
        },
    };
    if !same_text(named.as_str(), script.path.as_str()) {
        return None;
    }
    match &script.body {
        Some(body) => match strip_legacy_blocks(body.as_str(), input.program.as_str()) {
            Some(text) => Some((script.path.clone(), text)),
            None => None,
        },
        None => None,
    }
}

/// Points the statusline command at `exe`, wrapping whatever was there before.
/// Over the file that an earlier install wrote this is a refresh, and wraps what
/// that one wrapped. On settings that have the hook already this refreshes the recorded path.
pub fn install_in(config_dir: &str, exe: &str, input: &InstallInput) -> (result: Result<
    Install,
    HookError,
>)
    ensures
        match settings_in(joined_path(config_dir@, SETTINGS_FILE_NAME@), input.settings) {
            Ok(members) => result matches Ok(install) && install.report@ == install_report(
                config_dir@,
                exe@,
                *input,
                members,
            ) && step_views(install.steps@) == install_steps(config_dir@, exe@, *input, members) && !blank(
                settings_text(installed(members, exe@)),
            ) && storable(members) && storable(installed(members, exe@)),
            Err(said) => result matches Err(error) && error@ == said,
        },
        forall|before: Map<Seq<char>, Tree>, earlier: Seq<char>|
            storable(before) && #[trigger] file_holds(
                input.settings,
                installed(before, earlier),
            ) ==> (result is Ok <==> readable(Tree::Object(installed(before, earlier)))) && (modest(
                Tree::Object(before),
            ) ==> result is Ok) && (result matches Ok(install) ==> install.report@.refreshed && install.report@.wrapped == wrapped_by(before)
                && install.report@.command == command_text(exe@, wrapped_by(before))),
{
    let settings_path = join(config_dir, SETTINGS_FILE_NAME);
    let read = read_settings(settings_path.as_str(), &input.settings);
    proof {
        assert forall|before: Map<Seq<char>, Tree>, earlier: Seq<char>|
            storable(before) && #[trigger] file_holds(
                input.settings,
                installed(before, earlier),
            ) implies (read is Ok <==> readable(Tree::Object(installed(before, earlier)))) && (modest(
            Tree::Object(before),
        ) ==> read is Ok) by {
            written_settings_are_storable(before, earlier);
        }
    }
    let mut doc = match read {
        Ok(doc) => doc,
        Err(error) => {
            return Err(error);
        },
    };
    let ghost members = doc@;
    proof {
        changes_keep_storable(members, command_text(exe@, wrapped_by(members)));
        assert forall|before: Map<Seq<char>, Tree>, earlier: Seq<char>|
            storable(before) && #[trigger] file_holds(
                input.settings,
                installed(before, earlier),
            ) implies ours_in(command_in(members)) is Some && wrapped_by(members) == wrapped_by(
            before,
        ) by {
            written_settings_are_storable(before, earlier);
            install_over_a_written_one(before, members, earlier, exe@);
        }
    }
    let (wrapped, refreshed) = wrap_decision(&doc);
    let mut steps: Vec<FileStep> = Vec::new();
    proof {
        assert(step_views(steps@) == Seq::<StepView>::empty());
    }
    let mut cleaned_script: Option<String> = None;
    if let Some((path, text)) = clean_legacy_script(&wrapped, input) {
        let backed_up = match &input.script {
            Some(script) => script.backup_exists,
            None => true,
        };
        if !backed_up {
            let backup = append_suffix(path.as_str(), SCRIPT_BACKUP_SUFFIX);
            push_step(&mut steps, FileStep::Copy { from: path.clone(), to: backup });
        }
        push_step(&mut steps, FileStep::Write { path: path.clone(), body: text });
        cleaned_script = Some(path);
    }
    let missing = match input.settings {
        FileRead::NotFound => true,
        _ => false,
    };
    let created_backup = !input.settings_backup_exists && !missing;
    if created_backup {
        let backup = join(config_dir, SETTINGS_BACKUP_FILE_NAME);
        push_step(&mut steps, FileStep::Copy { from: settings_path.clone(), to: backup });
    }
    let command = match &wrapped {
        Some(original) => build_command(exe, Some(original.as_str())),
        None => build_command(exe, None),
    };
    doc.set_command(command.as_str());
    if let Some(body) = doc.render() {
        push_step(&mut steps, FileStep::Write { path: settings_path.clone(), body });
    }
    if input.legacy_cache_exists {
        let cache = join(config_dir, LEGACY_CACHE_FILE_NAME);
        push_step(&mut steps, FileStep::Remove { path: cache });
    }
    let report = InstallReport {
        settings_path,
        command,
        wrapped,
        created_backup,
        cleaned_script,
        removed_legacy_cache: input.legacy_cache_exists,
        refreshed,
    };
    Ok(Install { report, steps })
}

// ---------------------------------------------------------------------------
// Uninstall
// ---------------------------------------------------------------------------

/// What is on disk before an uninstall.
#[derive(Clone, Debug, PartialEq, Eq)]
pub struct UninstallInput {
    pub settings: FileRead,
    /// Whether the settings were backed up before.
    pub settings_backup_exists: bool,
    /// Whether the cache is there.
    pub cache_exists: bool,
    /// Whether an earlier release's cache is there.
    pub legacy_cache_exists: bool,
}

/// What `hook uninstall` did.
#[derive(Clone, Debug, PartialEq, Eq)]
pub struct UninstallReport {
    pub settings_path: String,
    /// Whether the settings held our command at all.
    pub was_installed: bool,
    /// The command that is put back, if one was wrapped.
    pub restored: Option<String>,
    /// Whether the statusline entry is removed.
    pub removed_statusline: bool,
    /// Whether the cache file is deleted.
    pub removed_cache: bool,
}

/// The contents of an [`UninstallReport`].
pub ghost struct UninstallView {
    pub settings_path: Seq<char>,
    pub was_installed: bool,
    pub restored: Option<Seq<char>>,
    pub removed_statusline: bool,
    pub removed_cache: bool,
}

impl View for UninstallReport {
    type V = UninstallView;

    open spec fn view(&self) -> UninstallView {
        UninstallView {
            settings_path: self.settings_path@,
            was_installed: self.was_installed,
            restored: text_of(self.restored),
            removed_statusline: self.removed_statusline,
            removed_cache: self.removed_cache,
        }
    }
}

/// An uninstall: what it does on disk, and what it reports.
#[derive(Clone, Debug, PartialEq, Eq)]
pub struct Uninstall {
    pub report: UninstallReport,
    pub steps: Vec<FileStep>,
}

/// Settings after an uninstall: the wrapped command is put back, or the entry
/// removed where nothing was wrapped. Settings that hold another command stay
/// as they are.
pub open spec fn uninstalled(members: Map<Seq<char>, Tree>) -> Map<Seq<char>, Tree> {
    match ours_in(command_in(members)) {
        Some(ours) => match ours.original {
            Some(original) => with_command(members, original),
            None => without_statusline(members),
        },
        None => members,
    }
}

/// What an uninstall reports.
pub open spec fn uninstall_report(
    config_dir: Seq<char>,
    input: UninstallInput,
    members: Map<Seq<char>, Tree>,
) -> UninstallView {
    let ours = ours_in(command_in(members));
    UninstallView {
        settings_path: joined_path(config_dir, SETTINGS_FILE_NAME@),
        was_installed: ours is Some,
        restored: match ours {
            Some(o) => o.original,
            None => None,
        },
        removed_statusline: ours is Some && ours->0.original is None,
        removed_cache: input.cache_exists,
    }
}

/// What an uninstall does on disk.
pub open spec fn uninstall_steps(
    config_dir: Seq<char>,
    input: UninstallInput,
    members: Map<Seq<char>, Tree>,
) -> Seq<StepView> {
    let settings_path = joined_path(config_dir, SETTINGS_FILE_NAME@);
    let steps = Seq::<StepView>::empty();
    let steps = if ours_in(command_in(members)) is Some {
        also(
            steps,
            StepView::Copy {
                from: settings_path,
                to: joined_path(config_dir, SETTINGS_BACKUP_FILE_NAME@),
            },
            !input.settings_backup_exists && input.settings != FileRead::NotFound,
        ).push(StepView::Write { path: settings_path, body: settings_text(uninstalled(members)) })
    } else {
        steps
    };
    let steps = also(
        steps,
        StepView::Remove { path: joined_path(config_dir, CACHE_FILE_NAME@) },
        input.cache_exists,
    );
    also(
        steps,
        StepView::Remove { path: joined_path(config_dir, LEGACY_CACHE_FILE_NAME@) },
        input.legacy_cache_exists,
    )
}

/// Puts the wrapped command back, or removes the statusline entry, and deletes
/// the cache. Out of the file that an install wrote this brings the settings
/// back that were there before, but for doubles. Settings that were never ours are left untouched.
pub fn uninstall_in(config_dir: &str, input: &UninstallInput) -> (result: Result<
    Uninstall,
    HookError,
>)
    ensures
        match settings_in(joined_path(config_dir@, SETTINGS_FILE_NAME@), input.settings) {
            Ok(members) => result matches Ok(uninstall) && uninstall.report@ == uninstall_report(
                config_dir@,
                *input,
                members,
            ) && step_views(uninstall.steps@) == uninstall_steps(config_dir@, *input, members) && (
            ours_in(command_in(members)) is Some ==> !blank(settings_text(uninstalled(members))))
                && storable(members) && storable(uninstalled(members)),
            Err(said) => result matches Err(error) && error@ == said,
        },
        forall|before: Map<Seq<char>, Tree>, exe: Seq<char>|
            storable(before) && #[trigger] file_holds(input.settings, installed(before, exe)) ==> (
            result is Ok <==> readable(Tree::Object(installed(before, exe)))) && (modest(
                Tree::Object(before),
            ) || exact(Tree::Object(before)) ==> result is Ok) && (result matches Ok(uninstall) ==> {
                &&& uninstall.report@.was_installed
                &&& uninstall.report@.restored == wrapped_by(before)
                &&& uninstall.report@.removed_statusline <==> wrapped_by(before) is None
                &&& own_statusline(before) ==> wrapped_by(before) == command_in(before)
                    && (settings_in(
                    joined_path(config_dir@, SETTINGS_FILE_NAME@),
                    input.settings,
                ) matches Ok(found) && reads_as(before, uninstalled(found)) && (uninstalled(found)
                    == before <==> exact(Tree::Object(before))))
            }),
{
    let settings_path = join(config_dir, SETTINGS_FILE_NAME);
    let read = read_settings(settings_path.as_str(), &input.settings);
    proof {
        assert forall|before: Map<Seq<char>, Tree>, earlier: Seq<char>|
            storable(before) && #[trigger] file_holds(
                input.settings,
                installed(before, earlier),
            ) implies (read is Ok <==> readable(Tree::Object(installed(before, earlier)))) && (modest(
            Tree::Object(before),
        ) || exact(Tree::Object(before)) ==> read is Ok) by {
            written_settings_are_storable(before, earlier);
            if exact(Tree::Object(before)) {
                exact_settings_are_readable(before);
            }
        }
    }
    let mut doc = match read {
        Ok(doc) => doc,
        Err(error) => {
            return Err(error);
        },
    };
    let ghost members = doc@;
    proof {
        written_settings_are_storable(members, Seq::empty());
        assert forall|before: Map<Seq<char>, Tree>, exe: Seq<char>|
            storable(before) && #[trigger] file_holds(
                input.settings,
                installed(before, exe),
            ) implies {
            &&& ours_in(command_in(members)) == Some(
                OurCommandView { exe, original: wrapped_by(before) },
            )
            &&& own_statusline(before) ==> wrapped_by(before) == command_in(before) && reads_as(
                before,
                uninstalled(members),
            ) && (uninstalled(members) == before <==> exact(Tree::Object(before)))
        } by {
            written_settings_are_storable(before, exe);
            install_over_a_written_one(before, members, exe, exe);
            if own_statusline(before) {
                uninstall_out_of_a_written_install(before, members, exe);
            }
        }
    }
    let ours = match doc.command_of() {
        Some(command) => parse_our_command(command.as_str()),
        None => None,
    };
    let mut steps: Vec<FileStep> = Vec::new();
    proof {
        assert(step_views(steps@) == Seq::<StepView>::empty());
    }
    let was_installed = ours.is_some();
    let mut restored: Option<String> = None;
    let mut removed_statusline = false;
    if let Some(ours) = ours {
        let missing = match input.settings {
            FileRead::NotFound => true,
            _ => false,
        };
        if !input.settings_backup_exists && !missing {
            let backup = join(config_dir, SETTINGS_BACKUP_FILE_NAME);
            push_step(&mut steps, FileStep::Copy { from: settings_path.clone(), to: backup });
        }
        match ours.original {
            Some(original) => {
                doc.set_command(original.as_str());
                restored = Some(original);
            },
            None => {
                doc.remove_statusline();
                removed_statusline = true;
            },
        }
        if let Some(body) = doc.render() {
            push_step(&mut steps, FileStep::Write { path: settings_path.clone(), body });
        }
    }
    if input.cache_exists {
        let cache = cache_path_in(config_dir);
        push_step(&mut steps, FileStep::Remove { path: cache });
    }
    if input.legacy_cache_exists {
        let cache = join(config_dir, LEGACY_CACHE_FILE_NAME);
        push_step(&mut steps, FileStep::Remove { path: cache });
    }
    let report = UninstallReport {
        settings_path,
        was_installed,
        restored,
        removed_statusline,
        removed_cache: input.cache_exists,
    };
    Ok(Uninstall { report, steps })
}

// ---------------------------------------------------------------------------
// Laws
// ---------------------------------------------------------------------------

/// The command that settings were given is the command that they hold.
pub proof fn set_command_is_held(members: Map<Seq<char>, Tree>, command: Seq<char>)
    ensures
        command_in(with_command(members, command)) == Some(command),
{
}

/// Changing the command leaves every other entry alone, and inside the
/// statusline entry everything but its type and its command.
pub proof fn other_entries_are_kept(
    members: Map<Seq<char>, Tree>,
    command: Seq<char>,
    key: Seq<char>,
)
    ensures
        key != STATUS_LINE@ ==> entry(with_command(members, command), key) == entry(members, key),
        key != STATUS_LINE@ ==> entry(without_statusline(members), key) == entry(members, key),
        key != "type"@ && key != "command"@ ==> entry(
            line_members(with_command(members, command)),
            key,
        ) == entry(line_members(members), key),
{
}

/// Storable settings stay storable, and those that are certain to be read stay
/// so, so what an install or an uninstall writes is read back as it was meant.
pub proof fn written_settings_are_storable(members: Map<Seq<char>, Tree>, exe: Seq<char>)
    ensures
        storable(members) ==> storable(installed(members, exe)) && storable(uninstalled(members)),
        modest(Tree::Object(members)) ==> modest(Tree::Object(installed(members, exe))) && modest(
            Tree::Object(uninstalled(members)),
        ),
        readable(Tree::Object(members)) ==> readable(Tree::Object(installed(members, exe)))
            && readable(Tree::Object(uninstalled(members))),
        exact(Tree::Object(members)) ==> exact(Tree::Object(installed(members, exe))) && exact(
            Tree::Object(uninstalled(members)),
        ),
{
    changes_keep_storable(members, command_text(exe, wrapped_by(members)));
    if let Some(ours) = ours_in(command_in(members)) {
        if let Some(original) = ours.original {
            changes_keep_storable(members, original);
        }
    }
}

/// Installing over an install never wraps our own command: what is wrapped
/// stays what it was, and the same binary installed again changes nothing.
pub proof fn install_is_idempotent(members: Map<Seq<char>, Tree>, exe: Seq<char>, other: Seq<char>)
    ensures
        ({
            let once = installed(members, exe);
            &&& ours_in(command_in(once)) == Some(
                OurCommandView { exe, original: wrapped_by(members) },
            )
            &&& wrapped_by(once) == wrapped_by(members)
            &&& installed(once, exe) == once
            &&& installed(once, other) == installed(members, other)
        }),
{
    let wrapped = wrapped_by(members);
    let once = installed(members, exe);
    wrapped_is_wrappable(members);
    parse_undoes_build(exe, wrapped);
    set_command_is_held(members, command_text(exe, wrapped));
    let line = line_members(once);
    let base = line_members(members);
    let typed = base.insert("type"@, Tree::Text("command"@));
    assert(line == typed.insert("command"@, Tree::Text(command_text(exe, wrapped))));
    reveal_strlit("type");
    reveal_strlit("command");
    assert("type"@.len() == 4);
    assert("command"@.len() == 7);
    assert(line.insert("type"@, Tree::Text("command"@)).insert(
        "command"@,
        Tree::Text(command_text(exe, wrapped)),
    ) =~= line);
    assert(installed(once, exe) =~= once);
    assert(line.insert("type"@, Tree::Text("command"@)).insert(
        "command"@,
        Tree::Text(command_text(other, wrapped)),
    ) =~= typed.insert("command"@, Tree::Text(command_text(other, wrapped))));
    assert(installed(once, other) =~= installed(members, other));
}

/// What is wrapped is a command of more than white space.
proof fn wrapped_is_wrappable(members: Map<Seq<char>, Tree>)
    ensures
        wrappable(wrapped_by(members)) == wrapped_by(members),
{
}

/// Settings without a statusline, or whose statusline is a command of their own.
pub open spec fn own_statusline(members: Map<Seq<char>, Tree>) -> bool {
    !members.contains_key(STATUS_LINE@) || (members[STATUS_LINE@] is Object
        && members[STATUS_LINE@].member("type"@) == Some(Tree::Text("command"@)) && (command_in(
        members,
    ) matches Some(c) && !blank(c) && recorded_command(c) is None))
}

/// Removing what was installed gives the settings back as they were: those
/// without a statusline, and those whose statusline is a command of their own.
pub proof fn uninstall_undoes_install(members: Map<Seq<char>, Tree>, exe: Seq<char>)
    requires
        own_statusline(members),
    ensures
        uninstalled(installed(members, exe)) == members,
{
    let wrapped = wrapped_by(members);
    let once = installed(members, exe);
    install_is_idempotent(members, exe, exe);
    reveal_strlit("type");
    reveal_strlit("command");
    assert("type"@.len() == 4);
    assert("command"@.len() == 7);
    if !members.contains_key(STATUS_LINE@) {
        assert(wrapped is None);
        assert(without_statusline(once) =~= members);
    } else {
        let c = command_in(members)->0;
        assert(wrapped == Some(c));
        let base = line_members(members);
        let line = line_members(once);
        assert(members[STATUS_LINE@] == Tree::Object(base));
        assert(line.insert("type"@, Tree::Text("command"@)).insert("command"@, Tree::Text(c))
            =~= base);
        assert(with_command(once, c) =~= members);
    }
}

/// Installing again through the file: of what is read where an install was
/// written, the next install refreshes it, wraps what the first one wrapped and
/// never our own command, and leaves the same settings behind, with their
/// doubles as they were read.
pub proof fn install_over_a_written_one(
    members: Map<Seq<char>, Tree>,
    found: Map<Seq<char>, Tree>,
    exe: Seq<char>,
    other: Seq<char>,
)
    requires
        reads_as(installed(members, exe), found),
    ensures
        ours_in(command_in(found)) == Some(OurCommandView { exe, original: wrapped_by(members) }),
        wrapped_by(found) == wrapped_by(members),
        reads_as(installed(members, other), installed(found, other)),
{
    let once = installed(members, exe);
    install_is_idempotent(members, exe, other);
    same_command(once, found, reread());
    same_change(once, found, command_text(other, wrapped_by(members)), reread());
    assert(installed(once, other) == with_command(once, command_text(other, wrapped_by(members))));
}

/// Removing through the file: of what is read where an install was written, an
/// uninstall brings the settings back as they were before, with their doubles
/// as they were read. They are equal exactly where no double of theirs is read
/// as another.
pub proof fn uninstall_out_of_a_written_install(
    members: Map<Seq<char>, Tree>,
    found: Map<Seq<char>, Tree>,
    exe: Seq<char>,
)
    requires
        storable(members),
        own_statusline(members),
        reads_as(installed(members, exe), found),
    ensures
        wrapped_by(members) == command_in(members),
        reads_as(members, uninstalled(found)),
        uninstalled(found) == members <==> exact(Tree::Object(members)),
{
    let once = installed(members, exe);
    install_over_a_written_one(members, found, exe, exe);
    install_is_idempotent(members, exe, exe);
    uninstall_undoes_install(members, exe);
    let original = match wrapped_by(members) {
        Some(o) => o,
        None => Seq::empty(),
    };
    same_change(once, found, original, reread());
    exact_settings_are_kept(members, uninstalled(found));
}

/// Installing and removing through the file gives the settings back: what is
/// read at the end is what was there at the start, exactly where no double of
/// theirs comes back as another, and but for doubles always.
pub proof fn settings_file_is_restored(
    members: Map<Seq<char>, Tree>,
    found: Map<Seq<char>, Tree>,
    last: Map<Seq<char>, Tree>,
    exe: Seq<char>,
)
    requires
        storable(members),
        own_statusline(members),
        reads_as(installed(members, exe), found),
        reads_as(uninstalled(found), last),
    ensures
        last == members <==> returning(Tree::Object(members)),
        exact(Tree::Object(members)) ==> last == members,
        same_but_doubles(Tree::Object(members), Tree::Object(last)),
{
    uninstall_out_of_a_written_install(members, found, exe);
    settings_return(members, uninstalled(found), last);
}

/// Settings that hold another program's command are never changed by an
/// uninstall.
pub proof fn uninstall_leaves_others_alone(members: Map<Seq<char>, Tree>)
    requires
        ours_in(command_in(members)) is None,
    ensures
        uninstalled(members) == members,
{
}

/// Removing twice is removing once: what an uninstall leaves behind, with a
/// wrapped command that is not itself one of ours, is left alone.
pub proof fn uninstall_is_idempotent(members: Map<Seq<char>, Tree>)
    requires
        ours_in(command_in(members)) matches Some(o) ==> ours_in(o.original) is None,
    ensures
        uninstalled(uninstalled(members)) == uninstalled(members),
{
    if let Some(ours) = ours_in(command_in(members)) {
        if let Some(original) = ours.original {
            set_command_is_held(members, original);
        }
    }
}

} // verus!
