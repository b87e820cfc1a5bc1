//! Laws of the hook: what an install and an uninstall leave on disk, what they
//! say of it, and what becomes of scripts with old blocks.

use vstd::prelude::*;
use vstd::string::*;

use crate::assistant::Assistant;
use crate::files::{FileRead, StepView};
use crate::hook::command::{parse_undoes_build, recorded_command, text_of, words, OurCommandView};
use crate::hook::legacy::{
    closes, line_len, line_len_bounds, lines, marked, opens, outside_blocks, stripped, BlockKind,
};
use crate::hook::lifecycle::{
    also, cleaned_by, install_report, install_steps, installed, script_of, uninstall_report,
    uninstall_steps, uninstalled, wrapped_by, InstallInput, InstallView, UninstallInput,
    UninstallView,
};
use crate::hook::report::{
    freshness_text, install_lines, install_toast_text, named_dir, status_found, status_lines,
    uninstall_lines, StatusView,
};
use crate::hook::settings::{command_in, entry, settings_in, settings_text, with_command};
use crate::json::Tree;
use crate::paths::joined_path;
use crate::source::{file_snapshot, SnapshotState};
use crate::text::{blank, decimal};
use crate::time::Timestamp;
use crate::ui::labels::age;

verus! {

// ---------------------------------------------------------------------------
// Files
// ---------------------------------------------------------------------------

/// What is on disk: the text of each file, by its path.
pub type Disk = Map<Seq<char>, Seq<char>>;

/// The disk after a step. There is nothing to copy of a file that is not there.
pub open spec fn after_step(disk: Disk, step: StepView) -> Disk {
    match step {
        StepView::Copy { from, to } => if disk.contains_key(from) {
            disk.insert(to, disk[from])
        } else {
            disk
        },
        StepView::Write { path, body } => disk.insert(path, body),
        StepView::Remove { path } => disk.remove(path),
    }
}

/// The disk after steps that are taken in order.
pub open spec fn after_steps(disk: Disk, steps: Seq<StepView>) -> Disk
    decreases steps.len(),
{
    if steps.len() == 0 {
        disk
    } else {
        after_step(after_steps(disk, steps.drop_last()), steps.last())
    }
}

/// How many of the steps write a path.
pub open spec fn writes_of(steps: Seq<StepView>, path: Seq<char>) -> nat
    decreases steps.len(),
{
    if steps.len() == 0 {
        0
    } else {
        let here: nat = match steps.last() {
            StepView::Write { path: p, .. } => if p == path {
                1
            } else {
                0
            },
            _ => 0,
        };
        writes_of(steps.drop_last(), path) + here
    }
}

/// One more step is taken after the others.
proof fn one_more_step(disk: Disk, steps: Seq<StepView>, step: StepView, path: Seq<char>)
    ensures
        after_steps(disk, steps.push(step)) == after_step(after_steps(disk, steps), step),
        writes_of(steps.push(step), path) == writes_of(steps, path) + (match step {
            StepView::Write { path: p, .. } => if p == path {
                1nat
            } else {
                0
            },
            _ => 0nat,
        }),
{
    assert(steps.push(step).drop_last() =~= steps);
}

/// A file in a directory is called by the directory, one separator and its
/// name.
pub proof fn file_stands_in_its_directory(dir: Seq<char>, name: Seq<char>)
    requires
        name.len() > 0,
        name[0] != '/',
    ensures
        ({
            let path = joined_path(dir, name);
            &&& path.take(dir.len() as int) == dir
            &&& path.skip(path.len() - name.len()) == name
            &&& dir.len() > 0 ==> path[path.len() - name.len() - 1] == '/'
            &&& path.len() - name.len() - dir.len() == (if dir.len() > 0 && dir.last() != '/' {
                1int
            } else {
                0
            })
        }),
        joined_path(dir, seq!['/'] + name) == seq!['/'] + name,
{
    let path = joined_path(dir, name);
    assert(path.take(dir.len() as int) =~= dir);
    assert(path.skip(path.len() - name.len()) =~= name);
}

/// The hook's files in a directory are four different ones.
proof fn files_are_different(dir: Seq<char>)
    ensures
        joined_path(dir, "settings.json"@) != joined_path(dir, "settings.json.bak-usage-tray"@),
        joined_path(dir, "settings.json"@) != joined_path(dir, "usage-tray-cache.json"@),
        joined_path(dir, "settings.json"@) != joined_path(dir, "usage-tray-statusline.json"@),
        joined_path(dir, "settings.json.bak-usage-tray"@) != joined_path(
            dir,
            "usage-tray-cache.json"@,
        ),
        joined_path(dir, "settings.json.bak-usage-tray"@) != joined_path(
            dir,
            "usage-tray-statusline.json"@,
        ),
        joined_path(dir, "usage-tray-cache.json"@) != joined_path(
            dir,
            "usage-tray-statusline.json"@,
        ),
{
    reveal_strlit("settings.json");
    reveal_strlit("settings.json.bak-usage-tray");
    reveal_strlit("usage-tray-cache.json");
    reveal_strlit("usage-tray-statusline.json");
    assert("settings.json"@.len() == 13);
    assert("settings.json.bak-usage-tray"@.len() == 28);
    assert("usage-tray-cache.json"@.len() == 21);
    assert("usage-tray-statusline.json"@.len() == 26);
    let head: int = if dir.len() == 0 || dir.last() == '/' {
        dir.len() as int
    } else {
        dir.len() as int + 1
    };
    assert(joined_path(dir, "settings.json"@).len() == head + 13);
    assert(joined_path(dir, "settings.json.bak-usage-tray"@).len() == head + 28);
    assert(joined_path(dir, "usage-tray-cache.json"@).len() == head + 21);
    assert(joined_path(dir, "usage-tray-statusline.json"@).len() == head + 26);
}

// ---------------------------------------------------------------------------
// Install
// ---------------------------------------------------------------------------

/// The disk at each stage of an install.
proof fn install_stages(
    dir: Seq<char>,
    exe: Seq<char>,
    input: InstallInput,
    members: Map<Seq<char>, Tree>,
    disk: Disk,
    path: Seq<char>,
)
    ensures
        ({
            let settings = joined_path(dir, "settings.json"@);
            let backup = joined_path(dir, "settings.json.bak-usage-tray"@);
            let legacy = joined_path(dir, "usage-tray-cache.json"@);
            let command = install_report(dir, exe, input, members).command;
            let body = settings_text(with_command(members, command));
            let first = match cleaned_by(wrapped_by(members), input) {
                Some((script, text)) => (if input.script->0.backup_exists {
                    disk
                } else {
                    after_step(
                        disk,
                        StepView::Copy { from: script, to: script + ".bak-usage-tray"@ },
                    )
                }).insert(script, text),
                None => disk,
            };
            let second = if !input.settings_backup_exists && input.settings != FileRead::NotFound {
                after_step(first, StepView::Copy { from: settings, to: backup })
            } else {
                first
            };
            let third = second.insert(settings, body);
            let steps = install_steps(dir, exe, input, members);
            &&& after_steps(disk, steps) == (if input.legacy_cache_exists {
                third.remove(legacy)
            } else {
                third
            })
            &&& writes_of(steps, path) == (if path == settings {
                1nat
            } else {
                0
            }) + (match cleaned_by(wrapped_by(members), input) {
                Some((script, _)) => if path == script {
                    1nat
                } else {
                    0
                },
                None => 0nat,
            })
        }),
{
    let settings = joined_path(dir, "settings.json"@);
    let backup = joined_path(dir, "settings.json.bak-usage-tray"@);
    let legacy = joined_path(dir, "usage-tray-cache.json"@);
    let s0 = Seq::<StepView>::empty();
    let s1 = match cleaned_by(wrapped_by(members), input) {
        Some((script, text)) => {
            let copy = StepView::Copy { from: script, to: script + ".bak-usage-tray"@ };
            let write = StepView::Write { path: script, body: text };
            let a = also(s0, copy, !input.script->0.backup_exists);
            one_more_step(disk, s0, copy, path);
            one_more_step(disk, a, write, path);
            a.push(write)
        },
        None => s0,
    };
    let keep = StepView::Copy { from: settings, to: backup };
    let wanted = !input.settings_backup_exists && input.settings != FileRead::NotFound;
    let s2 = also(s1, keep, wanted);
    one_more_step(disk, s1, keep, path);
    let write = StepView::Write {
        path: settings,
        body: settings_text(installed(members, exe)),
    };
    let s3 = s2.push(write);
    one_more_step(disk, s2, write, path);
    let remove = StepView::Remove { path: legacy };
    one_more_step(disk, s3, remove, path);
    let s4 = also(s3, remove, input.legacy_cache_exists);
    assert(install_steps(dir, exe, input, members) == s4);
}

/// Whatever was there before, and whether or not the hook was installed already:
/// once the steps of an install have been taken, the settings file holds the
/// settings with the reported command and nothing else changed, and that command
/// runs the given binary and wraps what is reported.
pub proof fn install_leaves_its_command(
    dir: Seq<char>,
    exe: Seq<char>,
    input: InstallInput,
    members: Map<Seq<char>, Tree>,
    disk: Disk,
)
    ensures
        ({
            let path = joined_path(dir, "settings.json"@);
            let left = after_steps(disk, install_steps(dir, exe, input, members));
            let report = install_report(dir, exe, input, members);
            let changed = with_command(members, report.command);
            &&& report.settings_path == path
            &&& left.contains_key(path)
            &&& left[path] == settings_text(changed)
            &&& command_in(changed) == Some(report.command)
            &&& forall|key: Seq<char>|
                key != "statusLine"@ ==> #[trigger] entry(changed, key) == entry(members, key)
            &&& recorded_command(report.command) == Some(
                OurCommandView { exe, original: report.wrapped },
            )
        }),
{
    install_stages(dir, exe, input, members, disk, Seq::empty());
    files_are_different(dir);
    parse_undoes_build(exe, wrapped_by(members));
    wrapped_is_more_than_blank(members);
}

/// An install writes the settings file exactly once, and nothing else but the
/// script that it cleans.
pub proof fn install_writes_the_settings_once(
    dir: Seq<char>,
    exe: Seq<char>,
    input: InstallInput,
    members: Map<Seq<char>, Tree>,
    path: Seq<char>,
)
    ensures
        ({
            let steps = install_steps(dir, exe, input, members);
            let script = install_report(dir, exe, input, members).cleaned_script;
            let settings = joined_path(dir, "settings.json"@);
            &&& script != Some(settings) ==> writes_of(steps, settings) == 1
            &&& path != settings && script != Some(path) ==> writes_of(steps, path) == 0
            &&& path != settings && script == Some(path) ==> writes_of(steps, path) == 1
        }),
{
    let settings = joined_path(dir, "settings.json"@);
    install_stages(dir, exe, input, members, Map::empty(), settings);
    install_stages(dir, exe, input, members, Map::empty(), path);
}

/// An install keeps the settings as they were in a backup exactly where there
/// was a file and no backup yet; an earlier backup is left as it is. The obsolete
/// cache is gone, and files that are none of the hook's are untouched. The
/// script that is cleaned, if any, is to be none of the hook's own files.
pub proof fn install_keeps_what_was_there(
    dir: Seq<char>,
    exe: Seq<char>,
    input: InstallInput,
    members: Map<Seq<char>, Tree>,
    disk: Disk,
    other: Seq<char>,
)
    requires
        ({
            let settings = joined_path(dir, "settings.json"@);
            let backup = joined_path(dir, "settings.json.bak-usage-tray"@);
            let legacy = joined_path(dir, "usage-tray-cache.json"@);
            &&& disk.contains_key(settings) <==> input.settings != FileRead::NotFound
            &&& disk.contains_key(backup) <==> input.settings_backup_exists
            &&& disk.contains_key(legacy) <==> input.legacy_cache_exists
            &&& input.script matches Some(script) ==> {
                let copy = script.path@ + ".bak-usage-tray"@;
                &&& script.path@ != settings && script.path@ != backup && script.path@ != legacy
                &&& copy != settings && copy != backup && copy != legacy
            }
        }),
    ensures
        ({
            let settings = joined_path(dir, "settings.json"@);
            let backup = joined_path(dir, "settings.json.bak-usage-tray"@);
            let legacy = joined_path(dir, "usage-tray-cache.json"@);
            let left = after_steps(disk, install_steps(dir, exe, input, members));
            let report = install_report(dir, exe, input, members);
            &&& report.created_backup <==> !disk.contains_key(backup) && left.contains_key(backup)
            &&& disk.contains_key(backup) ==> left.contains_key(backup) && left[backup]
                == disk[backup]
            &&& !disk.contains_key(backup) && disk.contains_key(settings) ==> left.contains_key(
                backup,
            ) && left[backup] == disk[settings]
            &&& !left.contains_key(legacy)
            &&& report.removed_legacy_cache == disk.contains_key(legacy)
            &&& other != settings && other != backup && other != legacy && (input.script matches Some(
                script,
            ) ==> other != script.path@ && other != script.path@ + ".bak-usage-tray"@) ==> {
                &&& left.contains_key(other) == disk.contains_key(other)
                &&& left[other] == disk[other]
            }
        }),
{
    install_stages(dir, exe, input, members, disk, Seq::empty());
    files_are_different(dir);
}

/// A script is cleaned exactly where the wrapped command runs it and it holds
/// blocks that can be stripped. It then holds what is left without them, and what
/// it held before stands beside it, unless it was backed up earlier.
pub proof fn install_cleans_the_script(
    dir: Seq<char>,
    exe: Seq<char>,
    input: InstallInput,
    members: Map<Seq<char>, Tree>,
    disk: Disk,
)
    requires
        input.script is Some,
        input.script->0.body is Some,
        disk.contains_key(input.script->0.path@),
        disk[input.script->0.path@] == input.script->0.body->0@,
        ({
            let settings = joined_path(dir, "settings.json"@);
            let backup = joined_path(dir, "settings.json.bak-usage-tray"@);
            let legacy = joined_path(dir, "usage-tray-cache.json"@);
            let script = input.script->0.path@;
            let copy = script + ".bak-usage-tray"@;
            &&& script != settings && script != backup && script != legacy
            &&& copy != settings && copy != backup && copy != legacy
        }),
    ensures
        ({
            let script = input.script->0.path@;
            let body = input.script->0.body->0@;
            let copy = script + ".bak-usage-tray"@;
            let left = after_steps(disk, install_steps(dir, exe, input, members));
            let report = install_report(dir, exe, input, members);
            let runs = report.wrapped matches Some(command) && script_of(
                command,
                text_of(input.home),
            ) == Some(script);
            &&& left.contains_key(script)
            &&& match stripped(body, input.program@) {
                Some(text) if runs => {
                    &&& report.cleaned_script == Some(script)
                    &&& left[script] == text
                    &&& !input.script->0.backup_exists ==> left.contains_key(copy) && left[copy]
                        == body
                    &&& input.script->0.backup_exists ==> left.contains_key(copy)
                        == disk.contains_key(copy) && left[copy] == disk[copy]
                },
                _ => {
                    &&& report.cleaned_script is None
                    &&& left[script] == body
                    &&& left.contains_key(copy) == disk.contains_key(copy)
                    &&& left[copy] == disk[copy]
                },
            }
        }),
{
    reveal_strlit(".bak-usage-tray");
    install_stages(dir, exe, input, members, disk, Seq::empty());
    files_are_different(dir);
    assert((input.script->0.path@ + ".bak-usage-tray"@).len() != input.script->0.path@.len());
}

/// An install wraps the command that was there, unless it was blank; of one of
/// our own it wraps what that one wrapped, and says that it refreshed it.
pub proof fn install_wraps_the_users_command(
    dir: Seq<char>,
    exe: Seq<char>,
    input: InstallInput,
    members: Map<Seq<char>, Tree>,
    command: Seq<char>,
    ours: OurCommandView,
)
    ensures
        ({
            let report = install_report(dir, exe, input, members);
            &&& command_in(members) is None ==> report.wrapped is None && !report.refreshed
            &&& command_in(members) == Some(command) && recorded_command(command) is None
                ==> !report.refreshed && report.wrapped == (if blank(command) {
                None
            } else {
                Some(command)
            })
            &&& command_in(members) == Some(command) && recorded_command(command) == Some(ours)
                ==> report.refreshed && report.wrapped == ours.original
        }),
{
}

/// What an install wraps is more than white space.
proof fn wrapped_is_more_than_blank(members: Map<Seq<char>, Tree>)
    ensures
        wrapped_by(members) matches Some(command) ==> !blank(command),
{
}

// ---------------------------------------------------------------------------
// Uninstall
// ---------------------------------------------------------------------------

/// The disk at each stage of an uninstall.
proof fn uninstall_stages(
    dir: Seq<char>,
    input: UninstallInput,
    members: Map<Seq<char>, Tree>,
    disk: Disk,
)
    ensures
        ({
            let settings = joined_path(dir, "settings.json"@);
            let backup = joined_path(dir, "settings.json.bak-usage-tray"@);
            let legacy = joined_path(dir, "usage-tray-cache.json"@);
            let cache = joined_path(dir, "usage-tray-statusline.json"@);
            let first = if uninstall_report(dir, input, members).was_installed {
                (if !input.settings_backup_exists && input.settings != FileRead::NotFound {
                    after_step(disk, StepView::Copy { from: settings, to: backup })
                } else {
                    disk
                }).insert(settings, settings_text(uninstalled(members)))
            } else {
                disk
            };
            let second = if input.cache_exists {
                first.remove(cache)
            } else {
                first
            };
            after_steps(disk, uninstall_steps(dir, input, members)) == (
            if input.legacy_cache_exists {
                second.remove(legacy)
            } else {
                second
            })
        }),
{
    let settings = joined_path(dir, "settings.json"@);
    let backup = joined_path(dir, "settings.json.bak-usage-tray"@);
    let legacy = joined_path(dir, "usage-tray-cache.json"@);
    let cache = joined_path(dir, "usage-tray-statusline.json"@);
    let s0 = Seq::<StepView>::empty();
    let s1 = if uninstall_report(dir, input, members).was_installed {
        let keep = StepView::Copy { from: settings, to: backup };
        let a = also(
            s0,
            keep,
            !input.settings_backup_exists && input.settings != FileRead::NotFound,
        );
        let write = StepView::Write { path: settings, body: settings_text(uninstalled(members)) };
        one_more_step(disk, s0, keep, Seq::empty());
        one_more_step(disk, a, write, Seq::empty());
        a.push(write)
    } else {
        s0
    };
    let drop_cache = StepView::Remove { path: cache };
    one_more_step(disk, s1, drop_cache, Seq::empty());
    let s2 = also(s1, drop_cache, input.cache_exists);
    let drop_legacy = StepView::Remove { path: legacy };
    one_more_step(disk, s2, drop_legacy, Seq::empty());
    let s3 = also(s2, drop_legacy, input.legacy_cache_exists);
    assert(uninstall_steps(dir, input, members) == s3);
}

/// Once the steps of an uninstall have been taken, the settings file holds the
/// wrapped command again, or no statusline where nothing was wrapped, and every
/// other entry as it was. A settings file that does not run the hook is left
/// alone. The report says which of these it was.
pub proof fn uninstall_leaves_the_users_command(
    dir: Seq<char>,
    input: UninstallInput,
    members: Map<Seq<char>, Tree>,
    disk: Disk,
    command: Seq<char>,
)
    requires
        command_in(members) == Some(command),
    ensures
        ({
            let path = joined_path(dir, "settings.json"@);
            let left = after_steps(disk, uninstall_steps(dir, input, members));
            let report = uninstall_report(dir, input, members);
            let changed = uninstalled(members);
            &&& report.settings_path == path
            &&& match recorded_command(command) {
                Some(ours) => {
                    &&& report.was_installed
                    &&& left.contains_key(path)
                    &&& left[path] == settings_text(changed)
                    &&& report.restored == ours.original
                    &&& report.removed_statusline == (ours.original is None)
                    &&& ours.original is Some ==> command_in(changed) == ours.original
                    &&& ours.original is None ==> entry(changed, "statusLine"@) is None
                    &&& forall|key: Seq<char>|
                        key != "statusLine"@ ==> #[trigger] entry(changed, key) == entry(members, key)
                },
                None => {
                    &&& !report.was_installed && report.restored is None
                        && !report.removed_statusline
                    &&& left.contains_key(path) == disk.contains_key(path)
                    &&& left[path] == disk[path]
                },
            }
        }),
{
    uninstall_stages(dir, input, members, disk);
    files_are_different(dir);
}

/// Settings without a command are not the hook's: an uninstall leaves them alone.
pub proof fn uninstall_without_a_command(
    dir: Seq<char>,
    input: UninstallInput,
    members: Map<Seq<char>, Tree>,
    disk: Disk,
)
    requires
        command_in(members) is None,
    ensures
        ({
            let path = joined_path(dir, "settings.json"@);
            let left = after_steps(disk, uninstall_steps(dir, input, members));
            let report = uninstall_report(dir, input, members);
            &&& !report.was_installed && report.restored is None && !report.removed_statusline
            &&& left.contains_key(path) == disk.contains_key(path)
            &&& left[path] == disk[path]
        }),
{
    uninstall_stages(dir, input, members, disk);
    files_are_different(dir);
}

/// An uninstall leaves neither cache behind, whether or not the hook was
/// installed. It backs the settings up where it changes them and no backup is
/// there, keeps an earlier backup, and touches no other file.
pub proof fn uninstall_keeps_what_was_there(
    dir: Seq<char>,
    input: UninstallInput,
    members: Map<Seq<char>, Tree>,
    disk: Disk,
    other: Seq<char>,
)
    requires
        ({
            let settings = joined_path(dir, "settings.json"@);
            let backup = joined_path(dir, "settings.json.bak-usage-tray"@);
            let legacy = joined_path(dir, "usage-tray-cache.json"@);
            let cache = joined_path(dir, "usage-tray-statusline.json"@);
            &&& disk.contains_key(settings) <==> input.settings != FileRead::NotFound
            &&& disk.contains_key(backup) <==> input.settings_backup_exists
            &&& disk.contains_key(legacy) <==> input.legacy_cache_exists
            &&& disk.contains_key(cache) <==> input.cache_exists
        }),
    ensures
        ({
            let settings = joined_path(dir, "settings.json"@);
            let backup = joined_path(dir, "settings.json.bak-usage-tray"@);
            let legacy = joined_path(dir, "usage-tray-cache.json"@);
            let cache = joined_path(dir, "usage-tray-statusline.json"@);
            let left = after_steps(disk, uninstall_steps(dir, input, members));
            let report = uninstall_report(dir, input, members);
            &&& !left.contains_key(cache) && !left.contains_key(legacy)
            &&& report.removed_cache == disk.contains_key(cache)
            &&& disk.contains_key(backup) ==> left.contains_key(backup) && left[backup]
                == disk[backup]
            &&& !disk.contains_key(backup) ==> (left.contains_key(backup) <==> report.was_installed
                && disk.contains_key(settings))
            &&& !disk.contains_key(backup) && left.contains_key(backup) ==> left[backup]
                == disk[settings]
            &&& other != settings && other != backup && other != legacy && other != cache ==> {
                &&& left.contains_key(other) == disk.contains_key(other)
                &&& left[other] == disk[other]
            }
        }),
{
    uninstall_stages(dir, input, members, disk);
    files_are_different(dir);
}

/// The settings of a missing or blank file are empty. A file that could not be
/// read is an error, as is one that holds anything but an object.
pub proof fn missing_settings_are_empty(path: Seq<char>, file: FileRead)
    ensures
        file is NotFound ==> settings_in(path, file) == Ok::<
            _,
            (crate::hook::settings::HookErrorKind, Seq<char>),
        >(Map::<Seq<char>, Tree>::empty()),
        file matches FileRead::Failed(reason) ==> (settings_in(path, file) matches Err(said)
            && said.0 == crate::hook::settings::HookErrorKind::Io && said.1 == reason@),
        file matches FileRead::Text(body) ==> (settings_in(path, file) matches Err(said) ==> {
            &&& said.0 == crate::hook::settings::HookErrorKind::InvalidData
            &&& crate::json::parsed_json(body@) is Ok ==> said.1 == path
                + " is not a JSON object; refusing to modify it"@
            &&& crate::json::parsed_json(body@) matches Err(message) ==> said.1 == path
                + " is not valid JSON ("@ + message + "); refusing to modify it"@
        }),
        file matches FileRead::Text(body) ==> (blank(body@) ==> settings_in(path, file) == Ok::<
            _,
            (crate::hook::settings::HookErrorKind, Seq<char>),
        >(Map::<Seq<char>, Tree>::empty())),
        file matches FileRead::Text(body) ==> (!blank(body@) ==> (settings_in(path, file) is Ok
            <==> (crate::json::parsed_json(body@) matches Ok(tree) && tree is Object))),
        file matches FileRead::Text(body) ==> (settings_in(path, file) matches Ok(members) ==> (
        !blank(body@) ==> crate::json::parsed_json(body@) == Ok::<Tree, Seq<char>>(
            Tree::Object(members),
        ))),
{
}

// ---------------------------------------------------------------------------
// Scripts with old blocks
// ---------------------------------------------------------------------------

/// Lines put together.
pub open spec fn put_together(ls: Seq<Seq<char>>) -> Seq<char>
    decreases ls.len(),
{
    if ls.len() == 0 {
        seq![]
    } else {
        ls[0] + put_together(ls.drop_first())
    }
}

/// A text is its lines put together. Each of them has something in it, and a line
/// end nowhere but at its end, where all but the last have one.
pub proof fn text_is_its_lines(s: Seq<char>)
    ensures
        put_together(lines(s)) == s,
        forall|i: int| 0 <= i < lines(s).len() ==> #[trigger] lines(s)[i].len() > 0,
        forall|i: int, j: int|
            0 <= i < lines(s).len() && 0 <= j < lines(s)[i].len() - 1 ==> #[trigger] lines(s)[i][j]
                != '\n',
        forall|i: int|
            0 <= i < lines(s).len() - 1 ==> (#[trigger] lines(s)[i]).last() == '\n',
    decreases s.len(),
{
    if s.len() > 0 {
        line_len_bounds(s);
        let n = line_len(s) as int;
        let rest = s.skip(n);
        text_is_its_lines(rest);
        let all = lines(s);
        assert(all == seq![s.take(n)] + lines(rest));
        assert(all.drop_first() =~= lines(rest));
        assert(s.take(n) + rest =~= s);
        assert forall|i: int| 0 < i < all.len() implies #[trigger] all[i] == lines(rest)[i - 1] by {}
        assert(all[0] == s.take(n));
        if all.len() > 1 {
            assert(rest.len() > 0);
            assert(s[n - 1] == '\n');
            assert(s.take(n).last() == '\n');
        }
    }
}

/// A block opens with a comment line that names the program, in one of two
/// forms, and closes with the line of the same form.
pub proof fn blocks_are_marked(line: Seq<char>, program: Seq<char>)
    ensures
        opens(line, program) is None <==> !marked(line, "# --- "@ + program + " hook"@) && !marked(
            line,
            "# >>> "@ + program + " hook"@,
        ),
        marked(line, "# --- "@ + program + " hook"@) ==> opens(line, program) == Some(
            BlockKind::Plain,
        ),
        marked(line, "# >>> "@ + program + " hook"@) ==> opens(line, program) == Some(
            BlockKind::Versioned,
        ),
        closes(BlockKind::Plain, line, program) <==> marked(
            line,
            "# --- end "@ + program + " hook"@,
        ),
        closes(BlockKind::Versioned, line, program) <==> marked(
            line,
            "# <<< "@ + program + " hook"@,
        ),
{
    reveal_strlit("# --- ");
    reveal_strlit("# >>> ");
    let a = "# --- "@ + program + " hook"@;
    let b = "# >>> "@ + program + " hook"@;
    assert(a[2] == '-' && b[2] == '>');
    let t = crate::text::trim_start(line);
    if marked(line, a) {
        assert(t.take(a.len() as int)[2] == '-');
        if marked(line, b) {
            assert(t.take(b.len() as int)[2] == '>');
        }
    }
}

/// Lines outside of blocks are kept, in their order.
proof fn lines_before_a_block_are_kept(
    before: Seq<Seq<char>>,
    rest: Seq<Seq<char>>,
    program: Seq<char>,
)
    requires
        forall|i: int| 0 <= i < before.len() ==> opens(#[trigger] before[i], program) is None,
    ensures
        outside_blocks(before + rest, None, program) == (match outside_blocks(
            rest,
            None,
            program,
        ) {
            Some(text) => Some(put_together(before) + text),
            None => None,
        }),
    decreases before.len(),
{
    let all = before + rest;
    if before.len() == 0 {
        assert(all =~= rest);
        if let Some(text) = outside_blocks(rest, None, program) {
            assert(put_together(before) + text =~= text);
        }
    } else {
        lines_before_a_block_are_kept(before.drop_first(), rest, program);
        assert(all.drop_first() =~= before.drop_first() + rest);
        assert(all[0] == before[0]);
        if let Some(text) = outside_blocks(rest, None, program) {
            assert(before[0] + (put_together(before.drop_first()) + text) =~= put_together(before)
                + text);
        }
    }
}

/// Inside a block nothing is kept, up to the line that closes it.
proof fn lines_of_a_block_are_dropped(
    kind: BlockKind,
    inner: Seq<Seq<char>>,
    rest: Seq<Seq<char>>,
    program: Seq<char>,
)
    requires
        forall|i: int| 0 <= i < inner.len() ==> !closes(kind, #[trigger] inner[i], program),
    ensures
        outside_blocks(inner + rest, Some(kind), program) == outside_blocks(
            rest,
            Some(kind),
            program,
        ),
    decreases inner.len(),
{
    let all = inner + rest;
    if inner.len() == 0 {
        assert(all =~= rest);
    } else {
        lines_of_a_block_are_dropped(kind, inner.drop_first(), rest, program);
        assert(all.drop_first() =~= inner.drop_first() + rest);
        assert(all[0] == inner[0]);
    }
}

/// A block is cut out from the line that opens it to the one that closes it, and
/// nothing else: what stands before it stays, and what stands after it is read on
/// as before.
pub proof fn block_is_cut_out(
    before: Seq<Seq<char>>,
    open: Seq<char>,
    inner: Seq<Seq<char>>,
    close: Seq<char>,
    rest: Seq<Seq<char>>,
    program: Seq<char>,
)
    requires
        forall|i: int| 0 <= i < before.len() ==> opens(#[trigger] before[i], program) is None,
        opens(open, program) is Some,
        forall|i: int|
            0 <= i < inner.len() ==> !closes(
                opens(open, program)->0,
                #[trigger] inner[i],
                program,
            ),
        closes(opens(open, program)->0, close, program),
    ensures
        outside_blocks(
            before + (seq![open] + (inner + (seq![close] + rest))),
            None,
            program,
        ) == (match outside_blocks(rest, None, program) {
            Some(text) => Some(put_together(before) + text),
            None => None,
        }),
{
    let kind = opens(open, program)->0;
    let tail = seq![close] + rest;
    let block = seq![open] + (inner + tail);
    lines_before_a_block_are_kept(before, block, program);
    assert(block.drop_first() =~= inner + tail);
    assert(block[0] == open);
    lines_of_a_block_are_dropped(kind, inner, tail, program);
    assert(tail.drop_first() =~= rest);
    assert(tail[0] == close);
}

/// A block that is never closed stops the cleaning: the script is left alone.
pub proof fn open_block_is_left_alone(
    before: Seq<Seq<char>>,
    open: Seq<char>,
    inner: Seq<Seq<char>>,
    program: Seq<char>,
)
    requires
        forall|i: int| 0 <= i < before.len() ==> opens(#[trigger] before[i], program) is None,
        opens(open, program) is Some,
        forall|i: int|
            0 <= i < inner.len() ==> !closes(
                opens(open, program)->0,
                #[trigger] inner[i],
                program,
            ),
    ensures
        outside_blocks(before + (seq![open] + inner), None, program) is None,
{
    let kind = opens(open, program)->0;
    let block = seq![open] + inner;
    lines_before_a_block_are_kept(before, block, program);
    assert(block.drop_first() =~= inner);
    assert(block[0] == open);
    lines_of_a_block_are_dropped(kind, inner, Seq::empty(), program);
    assert(inner + Seq::<Seq<char>>::empty() =~= inner);
}

/// A script without a block is left alone, and of one with blocks the lines
/// outside of them are kept.
pub proof fn script_without_a_block_is_left_alone(body: Seq<char>, program: Seq<char>)
    ensures
        (forall|i: int|
            0 <= i < lines(body).len() ==> opens(#[trigger] lines(body)[i], program) is None)
            ==> stripped(body, program) is None && outside_blocks(lines(body), None, program)
            == Some(body),
        (exists|i: int|
            0 <= i < lines(body).len() && opens(#[trigger] lines(body)[i], program) is Some)
            ==> stripped(body, program) == outside_blocks(lines(body), None, program),
{
    let ls = lines(body);
    if forall|i: int| 0 <= i < ls.len() ==> opens(#[trigger] ls[i], program) is None {
        lines_before_a_block_are_kept(ls, Seq::empty(), program);
        text_is_its_lines(body);
        assert(ls + Seq::<Seq<char>>::empty() =~= ls);
        assert(body + Seq::<char>::empty() =~= body);
    }
}

/// A command names its script by its first word; a leading `~/` stands for the
/// home directory, and is good for nothing where that is not known.
pub proof fn script_is_the_first_word(
    command: Seq<char>,
    first: Seq<char>,
    more: Seq<Seq<char>>,
    home: Seq<char>,
)
    requires
        words(command) == Some(seq![first] + more),
    ensures
        first.len() < 2 || first[0] != '~' || first[1] != '/' ==> script_of(command, Some(home))
            == Some(first) && script_of(command, None) == Some(first),
        first.len() >= 2 && first[0] == '~' && first[1] == '/' ==> script_of(command, Some(home))
            == Some(joined_path(home, first.skip(2))) && script_of(command, None) is None,
{
    reveal_strlit("~/");
    assert((seq![first] + more)[0] == first);
    if first.len() >= 2 && first[0] == '~' && first[1] == '/' {
        assert(first.take(2) =~= "~/"@);
    } else if first.len() >= 2 {
        assert(first.take(2)[0] == first[0] && first.take(2)[1] == first[1]);
    }
}

// ---------------------------------------------------------------------------
// What is reported
// ---------------------------------------------------------------------------

/// The report of an install tells all that it did and nothing that it did not:
/// one line each for a backup, a cleaned script and a deleted cache.
pub proof fn install_is_reported(report: InstallView, assistant: Assistant)
    ensures
        ({
            let ls = install_lines(report, assistant);
            let backed_up = if report.created_backup {
                1int
            } else {
                0
            };
            let cleaned = if report.cleaned_script is Some {
                1int
            } else {
                0
            };
            let deleted = if report.removed_legacy_cache {
                1int
            } else {
                0
            };
            &&& ls.len() == 4 + backed_up + cleaned + deleted
            &&& report.refreshed ==> ls[0] == "Refreshed"@ + " statusline hook in "@
                + report.settings_path
            &&& !report.refreshed ==> ls[0] == "Installed"@ + " statusline hook in "@
                + report.settings_path
            &&& ls[1] == "  statusLine.command = "@ + report.command
            &&& report.wrapped matches Some(original) ==> ls[2] == "  wrapping your command: "@
                + original
            &&& report.wrapped is None ==> ls[2]
                == "  no previous statusline was set, so nothing is printed to the statusline"@
            &&& report.created_backup ==> ls[3] == "  backup: "@ + "settings.json.bak-usage-tray"@
            &&& report.cleaned_script matches Some(script) ==> ls[3 + backed_up]
                == "  removed old shell hook blocks from "@ + script + " (backup: "@ + script
                + ".bak-usage-tray"@ + ")"@
            &&& report.removed_legacy_cache ==> ls[3 + backed_up + cleaned]
                == "  deleted the obsolete "@ + "usage-tray-cache.json"@ + " cache"@
            &&& ls.last() == "  data appears the next time "@ + assistant.product()
                + " refreshes the statusline"@
        }),
{
}

/// The report of an uninstall tells what became of the statusline, and of the
/// cache only where there was one.
pub proof fn uninstall_is_reported(report: UninstallView, assistant: Assistant)
    ensures
        ({
            let ls = uninstall_lines(report, assistant);
            &&& ls.len() == 1 + (if report.was_installed && (report.restored is Some
                || report.removed_statusline) {
                1int
            } else {
                0
            }) + (if report.removed_cache {
                1int
            } else {
                0
            })
            &&& report.was_installed ==> ls[0] == "Removed the statusline hook from "@
                + report.settings_path
            &&& !report.was_installed ==> ls[0] == "No "@ + assistant.program()
                + " statusline hook found in "@ + report.settings_path
            &&& report.was_installed ==> (report.restored matches Some(original) ==> ls[1]
                == "  restored your command: "@ + original)
            &&& report.was_installed && report.restored is None && report.removed_statusline
                ==> ls[1] == "  removed the statusLine key (there was nothing to restore)"@
            &&& report.removed_cache ==> ls.last() == "  deleted the cache file"@
        }),
{
}

/// The status of a directory is that of its own settings and its own cache; a
/// hook is installed exactly where the command is one that was recorded, and
/// then the binary and the wrapped command are those in it.
pub proof fn status_is_that_of_the_directory(
    dir: Seq<char>,
    settings: FileRead,
    cache: FileRead,
    mtime: Option<Timestamp>,
    now: Timestamp,
    members: Map<Seq<char>, Tree>,
)
    requires
        settings_in(joined_path(dir, "settings.json"@), settings) == Ok::<
            _,
            (crate::hook::settings::HookErrorKind, Seq<char>),
        >(members),
    ensures
        ({
            let status = status_found(dir, settings, cache, mtime, now);
            &&& status.settings_path == joined_path(dir, "settings.json"@)
            &&& status.cache_path == joined_path(dir, "usage-tray-statusline.json"@)
            &&& status.command == command_in(members)
            &&& status.installed <==> (status.command matches Some(c) && recorded_command(
                c,
            ) is Some)
            &&& status.installed ==> status.recorded_exe == Some(
                recorded_command(status.command->0)->0.exe,
            ) && status.wrapped == recorded_command(status.command->0)->0.original
            &&& !status.installed ==> status.recorded_exe is None && status.wrapped is None
                && status.recorded_config_dir is None
            &&& status.cache_state == file_snapshot(cache, mtime, now).state
            &&& status.cache_written_at == file_snapshot(cache, mtime, now).written_at
        }),
{
    let status = status_found(dir, settings, cache, mtime, now);
    if let Some(c) = status.command {
        directory_is_named_by_our_commands(c);
    }
}

/// Settings that cannot be read have no hook.
pub proof fn unreadable_settings_have_no_hook(
    dir: Seq<char>,
    settings: FileRead,
    cache: FileRead,
    mtime: Option<Timestamp>,
    now: Timestamp,
)
    requires
        settings_in(joined_path(dir, "settings.json"@), settings) is Err,
    ensures
        ({
            let status = status_found(dir, settings, cache, mtime, now);
            &&& status.command is None && !status.installed
            &&& status.recorded_exe is None && status.wrapped is None
            &&& status.recorded_config_dir is None
        }),
{
}

/// A command names a config directory exactly where it is one of ours whose
/// third word is the option and which has a fourth word; that is the directory.
pub proof fn directory_is_named_by_our_commands(command: Seq<char>)
    ensures
        named_dir(command) is Some ==> recorded_command(command) is Some,
        named_dir(command) is Some <==> (words(command) matches Some(w) && w.len() >= 4 && w[1]
            == "statusline"@ && w[2] == "--config-dir"@),
        named_dir(command) matches Some(dir) ==> words(command) is Some && dir == words(
            command,
        )->0[3],
{
}

/// The age of the cache is told in seconds, with whether it is fresh or stale.
pub proof fn cache_age_is_told(state: SnapshotState, at: Timestamp, now: Timestamp)
    ensures
        freshness_text(SnapshotState::Missing, Some(at), now) == "no cache file yet"@,
        freshness_text(SnapshotState::Missing, None, now) == "no cache file yet"@,
        freshness_text(SnapshotState::Stale, Some(at), now) == "stale"@ + ", last written "@
            + decimal(age(at, now)) + " s ago"@,
        freshness_text(SnapshotState::Fresh, Some(at), now) == "fresh"@ + ", last written "@
            + decimal(age(at, now)) + " s ago"@,
        state != SnapshotState::Missing ==> freshness_text(state, None, now)
            == "present, age unknown"@,
{
}

/// The status says that the hook is installed exactly where it is, and warns
/// exactly where another binary is recorded than the one that runs.
pub proof fn status_is_reported(report: StatusView, running: Option<Seq<char>>, now: Timestamp)
    ensures
        ({
            let ls = status_lines(report, running, now);
            let n = ls.len() as int;
            let differs = report.recorded_exe matches Some(recorded) && running matches Some(runs)
                && recorded != runs;
            &&& ls[0] == "settings: "@ + report.settings_path
            &&& report.command is None ==> n == 4 && ls[1]
                == "hook: NOT installed (no statusLine.command configured)"@
            &&& report.command matches Some(command) ==> {
                &&& ls[2] == "  statusLine.command = "@ + command
                &&& report.installed ==> ls[1] == "hook: installed"@ && n == (if differs {
                    7int
                } else {
                    6
                })
                &&& !report.installed ==> ls[1] == "hook: NOT installed"@ && n == 5
                &&& report.installed && report.wrapped is None ==> ls[3]
                    == "  wrapping: nothing (statusline prints nothing)"@
                &&& report.installed ==> (report.wrapped matches Some(original) ==> ls[3]
                    == "  wrapping: "@ + original)
                &&& report.installed && differs ==> ls[4] == "  recorded binary "@
                    + report.recorded_exe->0 + " differs from the running "@ + running->0
                    + " — re-run `hook install` to point it here"@
            }
            &&& ls[n - 2] == "cache: "@ + report.cache_path
            &&& ls[n - 1] == "  "@ + freshness_text(
                report.cache_state,
                report.cache_written_at,
                now,
            )
        }),
{
}

/// After an install from the menu the user learns whether it was the first, a
/// refresh, or a failure with its reason.
pub proof fn install_toast_tells_the_outcome(
    report: crate::hook::lifecycle::InstallReport,
    error: crate::hook::settings::HookError,
    assistant: Assistant,
)
    ensures
        report.refreshed ==> install_toast_text(Ok(report), assistant)
            == "Hook already installed — entry refreshed"@,
        !report.refreshed ==> install_toast_text(Ok(report), assistant)
            == "Hook installed — data appears next time "@ + assistant.product() + " refreshes"@,
        install_toast_text(Err(error), assistant) == "Hook install failed: "@ + error@.1,
{
}

} // verus!
