//! "Launch at login" by the freedesktop autostart convention.

use vstd::prelude::*;
use vstd::string::*;

use crate::assistant::Assistant;
use crate::files::{FileStep, StepView};
use crate::paths::{join, joined_path};

verus! {

/// File name of the autostart entry: the tray's name with `.desktop` behind.
pub open spec fn entry_file(assistant: Assistant) -> Seq<char> {
    assistant.program() + ".desktop"@
}

/// File name of the autostart entry.
pub fn entry_name(assistant: &Assistant) -> (name: String)
    ensures
        name@ == entry_file(*assistant),
{
    let mut name = assistant.program_name();
    name.append(".desktop");
    name
}

/// Where the autostart entries of a session are.
pub open spec fn session_entries(config_home: Option<&str>) -> Seq<char> {
    joined_path(
        match config_home {
            Some(d) => d@,
            None => "."@,
        },
        "autostart"@,
    )
}

/// Default autostart directory, inside the directory that holds the
/// configuration of all programs.
pub fn default_autostart_dir(config_home: Option<&str>) -> (dir: String)
    ensures
        dir@ == joined_path(
            match config_home {
                Some(d) => d@,
                None => "."@,
            },
            "autostart"@,
        ),
        dir@ == session_entries(config_home),
{
    match config_home {
        Some(dir) => join(dir, "autostart"),
        None => join(".", "autostart"),
    }
}

/// Path of the entry inside `dir`.
pub fn entry_path(dir: &str, assistant: &Assistant) -> (path: String)
    ensures
        path@ == joined_path(dir@, entry_file(*assistant)),
{
    let name = entry_name(assistant);
    join(dir, name.as_str())
}

/// The `.desktop` entry for an executable path.
pub open spec fn entry_text(exec: Seq<char>, assistant: Assistant) -> Seq<char> {
    "[Desktop Entry]\nType=Application\nName="@ + assistant.title@ + " Usage Tray\nComment="@
        + assistant.product() + " subscription usage in the system tray\nExec="@ + exec
        + "\nTerminal=false\nX-GNOME-Autostart-enabled=true\n"@
}

/// Builds the `.desktop` entry for an executable path.
pub fn desktop_entry(exec: &str, assistant: &Assistant) -> (text: String)
    ensures
        text@ == entry_text(exec@, *assistant),
{
    let mut text = "[Desktop Entry]\nType=Application\nName=".to_owned();
    text.append(assistant.title.as_str());
    text.append(" Usage Tray\nComment=");
    let product = assistant.product_name();
    text.append(product.as_str());
    text.append(" subscription usage in the system tray\nExec=");
    text.append(exec);
    text.append("\nTerminal=false\nX-GNOME-Autostart-enabled=true\n");
    text
}

/// What puts the entry for an executable path into `dir`: it is written in one
/// piece, so that a half-written one is never seen.
pub fn enable_in(dir: &str, exec: &str, assistant: &Assistant) -> (step: FileStep)
    ensures
        step@ == (StepView::Write {
            path: joined_path(dir@, entry_file(*assistant)),
            body: entry_text(exec@, *assistant),
        }),
{
    let path = entry_path(dir, assistant);
    let body = desktop_entry(exec, assistant);
    FileStep::Write { path, body }
}

/// What takes the entry out of `dir`. Where there is none, nothing is left to do.
pub fn disable_in(dir: &str, assistant: &Assistant) -> (step: FileStep)
    ensures
        step@ == (StepView::Remove { path: joined_path(dir@, entry_file(*assistant)) }),
{
    FileStep::Remove { path: entry_path(dir, assistant) }
}

/// What brings the wanted state about in `dir`, if anything can.
pub open spec fn wanted_step(
    enabled: bool,
    dir: Seq<char>,
    exec: Option<Seq<char>>,
    assistant: Assistant,
) -> Option<StepView> {
    let path = joined_path(dir, entry_file(assistant));
    if !enabled {
        Some(StepView::Remove { path })
    } else {
        match exec {
            Some(exec) => Some(StepView::Write { path, body: entry_text(exec, assistant) }),
            None => None,
        }
    }
}

/// What brings the wanted state about in `dir`; nothing can where the tray is to
/// be started and its own path is not known.
pub fn set_enabled(enabled: bool, dir: &str, exec: Option<&str>, assistant: &Assistant) -> (step:
    Option<FileStep>)
    ensures
        match step {
            Some(s) => if enabled {
                exec is Some && s@ == (StepView::Write {
                    path: joined_path(dir@, entry_file(*assistant)),
                    body: entry_text(exec->0@, *assistant),
                })
            } else {
                s@ == (StepView::Remove { path: joined_path(dir@, entry_file(*assistant)) })
            },
            None => enabled && exec is None,
        },
        wanted_step(
            enabled,
            dir@,
            match exec {
                Some(e) => Some(e@),
                None => None,
            },
            *assistant,
        ) == (match step {
            Some(s) => Some(s@),
            None => None,
        }),
{
    if !enabled {
        return Some(disable_in(dir, assistant));
    }
    match exec {
        Some(exec) => Some(enable_in(dir, exec, assistant)),
        None => None,
    }
}

} // verus!
