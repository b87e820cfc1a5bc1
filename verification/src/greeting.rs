//! The greeting of a first launch and of an update.

use vstd::prelude::*;
use vstd::string::*;

use crate::assistant::Assistant;
use crate::config::{config_dir, config_dir_of};
use crate::files::FileRead;
use crate::paths::{join, joined_path};
use crate::text::{same_text, trim, trimmed};

verus! {

/// What, if anything, this launch is the first of.
#[derive(Clone, Debug, PartialEq, Eq)]
pub enum Greeting {
    /// No version is on record.
    FirstLaunch,
    /// A different version ran before; the payload is the current version.
    Updated(String),
    /// The recorded version is current.
    Silent,
}

/// What a [`Greeting`] says.
pub ghost enum GreetingView {
    FirstLaunch,
    Updated(Seq<char>),
    Silent,
}

impl View for Greeting {
    type V = GreetingView;

    open spec fn view(&self) -> GreetingView {
        match *self {
            Greeting::FirstLaunch => GreetingView::FirstLaunch,
            Greeting::Updated(version) => GreetingView::Updated(version@),
            Greeting::Silent => GreetingView::Silent,
        }
    }
}

/// Where the record of the last-run version is.
pub open spec fn record_path_of(config_home: Option<&str>, assistant: Assistant) -> Seq<char> {
    joined_path(config_dir_of(config_home, assistant), "last-version"@)
}

/// Where the last-run version is recorded.
pub fn state_path(config_home: Option<&str>, assistant: &Assistant) -> (path: String)
    ensures
        path@ == joined_path(config_dir_of(config_home, *assistant), "last-version"@),
        path@ == record_path_of(config_home, *assistant),
{
    let dir = config_dir(config_home, assistant);
    join(dir.as_str(), "last-version")
}

/// The greeting that a launch deserves, given the recorded version.
pub open spec fn deserved(recorded: Option<Seq<char>>, current: Seq<char>) -> GreetingView {
    match recorded {
        None => GreetingView::FirstLaunch,
        Some(r) => if trimmed(r).len() == 0 {
            GreetingView::FirstLaunch
        } else if trimmed(r) == current {
            GreetingView::Silent
        } else {
            GreetingView::Updated(current)
        },
    }
}

/// The characters of an optional string slice.
pub open spec fn recorded_text(recorded: Option<&str>) -> Option<Seq<char>> {
    match recorded {
        Some(r) => Some(r@),
        None => None,
    }
}

/// Decides which greeting a launch deserves.
pub fn classify(recorded: Option<&str>, current: &str) -> (greeting: Greeting)
    ensures
        greeting@ == deserved(recorded_text(recorded), current@),
{
    let recorded = match recorded {
        Some(recorded) => trim(recorded),
        None => {
            return Greeting::FirstLaunch;
        },
    };
    if recorded.as_str().is_empty() {
        Greeting::FirstLaunch
    } else if same_text(recorded.as_str(), current) {
        Greeting::Silent
    } else {
        Greeting::Updated(current.to_owned())
    }
}

/// The recorded version: none for an absent, an unreadable and an empty file.
pub open spec fn recorded_in(file: FileRead) -> Option<Seq<char>> {
    match file {
        FileRead::Text(body) => if trimmed(body@).len() > 0 {
            Some(trimmed(body@))
        } else {
            None
        },
        _ => None,
    }
}

/// The recorded version, out of what was read of its file.
pub fn read_recorded(file: &FileRead) -> (recorded: Option<String>)
    ensures
        match recorded_in(*file) {
            Some(version) => recorded matches Some(r) && r@ == version,
            None => recorded is None,
        },
{
    match file {
        FileRead::Text(body) => {
            let inner = trim(body.as_str());
            if inner.as_str().is_empty() {
                None
            } else {
                Some(inner)
            }
        },
        _ => None,
    }
}

/// What is written to the record of a launch: the current version, where the
/// launch deserves a greeting, and nothing where it deserves none.
pub open spec fn record_of(file: FileRead, current: Seq<char>) -> Option<Seq<char>> {
    if deserved(recorded_in(file), current) == GreetingView::Silent {
        None
    } else {
        Some(current)
    }
}

/// What to write to the record before greeting, out of what was read of it.
pub fn record(file: &FileRead, current: &str) -> (body: Option<String>)
    ensures
        match record_of(*file, current@) {
            Some(version) => body matches Some(b) && b@ == version,
            None => body is None,
        },
{
    match check_and_record(file, current, true) {
        Greeting::Silent => None,
        _ => Some(current.to_owned()),
    }
}

/// The greeting of a launch: what it deserves, unless the current version
/// could not be recorded.
pub open spec fn greeted(file: FileRead, current: Seq<char>, recorded: bool) -> GreetingView {
    let greeting = deserved(recorded_in(file), current);
    if recorded {
        greeting
    } else {
        GreetingView::Silent
    }
}

/// Classifies this launch, given what was read of the record and whether the
/// current version was recorded since. A greeting may only come when it is
/// certain not to come again on the next launch.
pub fn check_and_record(file: &FileRead, current: &str, recorded: bool) -> (greeting: Greeting)
    ensures
        greeting@ == greeted(*file, current@, recorded),
{
    let before = read_recorded(file);
    let greeting = match before {
        Some(version) => classify(Some(version.as_str()), current),
        None => classify(None, current),
    };
    proof {
        if let FileRead::Text(body) = file {
            crate::text::trim_twice(body@);
        }
    }
    if recorded {
        greeting
    } else {
        Greeting::Silent
    }
}

/// A greeting comes once: with what is recorded for it on file, the next launch
/// of that version is silent and records nothing. This is said of versions
/// without white space around them.
pub proof fn greeting_comes_once(file: FileRead, current: Seq<char>, body: String, recorded: bool)
    requires
        current.len() > 0,
        trimmed(current) == current,
        record_of(file, current) == Some(body@),
    ensures
        greeted(FileRead::Text(body), current, recorded) == GreetingView::Silent,
        record_of(FileRead::Text(body), current) is None,
{
}

} // verus!
