//! The single-instance lock: where it lives, what a look at it means, and how
//! its holder is found.

use vstd::prelude::*;
use vstd::string::*;

use crate::assistant::Assistant;
use crate::files::FileRead;
use crate::paths::{join, joined_path};
use crate::text::{digits, nat_text, parse_unsigned, texts, trim, trimmed, unsigned};

verus! {

/// File name of the lock: the tray's name with `.lock` behind.
pub open spec fn lock_file(assistant: Assistant) -> Seq<char> {
    assistant.program() + ".lock"@
}

/// File name of the lock.
pub fn lock_name(assistant: &Assistant) -> (name: String)
    ensures
        name@ == lock_file(*assistant),
{
    let mut name = assistant.program_name();
    name.append(".lock");
    name
}

/// What a look at a lock path found, nothing being created.
#[derive(Clone, Copy, Debug, PartialEq, Eq, Structural)]
pub enum Probe {
    /// Somebody holds the lock.
    Held,
    /// Nothing holds it, or there is no such file.
    Free,
    /// There is a file, but no answer.
    Unknown,
}

/// The process that a lock file names: a plain number above one.
pub open spec fn named_pid(contents: Seq<char>) -> Option<i32> {
    match unsigned(trimmed(contents)) {
        Some(n) => if 1 < n <= i32::MAX {
            Some(n as i32)
        } else {
            None
        },
        None => None,
    }
}

/// The process that a lock file names, given what was read of it.
pub open spec fn holder_in(file: FileRead) -> Option<i32> {
    match file {
        FileRead::Text(contents) => named_pid(contents@),
        _ => None,
    }
}

/// Parses the contents of a lock file. Anything but a plain positive integer
/// is refused rather than guessed at, and so is the first process.
pub fn parse_pid(contents: &str) -> (pid: Option<i32>)
    ensures
        pid == named_pid(contents@),
{
    let inner = trim(contents);
    match parse_unsigned(inner.as_str()) {
        Some(n) => if n > 1 && n <= i32::MAX as u64 {
            Some(n as i32)
        } else {
            None
        },
        None => None,
    }
}

/// What a holder writes into its lock file: its number and a newline.
pub fn pid_line(pid: u32) -> (text: String)
    ensures
        text@ == digits(pid as nat) + "\n"@,
{
    let mut text = nat_text(pid as u64);
    text.append("\n");
    text
}

/// A holder is found by what it wrote.
pub proof fn written_pid_is_found(pid: u32)
    requires
        1 < pid <= i32::MAX,
    ensures
        named_pid(digits(pid as nat) + "\n"@) == Some(pid as i32),
{
    let d = digits(pid as nat);
    reveal_strlit("\n");
    let s = d + "\n"@;
    crate::text::number_of_digits(pid as nat);
    assert(d.len() > 0);
    assert(crate::text::is_digit(d[0]));
    assert(s[0] == d[0]);
    assert(!crate::text::is_space(s[0]));
    assert(crate::text::trim_start(s) == s);
    assert(s.last() == '\n');
    assert(s.drop_last() == d);
    assert(crate::text::is_digit(d[d.len() - 1]));
    assert(crate::text::trim_end(d) == d);
    assert(trimmed(s) == d);
    assert(d[0] != '+');
}

/// The directory that the lock lives in.
pub open spec fn lock_dir(
    macos: bool,
    runtime: Option<Seq<char>>,
    data_local: Option<Seq<char>>,
    cache: Option<Seq<char>>,
    temp: Seq<char>,
) -> Seq<char> {
    if macos {
        match data_local {
            Some(d) => d,
            None => temp,
        }
    } else {
        match (runtime, cache) {
            (Some(d), _) => d,
            (None, Some(d)) => d,
            (None, None) => temp,
        }
    }
}

/// The characters of an optional string.
pub open spec fn dir_text(dir: Option<String>) -> Option<Seq<char>> {
    match dir {
        Some(d) => Some(d@),
        None => None,
    }
}

/// Picks the directory the lock file lives in: on Linux the runtime directory,
/// then cache, then temp; on macOS the local data directory, then temp, and
/// never the cache, which macOS may purge.
pub fn choose_lock_dir(
    macos: bool,
    runtime: Option<String>,
    data_local: Option<String>,
    cache: Option<String>,
    temp: String,
) -> (dir: String)
    ensures
        dir@ == lock_dir(macos, dir_text(runtime), dir_text(data_local), dir_text(cache), temp@),
{
    if macos {
        match data_local {
            Some(dir) => dir,
            None => temp,
        }
    } else {
        match runtime {
            Some(dir) => dir,
            None => match cache {
                Some(dir) => dir,
                None => temp,
            },
        }
    }
}

/// Directories that earlier releases kept the lock in.
pub open spec fn legacy_dirs(macos: bool, cache: Option<Seq<char>>) -> Seq<Seq<char>> {
    match cache {
        Some(d) => if macos {
            seq![d]
        } else {
            seq![]
        },
        None => seq![],
    }
}

/// Directories that earlier releases kept the lock in: on macOS the cache.
pub fn choose_legacy_lock_dirs(macos: bool, cache: Option<String>) -> (dirs: Vec<String>)
    ensures
        texts(dirs@) == (match dir_text(cache) {
            Some(d) => if macos {
                seq![d]
            } else {
                seq![]
            },
            None => seq![],
        }),
        texts(dirs@) == legacy_dirs(macos, dir_text(cache)),
{
    let mut dirs: Vec<String> = Vec::new();
    proof {
        assert(texts(dirs@) == Seq::<Seq<char>>::empty());
    }
    if macos {
        if let Some(dir) = cache {
            let ghost d = dir@;
            dirs.push(dir);
            proof {
                assert(texts(dirs@) == seq![d]);
            }
        }
    }
    dirs
}

/// The lock file in a directory.
pub open spec fn lock_in(dir: Seq<char>, assistant: Assistant) -> Seq<char> {
    joined_path(dir, lock_file(assistant))
}

/// Where the lock file lives.
pub fn lock_path(
    macos: bool,
    runtime: Option<String>,
    data_local: Option<String>,
    cache: Option<String>,
    temp: String,
    assistant: &Assistant,
) -> (path: String)
    ensures
        path@ == joined_path(
            lock_dir(macos, dir_text(runtime), dir_text(data_local), dir_text(cache), temp@),
            lock_file(*assistant),
        ),
        path@ == lock_in(
            lock_dir(macos, dir_text(runtime), dir_text(data_local), dir_text(cache), temp@),
            *assistant,
        ),
{
    let dir = choose_lock_dir(macos, runtime, data_local, cache, temp);
    let name = lock_name(assistant);
    join(dir.as_str(), name.as_str())
}

/// Lock files that earlier releases may still be holding.
pub fn legacy_lock_paths(macos: bool, cache: Option<String>, assistant: &Assistant) -> (paths: Vec<
    String,
>)
    ensures
        texts(paths@) == (match dir_text(cache) {
            Some(d) => if macos {
                seq![joined_path(d, lock_file(*assistant))]
            } else {
                seq![]
            },
            None => seq![],
        }),
{
    let dirs = choose_legacy_lock_dirs(macos, cache);
    let mut paths: Vec<String> = Vec::new();
    proof {
        assert(texts(paths@) == Seq::<Seq<char>>::empty());
        assert(texts(dirs@).len() == dirs@.len());
    }
    if dirs.len() > 0 {
        proof {
            assert(texts(dirs@)[0] == dirs@[0]@);
        }
        let name = lock_name(assistant);
        let path = join(dirs[0].as_str(), name.as_str());
        let ghost p = path@;
        paths.push(path);
        proof {
            assert(texts(paths@) == seq![p]);
        }
    }
    paths
}

// ---------------------------------------------------------------------------
// Taking the lock
// ---------------------------------------------------------------------------

/// What came of opening a lock file.
#[derive(Clone, Copy, Debug, PartialEq, Eq, Structural)]
pub enum Opened {
    Yes,
    NotFound,
    Failed,
}

/// What came of asking for the lock on an open file.
#[derive(Clone, Copy, Debug, PartialEq, Eq, Structural)]
pub enum Locked {
    Yes,
    /// Another process holds it.
    WouldBlock,
    Failed,
}

/// What a look at a lock path means.
pub open spec fn probe_of(opened: Opened, locked: Locked) -> Probe {
    if opened == Opened::NotFound || (opened == Opened::Yes && locked == Locked::Yes) {
        Probe::Free
    } else if opened == Opened::Yes && locked == Locked::WouldBlock {
        Probe::Held
    } else {
        Probe::Unknown
    }
}

/// What a look at a lock path means: the lock is asked for only where the file
/// could be opened without creating it, and taking it proves that it was free.
pub fn probe_held(opened: Opened, locked: Locked) -> (probe: Probe)
    ensures
        probe == (match opened {
            Opened::NotFound => Probe::Free,
            Opened::Failed => Probe::Unknown,
            Opened::Yes => match locked {
                Locked::Yes => Probe::Free,
                Locked::WouldBlock => Probe::Held,
                Locked::Failed => Probe::Unknown,
            },
        }),
        probe == probe_of(opened, locked),
{
    match opened {
        Opened::NotFound => Probe::Free,
        Opened::Failed => Probe::Unknown,
        Opened::Yes => match locked {
            Locked::Yes => Probe::Free,
            Locked::WouldBlock => Probe::Held,
            Locked::Failed => Probe::Unknown,
        },
    }
}

/// What an attempt to take the lock came to.
pub open spec fn attempt_of(opened: bool, locked: Locked) -> Attempt {
    if opened && locked == Locked::Yes {
        Attempt::Taken
    } else if opened && locked == Locked::WouldBlock {
        Attempt::Busy
    } else {
        Attempt::Failed
    }
}

/// What an attempt to take the lock came to. `opened` is whether the file and
/// its directory could be created and opened. That somebody else holds the lock
/// is no failure but the answer.
pub fn try_acquire(opened: bool, locked: Locked) -> (attempt: Attempt)
    ensures
        attempt == (if !opened {
            Attempt::Failed
        } else {
            match locked {
                Locked::Yes => Attempt::Taken,
                Locked::WouldBlock => Attempt::Busy,
                Locked::Failed => Attempt::Failed,
            }
        }),
        attempt == attempt_of(opened, locked),
{
    if !opened {
        return Attempt::Failed;
    }
    match locked {
        Locked::Yes => Attempt::Taken,
        Locked::WouldBlock => Attempt::Busy,
        Locked::Failed => Attempt::Failed,
    }
}

/// Which file something is: its device and its number there.
#[derive(Clone, Copy, Debug, PartialEq, Eq, Structural)]
pub struct FileIdentity {
    pub dev: u64,
    pub ino: u64,
}

/// Whether a held lock's file is the one at its path.
pub open spec fn still_there(held: Option<FileIdentity>, on_disk: Option<FileIdentity>) -> bool {
    match (held, on_disk) {
        (Some(h), Some(d)) => h == d,
        _ => false,
    }
}

/// Whether the file of a held lock is still the one at its path. It is not where
/// either cannot be told: a lock on a file that nobody else sees protects
/// nothing.
pub fn lock_matches(held: Option<FileIdentity>, on_disk: Option<FileIdentity>) -> (matches: bool)
    ensures
        matches == (held is Some && held == on_disk),
        matches == still_there(held, on_disk),
{
    match (held, on_disk) {
        (Some(held), Some(on_disk)) => held.dev == on_disk.dev && held.ino == on_disk.ino,
        _ => false,
    }
}

/// Whether a process that was sent the signal to exit is on its way out.
pub open spec fn on_its_way_out(delivered: bool, already_gone: bool) -> bool {
    delivered || already_gone
}

/// Whether a process that was sent the signal to exit needs no more asking: it
/// was delivered, or the process is already gone.
pub fn terminate(delivered: bool, already_gone: bool) -> (stopping: bool)
    ensures
        stopping == (delivered || already_gone),
        stopping == on_its_way_out(delivered, already_gone),
{
    delivered || already_gone
}

/// The process that a lock file names, if there is a usable one.
pub fn read_pid(file: &FileRead) -> (pid: Option<i32>)
    ensures
        pid == (match *file {
            FileRead::Text(contents) => named_pid(contents@),
            _ => None,
        }),
        pid == holder_in(*file),
{
    match file {
        FileRead::Text(contents) => parse_pid(contents.as_str()),
        _ => None,
    }
}

/// What came of one attempt to take the lock.
#[derive(Clone, Copy, Debug, PartialEq, Eq, Structural)]
pub enum Attempt {
    /// This process holds the lock now.
    Taken,
    /// Another process holds it.
    Busy,
    /// The lock file could not be created or opened.
    Failed,
}

/// What to do after an attempt.
#[derive(Clone, Copy, Debug, PartialEq, Eq, Structural)]
pub enum Retry {
    /// Stop, with this outcome.
    Stop(Attempt),
    /// Wait a little and try again.
    Again,
}

/// Whether to go on trying for the lock.
pub open spec fn retry_after(attempt: Attempt, time_is_up: bool) -> Retry {
    if attempt != Attempt::Busy || time_is_up {
        Retry::Stop(attempt)
    } else {
        Retry::Again
    }
}

/// Whether to go on trying for the lock: until it is taken, until an error says
/// that waiting will not help, or until time is up. With no time at all there
/// is one attempt.
pub fn acquire_with_retry(attempt: Attempt, time_is_up: bool) -> (retry: Retry)
    ensures
        retry == (if attempt == Attempt::Busy && !time_is_up {
            Retry::Again
        } else {
            Retry::Stop(attempt)
        }),
        retry == retry_after(attempt, time_is_up),
{
    match attempt {
        Attempt::Busy => if time_is_up {
            Retry::Stop(attempt)
        } else {
            Retry::Again
        },
        _ => Retry::Stop(attempt),
    }
}

/// What to do about a held lock whose file may have been replaced.
#[derive(Clone, Copy, Debug, PartialEq, Eq, Structural)]
pub enum Revalidation {
    /// Keep the lock.
    Keep,
    /// Take the fresh lock in its place, and record the holder in it.
    Replace,
    /// Keep the lock, and say that another instance may now be running.
    KeepAndWarn,
}

/// Which lock to hold.
pub open spec fn lock_to_hold(matches: bool, fresh: Attempt) -> Revalidation {
    if matches {
        Revalidation::Keep
    } else if fresh == Attempt::Taken {
        Revalidation::Replace
    } else {
        Revalidation::KeepAndWarn
    }
}

/// Decides which lock to hold: the present one while its file is the one at its
/// path, else the fresh one if it could be taken. When somebody else took the
/// fresh file, this process does not fight for it.
pub fn revalidate(matches: bool, fresh: Attempt) -> (decision: Revalidation)
    ensures
        decision == (if matches {
            Revalidation::Keep
        } else if fresh == Attempt::Taken {
            Revalidation::Replace
        } else {
            Revalidation::KeepAndWarn
        }),
        decision == lock_to_hold(matches, fresh),
{
    if matches {
        Revalidation::Keep
    } else {
        match fresh {
            Attempt::Taken => Revalidation::Replace,
            _ => Revalidation::KeepAndWarn,
        }
    }
}

} // verus!
