//! The command line: what it asks for, and what is said about it.

use vstd::prelude::*;
use vstd::string::*;

use crate::assistant::Assistant;
use crate::text::{same_text, texts};

verus! {

/// What the program is asked with, in short.
pub open spec fn usage_text(assistant: Assistant) -> Seq<char> {
    let program = assistant.program();
    let product = assistant.product();
    program + " — "@ + product + " usage in the system tray\n\n  "@ + program
        + "                      run the tray in the background\n  "@ + program
        + " --foreground         run the tray in this terminal\n  "@ + program
        + " restart              stop the running tray and start again\n  "@ + program
        + " statusline [--exec CMD]\n                                         "@ + product
        + " statusline command: caches\n                                         the stdin JSON, optionally running CMD\n                                         and passing its output through\n  "@
        + program + " hook install         point statusLine.command at this binary\n  "@ + program
        + " hook uninstall       undo that\n  "@ + program
        + " hook status          report what is currently wired up\n"@
}

/// What the program is asked with, in short.
pub fn usage(assistant: &Assistant) -> (text: String)
    ensures
        text@ == usage_text(*assistant),
{
    let program = assistant.program_name();
    let product = assistant.product_name();
    let mut text = program.clone();
    text.append(" — ");
    text.append(product.as_str());
    text.append(" usage in the system tray\n\n  ");
    text.append(program.as_str());
    text.append("                      run the tray in the background\n  ");
    text.append(program.as_str());
    text.append(" --foreground         run the tray in this terminal\n  ");
    text.append(program.as_str());
    text.append(" restart              stop the running tray and start again\n  ");
    text.append(program.as_str());
    text.append(" statusline [--exec CMD]\n                                         ");
    text.append(product.as_str());
    text.append(
        " statusline command: caches\n                                         the stdin JSON, optionally running CMD\n                                         and passing its output through\n  ",
    );
    text.append(program.as_str());
    text.append(" hook install         point statusLine.command at this binary\n  ");
    text.append(program.as_str());
    text.append(" hook uninstall       undo that\n  ");
    text.append(program.as_str());
    text.append(" hook status          report what is currently wired up\n");
    text
}

/// The subcommand that replaces a running instance.
pub const RESTART_COMMAND: &'static str = "restart";

/// The flag that keeps the tray attached to the terminal.
pub const FOREGROUND_FLAG: &'static str = "--foreground";

/// The private flag of a tray that was started in the background.
pub const RUN_FOREGROUND_FLAG: &'static str = "__run-foreground";

/// Said before the terminal is given back.
pub fn backgrounded(assistant: &Assistant) -> (text: String)
    ensures
        text@ == assistant.program()
            + ": running in the background (use --foreground to keep it attached)"@,
{
    let mut text = assistant.program_name();
    text.append(": running in the background (use --foreground to keep it attached)");
    text
}

/// Said when another instance is running.
pub fn already_running(assistant: &Assistant) -> (text: String)
    ensures
        text@ == assistant.program() + " is already running (run '"@ + assistant.program()
            + " restart' to replace it)"@,
{
    let program = assistant.program_name();
    let mut text = program.clone();
    text.append(" is already running (run '");
    text.append(program.as_str());
    text.append(" restart' to replace it)");
    text
}

/// What the command line asks for.
#[derive(Clone, Copy, Debug, PartialEq, Eq, Structural)]
pub enum Mode {
    /// Run in the background and give the terminal back.
    Detach,
    /// Run the tray in this process. A tray that was just started by another
    /// waits for that one to let go of the lock.
    Foreground { spawned: bool },
    /// Replace whichever instance is running.
    Restart,
    Statusline,
    Hook,
    Usage,
}

/// What arguments ask for.
pub open spec fn mode_of(args: Seq<Seq<char>>) -> Mode {
    if args.len() == 0 {
        Mode::Detach
    } else if args[0] == FOREGROUND_FLAG@ && args.len() == 1 {
        Mode::Foreground { spawned: false }
    } else if args[0] == RUN_FOREGROUND_FLAG@ && args.len() == 1 {
        Mode::Foreground { spawned: true }
    } else if args[0] == RESTART_COMMAND@ && args.len() == 1 {
        Mode::Restart
    } else if args[0] == "statusline"@ {
        Mode::Statusline
    } else if args[0] == "hook"@ {
        Mode::Hook
    } else {
        Mode::Usage
    }
}

/// Interprets the arguments behind the program's name.
pub fn parse_mode(args: &[String]) -> (mode: Mode)
    ensures
        mode == mode_of(texts(args@)),
{
    if args.len() == 0 {
        return Mode::Detach;
    }
    proof {
        assert(texts(args@)[0] == args@[0]@);
    }
    let first = args[0].as_str();
    let alone = args.len() == 1;
    if alone && same_text(first, FOREGROUND_FLAG) {
        Mode::Foreground { spawned: false }
    } else if alone && same_text(first, RUN_FOREGROUND_FLAG) {
        Mode::Foreground { spawned: true }
    } else if alone && same_text(first, RESTART_COMMAND) {
        Mode::Restart
    } else if same_text(first, "statusline") {
        Mode::Statusline
    } else if same_text(first, "hook") {
        Mode::Hook
    } else {
        Mode::Usage
    }
}

/// What the arguments behind `statusline` ask for.
#[derive(Clone, Debug, PartialEq, Eq)]
pub enum StatuslineMode {
    /// Keep the document and print nothing.
    Quiet,
    /// Keep the document, and run this command on it.
    Exec(String),
    Usage,
}

/// What the arguments behind `statusline` ask for: nothing, or a command to
/// run.
pub open spec fn statusline_asks(mode: StatuslineMode, args: Seq<Seq<char>>) -> bool {
    match mode {
        StatuslineMode::Quiet => args.len() == 0,
        StatuslineMode::Exec(command) => args.len() == 2 && args[0] == "--exec"@ && args[1]
            == command@,
        StatuslineMode::Usage => args.len() != 0 && !(args.len() == 2 && args[0] == "--exec"@),
    }
}

/// Interprets the arguments behind `statusline`.
pub fn parse_statusline(args: &[String]) -> (mode: StatuslineMode)
    ensures
        statusline_asks(mode, texts(args@)),
{
    if args.len() == 0 {
        return StatuslineMode::Quiet;
    }
    proof {
        assert(texts(args@)[0] == args@[0]@);
    }
    if args.len() == 2 && same_text(args[0].as_str(), "--exec") {
        proof {
            assert(texts(args@)[1] == args@[1]@);
        }
        StatuslineMode::Exec(args[1].clone())
    } else {
        StatuslineMode::Usage
    }
}

/// What the arguments behind `hook` ask for.
#[derive(Clone, Copy, Debug, PartialEq, Eq, Structural)]
pub enum HookMode {
    Install,
    Uninstall,
    Status,
    Usage,
}

/// What the arguments behind `hook` ask for: one of three words, alone.
pub open spec fn hook_mode_of(args: Seq<Seq<char>>) -> HookMode {
    if args.len() != 1 {
        HookMode::Usage
    } else if args[0] == "install"@ {
        HookMode::Install
    } else if args[0] == "uninstall"@ {
        HookMode::Uninstall
    } else if args[0] == "status"@ {
        HookMode::Status
    } else {
        HookMode::Usage
    }
}

/// Interprets the arguments behind `hook`.
pub fn parse_hook(args: &[String]) -> (mode: HookMode)
    ensures
        mode == hook_mode_of(texts(args@)),
{
    if args.len() != 1 {
        return HookMode::Usage;
    }
    proof {
        assert(texts(args@)[0] == args@[0]@);
    }
    let first = args[0].as_str();
    if same_text(first, "install") {
        HookMode::Install
    } else if same_text(first, "uninstall") {
        HookMode::Uninstall
    } else if same_text(first, "status") {
        HookMode::Status
    } else {
        HookMode::Usage
    }
}

/// The exit code of the `hook` subcommand.
pub open spec fn hook_code(mode: HookMode, worked: bool) -> i32 {
    if mode == HookMode::Usage {
        2
    } else if mode == HookMode::Status || worked {
        0
    } else {
        1
    }
}

/// The exit code of the `hook` subcommand: what the arguments ask for, and
/// whether it worked. A status is always given.
pub fn hook_exit(mode: HookMode, worked: bool) -> (code: i32)
    ensures
        code == (match mode {
            HookMode::Usage => 2i32,
            HookMode::Status => 0i32,
            HookMode::Install | HookMode::Uninstall => if worked {
                0i32
            } else {
                1i32
            },
        }),
        code == hook_code(mode, worked),
{
    match mode {
        HookMode::Usage => 2,
        HookMode::Status => 0,
        HookMode::Install | HookMode::Uninstall => if worked {
            0
        } else {
            1
        },
    }
}

/// The exit code of the `statusline` subcommand.
pub open spec fn statusline_code(mode: StatuslineMode) -> i32 {
    match mode {
        StatuslineMode::Usage => 2,
        _ => 0,
    }
}

/// The exit code of the `statusline` subcommand. Nothing that goes wrong with
/// the cache or the wrapped command is a failure.
pub fn statusline_exit(mode: &StatuslineMode) -> (code: i32)
    ensures
        code == (if *mode is Usage {
            2i32
        } else {
            0i32
        }),
        code == statusline_code(*mode),
{
    match mode {
        StatuslineMode::Usage => 2,
        _ => 0,
    }
}

} // verus!
