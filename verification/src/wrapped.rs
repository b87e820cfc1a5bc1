//! Running the user's own statusline command, with a deadline.

use vstd::prelude::*;

verus! {

/// How long the wrapped command may run, in seconds.
pub const TIMEOUT_SECS: u64 = 10;

/// How long to wait between two looks at it, in milliseconds.
pub const POLL_MS: u64 = 5;

/// What a look at the command found.
#[derive(Clone, Copy, Debug, PartialEq, Eq, Structural)]
pub enum Look {
    Exited,
    Running,
    /// Its state could not be read.
    Failed,
}

/// What to do about it.
#[derive(Clone, Copy, Debug, PartialEq, Eq, Structural)]
pub enum Next {
    /// Take its exit status.
    Finish,
    /// Wait a little and look again.
    Wait,
    /// Kill everything that it started.
    Kill,
}

/// What to do about a command after a look at it.
pub open spec fn next_after(look: Look, before_deadline: bool) -> Next {
    if look == Look::Exited {
        Next::Finish
    } else if look == Look::Running && before_deadline {
        Next::Wait
    } else {
        Next::Kill
    }
}

/// What to do about a running command: wait until the deadline, then kill it.
/// One whose state cannot be read is killed as well.
pub fn after_look(look: Look, before_deadline: bool) -> (next: Next)
    ensures
        next == (match look {
            Look::Exited => Next::Finish,
            Look::Running => if before_deadline {
                Next::Wait
            } else {
                Next::Kill
            },
            Look::Failed => Next::Kill,
        }),
        next == next_after(look, before_deadline),
{
    match look {
        Look::Exited => Next::Finish,
        Look::Running => if before_deadline {
            Next::Wait
        } else {
            Next::Kill
        },
        Look::Failed => Next::Kill,
    }
}

} // verus!
