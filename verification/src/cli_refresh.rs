//! When the assistant's usage record is worth refreshing through the CLI.

use vstd::prelude::*;

use crate::time::Timestamp;
use crate::wrapped::Look;

verus! {

/// How old the record may get before it is refreshed, in seconds, and the
/// least time between two attempts.
pub const REFRESH_AFTER_SECS: i64 = 3600;

/// How often a refresh that was started is looked at before it is given up.
pub const REFRESH_LOOKS: u32 = 120;

/// The time after a look at it, in milliseconds.
pub const REFRESH_LOOK_MS: u64 = 1000;

/// What to do about a refresh that was started.
#[derive(Clone, Copy, Debug, PartialEq, Eq, Structural)]
pub enum RefreshStep {
    /// It is over, or cannot be seen: leave it.
    Finish,
    /// Wait, then look again.
    WaitThenLook,
    /// Wait, then kill it.
    WaitThenKill,
}

/// What to do about a refresh after so many looks at it.
pub open spec fn refresh_next(looks: u32, seen: Look) -> RefreshStep {
    if seen != Look::Running {
        RefreshStep::Finish
    } else if looks < REFRESH_LOOKS {
        RefreshStep::WaitThenLook
    } else {
        RefreshStep::WaitThenKill
    }
}

/// What to do about a refresh after a look at it. `looks` counts that one: after
/// the last of them a refresh that still runs is given one more wait and killed.
pub fn after_refresh_look(looks: u32, seen: Look) -> (next: RefreshStep)
    ensures
        next == (match seen {
            Look::Exited => RefreshStep::Finish,
            Look::Failed => RefreshStep::Finish,
            Look::Running => if looks < REFRESH_LOOKS {
                RefreshStep::WaitThenLook
            } else {
                RefreshStep::WaitThenKill
            },
        }),
        next == refresh_next(looks, seen),
{
    match seen {
        Look::Exited => RefreshStep::Finish,
        Look::Failed => RefreshStep::Finish,
        Look::Running => if looks < REFRESH_LOOKS {
            RefreshStep::WaitThenLook
        } else {
            RefreshStep::WaitThenKill
        },
    }
}

/// Whether a time is more than an hour ago. No time at all counts as long ago;
/// a time yet to come does not.
pub open spec fn long_ago(at: Option<Timestamp>, now: Timestamp) -> bool {
    match at {
        Some(t) => now.secs() - t.secs() > REFRESH_AFTER_SECS,
        None => true,
    }
}

fn is_long_ago(at: Option<Timestamp>, now: Timestamp) -> (long: bool)
    ensures
        long == long_ago(at, now),
{
    match at {
        Some(at) => now.as_second() - at.as_second() > REFRESH_AFTER_SECS,
        None => true,
    }
}

/// Whether a refresh is to be started.
pub open spec fn refresh_wanted(
    enabled: bool,
    fetched_at: Option<Timestamp>,
    last_attempt: Option<Timestamp>,
    now: Timestamp,
) -> bool {
    enabled && long_ago(fetched_at, now) && long_ago(last_attempt, now)
}

/// Whether to start a refresh now: when it is switched on, the record is old,
/// and the last attempt is too.
pub fn should_refresh(
    enabled: bool,
    fetched_at: Option<Timestamp>,
    last_attempt: Option<Timestamp>,
    now: Timestamp,
) -> (refresh: bool)
    ensures
        refresh == (enabled && long_ago(fetched_at, now) && long_ago(last_attempt, now)),
        refresh == refresh_wanted(enabled, fetched_at, last_attempt, now),
{
    enabled && is_long_ago(fetched_at, now) && is_long_ago(last_attempt, now)
}

/// Attempts are at least an hour apart: within an hour of one, there is no
/// other, whatever the record says.
pub proof fn attempts_are_spaced(fetched_at: Option<Timestamp>, last: Timestamp, now: Timestamp)
    requires
        now.secs() - last.secs() <= REFRESH_AFTER_SECS,
    ensures
        !(long_ago(fetched_at, now) && long_ago(Some(last), now)),
{
}

} // verus!
