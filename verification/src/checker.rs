//! The update checker's decisions: when to sleep, when to ask, and what is news.

use vstd::prelude::*;
use vstd::string::*;

use crate::ui::settings::{is_news, update_view};
use crate::update::{check, update_in, Update};

verus! {

/// How long after the start the first check runs, in seconds.
pub const FIRST_UPDATE_CHECK_DELAY_SECS: u64 = 5;

/// The time between checks after that, in seconds.
pub const UPDATE_CHECK_INTERVAL_SECS: u64 = 86_400;

/// What happened to the checker.
#[derive(Clone, Debug, PartialEq, Eq)]
pub enum CheckEvent {
    /// It slept long enough. `enabled` is the setting at that moment.
    Woke { enabled: bool },
    /// The releases page answered, or did not. `shown` is what the tray shows.
    Answered { reply: Option<String>, shown: Option<Update> },
    /// The tray was told of an update, or is gone.
    Told { delivered: bool },
}

/// What the checker does next.
#[derive(Clone, Debug, PartialEq, Eq)]
pub enum CheckAction {
    /// Sleep for so many seconds.
    Sleep(u64),
    /// Ask the releases page.
    Fetch,
    /// Tell the tray of an update.
    Announce(Update),
    /// End.
    Stop,
}

/// What a [`CheckAction`] says.
pub ghost enum CheckView {
    Sleep(u64),
    Fetch,
    Announce { version: Seq<char>, url: Seq<char> },
    Stop,
}

impl View for CheckAction {
    type V = CheckView;

    open spec fn view(&self) -> CheckView {
        match *self {
            CheckAction::Sleep(secs) => CheckView::Sleep(secs),
            CheckAction::Fetch => CheckView::Fetch,
            CheckAction::Announce(update) => CheckView::Announce {
                version: update.version@,
                url: update.url@,
            },
            CheckAction::Stop => CheckView::Stop,
        }
    }
}

/// The update that an answer announces.
pub open spec fn update_of(reply: Option<String>) -> Option<(Seq<char>, Seq<char>)> {
    match reply {
        Some(body) => update_in(body@),
        None => None,
    }
}

/// What the checker does after an event: it asks only where the setting allows
/// it, and announces only an update that the tray does not show already.
pub open spec fn action_after(event: CheckEvent) -> CheckView {
    match event {
        CheckEvent::Woke { enabled } => if enabled {
            CheckView::Fetch
        } else {
            CheckView::Sleep(UPDATE_CHECK_INTERVAL_SECS)
        },
        CheckEvent::Answered { reply, shown } => match update_of(reply) {
            Some((version, url)) => if update_view(shown) == Some((version, url)) {
                CheckView::Sleep(UPDATE_CHECK_INTERVAL_SECS)
            } else {
                CheckView::Announce { version, url }
            },
            None => CheckView::Sleep(UPDATE_CHECK_INTERVAL_SECS),
        },
        CheckEvent::Told { delivered } => if delivered {
            CheckView::Sleep(UPDATE_CHECK_INTERVAL_SECS)
        } else {
            CheckView::Stop
        },
    }
}

/// What the checker does first.
pub fn first_action() -> (action: CheckAction)
    ensures
        action@ == CheckView::Sleep(FIRST_UPDATE_CHECK_DELAY_SECS),
{
    CheckAction::Sleep(FIRST_UPDATE_CHECK_DELAY_SECS)
}

/// What the checker does after an event.
pub fn next_action(event: CheckEvent) -> (action: CheckAction)
    ensures
        action@ == action_after(event),
{
    match event {
        CheckEvent::Woke { enabled } => if enabled {
            CheckAction::Fetch
        } else {
            CheckAction::Sleep(UPDATE_CHECK_INTERVAL_SECS)
        },
        CheckEvent::Answered { reply, shown } => {
            let found = match &reply {
                Some(body) => check(Some(body.as_str())),
                None => check(None),
            };
            match found {
                Some(update) => if is_news(&shown, &update) {
                    CheckAction::Announce(update)
                } else {
                    CheckAction::Sleep(UPDATE_CHECK_INTERVAL_SECS)
                },
                None => CheckAction::Sleep(UPDATE_CHECK_INTERVAL_SECS),
            }
        },
        CheckEvent::Told { delivered } => if delivered {
            CheckAction::Sleep(UPDATE_CHECK_INTERVAL_SECS)
        } else {
            CheckAction::Stop
        },
    }
}

/// With the setting off no request is ever made: the checker asks only when it
/// woke and found the setting on.
pub proof fn no_request_without_permission(event: CheckEvent)
    requires
        action_after(event) == CheckView::Fetch,
    ensures
        event == (CheckEvent::Woke { enabled: true }),
{
}

/// An update is announced once: while the tray shows it, the same answer
/// announces nothing.
pub proof fn update_is_announced_once(reply: Option<String>, shown: Option<Update>, next: Update)
    requires
        action_after(CheckEvent::Answered { reply, shown }) == (CheckView::Announce {
            version: next.version@,
            url: next.url@,
        }),
    ensures
        action_after(CheckEvent::Answered { reply, shown: Some(next) }) == CheckView::Sleep(
            UPDATE_CHECK_INTERVAL_SECS,
        ),
{
}

} // verus!
