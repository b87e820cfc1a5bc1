//! The notifications that the tray shows, and which of them replace another.

use vstd::prelude::*;

use crate::assistant::Assistant;
use crate::platform::{Channel, Toast, ToastView, Urgency};
use crate::ui::notifier::{ResetAlert, UsageAlert};

verus! {

/// Said when the program on disk was replaced.
pub const RESTART_TO_UPDATE_TOAST: &'static str = "Update installed — restart to apply";

/// What is shown for a threshold crossing, and where.
pub open spec fn threshold_shown(alert: UsageAlert, assistant: Assistant) -> (ToastView, Channel) {
    (
        ToastView {
            summary: alert.title(assistant),
            body: alert.message(),
            urgency: if alert.critical {
                Urgency::Critical
            } else {
                Urgency::Normal
            },
            transient: false,
        },
        Channel::ThresholdAlert,
    )
}

/// What is shown for anything else, and where.
pub open spec fn notice_shown(
    summary: Seq<char>,
    body: Seq<char>,
    urgency: Urgency,
    transient: bool,
) -> (ToastView, Channel) {
    (ToastView { summary, body, urgency, transient }, Channel::Ephemeral)
}

/// What is shown for a quota reset.
pub open spec fn reset_shown(assistant: Assistant) -> (ToastView, Channel) {
    notice_shown(
        assistant.tray_title(),
        "Session quota reset — fresh 5-hour window"@,
        Urgency::Normal,
        false,
    )
}

/// What is shown after something the user did.
pub open spec fn refresh_shown(body: Seq<char>, assistant: Assistant) -> (ToastView, Channel) {
    notice_shown(assistant.tray_title(), body, Urgency::Low, true)
}

/// What is shown for a program that was replaced on disk.
pub open spec fn swap_shown(assistant: Assistant) -> (ToastView, Channel) {
    notice_shown(assistant.tray_title(), RESTART_TO_UPDATE_TOAST@, Urgency::Normal, false)
}

/// What is shown for a restart that failed.
pub open spec fn restart_failure_shown(body: Seq<char>) -> (ToastView, Channel) {
    notice_shown("Could not restart to update"@, body, Urgency::Normal, false)
}

/// The toast for a threshold crossing. It takes the place of the last one.
pub fn threshold_toast(alert: &UsageAlert, assistant: &Assistant) -> (toast: (Toast, Channel))
    ensures
        toast.0@ == (ToastView {
            summary: alert.title(*assistant),
            body: alert.message(),
            urgency: if alert.critical {
                Urgency::Critical
            } else {
                Urgency::Normal
            },
            transient: false,
        }),
        toast.1 == Channel::ThresholdAlert,
        (toast.0@, toast.1) == threshold_shown(*alert, *assistant),
{
    (
        Toast {
            summary: alert.summary(assistant),
            body: alert.body(),
            urgency: if alert.critical {
                Urgency::Critical
            } else {
                Urgency::Normal
            },
            transient: false,
        },
        Channel::ThresholdAlert,
    )
}

/// The toast for a quota reset.
pub fn reset_toast(alert: &ResetAlert, assistant: &Assistant) -> (toast: (Toast, Channel))
    ensures
        toast.0@ == (ToastView {
            summary: assistant.tray_title(),
            body: "Session quota reset — fresh 5-hour window"@,
            urgency: Urgency::Normal,
            transient: false,
        }),
        toast.1 == Channel::Ephemeral,
        (toast.0@, toast.1) == reset_shown(*assistant),
{
    (
        Toast {
            summary: alert.summary(assistant),
            body: alert.body(),
            urgency: Urgency::Normal,
            transient: false,
        },
        Channel::Ephemeral,
    )
}

/// The toast that follows something the user did. It does not pile up in the
/// notification history.
pub fn refresh_toast(body: &str, assistant: &Assistant) -> (toast: (Toast, Channel))
    ensures
        toast.0@ == (ToastView {
            summary: assistant.tray_title(),
            body: body@,
            urgency: Urgency::Low,
            transient: true,
        }),
        toast.1 == Channel::Ephemeral,
        (toast.0@, toast.1) == refresh_shown(body@, *assistant),
{
    (
        Toast {
            summary: assistant.tray_title_text(),
            body: body.to_owned(),
            urgency: Urgency::Low,
            transient: true,
        },
        Channel::Ephemeral,
    )
}

/// The toast for a program that was replaced on disk.
pub fn binary_swapped_toast(assistant: &Assistant) -> (toast: (Toast, Channel))
    ensures
        toast.0@ == (ToastView {
            summary: assistant.tray_title(),
            body: RESTART_TO_UPDATE_TOAST@,
            urgency: Urgency::Normal,
            transient: false,
        }),
        toast.1 == Channel::Ephemeral,
        (toast.0@, toast.1) == swap_shown(*assistant),
{
    (
        Toast {
            summary: assistant.tray_title_text(),
            body: RESTART_TO_UPDATE_TOAST.to_owned(),
            urgency: Urgency::Normal,
            transient: false,
        },
        Channel::Ephemeral,
    )
}

/// The toast for a restart that failed.
pub fn restart_failure_toast(body: &str) -> (toast: (Toast, Channel))
    ensures
        toast.0@ == (ToastView {
            summary: "Could not restart to update"@,
            body: body@,
            urgency: Urgency::Normal,
            transient: false,
        }),
        toast.1 == Channel::Ephemeral,
        (toast.0@, toast.1) == restart_failure_shown(body@),
{
    (
        Toast {
            summary: "Could not restart to update".to_owned(),
            body: body.to_owned(),
            urgency: Urgency::Normal,
            transient: false,
        },
        Channel::Ephemeral,
    )
}

} // verus!
