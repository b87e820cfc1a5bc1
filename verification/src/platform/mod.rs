//! What the tray asks of a desktop, and in which form.

use vstd::prelude::*;

pub mod macos;

verus! {

/// Why the tray could not be started, in words for the user.
#[derive(Debug)]
pub struct BackendError(pub String);

impl BackendError {
    /// An error with the given explanation.
    pub fn new(message: String) -> (error: Self)
        ensures
            error.0@ == message@,
    {
        BackendError(message)
    }

    /// The explanation.
    pub fn message(&self) -> (text: &str)
        ensures
            text@ == self.0@,
    {
        self.0.as_str()
    }
}

/// How loudly a toast is delivered.
#[derive(Clone, Copy, Debug, PartialEq, Eq, Structural)]
pub enum Urgency {
    /// An acknowledgement of something the user just clicked.
    Low,
    /// A threshold crossing, or a quota reset.
    Normal,
    /// A threshold crossing close to the limit.
    Critical,
}

/// Whether a toast takes the place of an earlier one.
#[derive(Clone, Copy, Debug, PartialEq, Eq, Structural)]
pub enum Channel {
    /// A threshold alert, which replaces the one before it.
    ThresholdAlert,
    /// Anything else: it replaces nothing and is replaced by nothing.
    Ephemeral,
}

/// A desktop notification.
#[derive(Clone, Debug, PartialEq, Eq)]
pub struct Toast {
    pub summary: String,
    pub body: String,
    pub urgency: Urgency,
    /// Whether the toast is dropped from notification history once it
    /// disappears.
    pub transient: bool,
}

/// The contents of a [`Toast`].
pub ghost struct ToastView {
    pub summary: Seq<char>,
    pub body: Seq<char>,
    pub urgency: Urgency,
    pub transient: bool,
}

impl View for Toast {
    type V = ToastView;

    open spec fn view(&self) -> ToastView {
        ToastView {
            summary: self.summary@,
            body: self.body@,
            urgency: self.urgency,
            transient: self.transient,
        }
    }
}

} // verus!
