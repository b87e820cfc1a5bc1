//! The portable half of the tray: every decision, every piece of user-visible
//! text, and the menu model.

pub mod tray_core;
pub mod labels;
pub mod notifier;
pub mod settings;

pub use self::tray_core::{Effect, MenuEnv, TrayCore, Wake};
pub use self::labels::{
    humanize_age, humanize_reset, refresh_message, session_line, shows_install_item,
    snapshot_changed, status_line, status_message, tooltip_text, weekly_line,
};
pub use self::notifier::{poll_wait, same_window, Notifier, ResetAlert, ResetNotifier, UsageAlert};
pub use self::settings::{
    is_news, resolve_appearance, AppearanceHandle, NotifyHandle, NotifyPrefs, RestartHandle, Settings,
    UpdateHandle,
};
