//! The settings that the menu changes and the poll loop follows.

use vstd::prelude::*;
use vstd::string::*;

use crate::config::{Config, ConfigView, IconStyle};
use crate::icon::IconAppearance;
use crate::update::Update;

verus! {

/// A copy of a list of thresholds.
fn copied(thresholds: &Vec<u8>) -> (copy: Vec<u8>)
    ensures
        copy@ == thresholds@,
{
    let mut copy: Vec<u8> = Vec::new();
    let mut i: usize = 0;
    while i < thresholds.len()
        invariant
            i <= thresholds.len(),
            copy@ == thresholds@.take(i as int),
        decreases thresholds.len() - i,
    {
        proof {
            assert(thresholds@.take(i as int + 1) == thresholds@.take(i as int).push(
                thresholds@[i as int],
            ));
        }
        copy.push(thresholds[i]);
        i = i + 1;
    }
    proof {
        assert(thresholds@.take(i as int) == thresholds@);
    }
    copy
}

/// The notification preferences that the poll loop needs.
#[derive(Clone, Debug, PartialEq, Eq)]
pub struct NotifyPrefs {
    /// The thresholds that notify.
    pub thresholds: Vec<u8>,
    /// Whether a quota reset notifies.
    pub on_reset: bool,
}

/// The contents of [`NotifyPrefs`].
pub ghost struct PrefsView {
    pub thresholds: Seq<u8>,
    pub on_reset: bool,
}

impl View for NotifyPrefs {
    type V = PrefsView;

    open spec fn view(&self) -> PrefsView {
        PrefsView { thresholds: self.thresholds@, on_reset: self.on_reset }
    }
}

/// The preferences that settings ask for.
pub open spec fn prefs_of(config: ConfigView) -> PrefsView {
    PrefsView { thresholds: config.notify_thresholds, on_reset: config.notify_on_reset }
}

impl NotifyPrefs {
    /// The preferences that settings ask for.
    pub fn from_config(config: &Config) -> (prefs: Self)
        ensures
            prefs@ == prefs_of(config@),
    {
        NotifyPrefs {
            thresholds: copied(&config.notify_thresholds),
            on_reset: config.notify_on_reset,
        }
    }
}

/// Holds the notification preferences between the menu and the poll loop.
#[derive(Debug)]
pub struct NotifyHandle(pub NotifyPrefs);

impl NotifyHandle {
    /// A holder of the given preferences.
    pub fn new(prefs: NotifyPrefs) -> (handle: Self)
        ensures
            handle.0@ == prefs@,
    {
        NotifyHandle(prefs)
    }

    /// Current preferences.
    pub fn get(&self) -> (prefs: NotifyPrefs)
        ensures
            prefs@ == self.0@,
    {
        NotifyPrefs { thresholds: copied(&self.0.thresholds), on_reset: self.0.on_reset }
    }

    /// Replaces the preferences.
    pub fn set(&mut self, prefs: NotifyPrefs)
        ensures
            final(self).0@ == prefs@,
    {
        self.0 = prefs;
    }
}

/// What an update says: its version and its page.
pub open spec fn update_view(update: Option<Update>) -> Option<(Seq<char>, Seq<char>)> {
    match update {
        Some(u) => Some((u.version@, u.url@)),
        None => None,
    }
}

/// Holds the newest release that the update check has found, if any.
#[derive(Debug)]
pub struct UpdateHandle(pub Option<Update>);

impl UpdateHandle {
    /// A holder of nothing.
    pub fn new() -> (handle: Self)
        ensures
            update_view(handle.0) is None,
    {
        UpdateHandle(None)
    }

    /// The release to advertise right now, if any.
    pub fn get(&self) -> (update: Option<Update>)
        ensures
            update_view(update) == update_view(self.0),
    {
        match &self.0 {
            Some(update) => Some(
                Update { version: update.version.clone(), url: update.url.clone() },
            ),
            None => None,
        }
    }

    /// Records what a check found.
    pub fn set(&mut self, update: Option<Update>)
        ensures
            update_view(final(self).0) == update_view(update),
    {
        self.0 = update;
    }
}

/// Whether a check's result is news: a release other than the one shown.
pub fn is_news(shown: &Option<Update>, found: &Update) -> (news: bool)
    ensures
        news == (update_view(*shown) != Some((found.version@, found.url@))),
{
    match shown {
        Some(shown) => !(crate::text::same_text(shown.version.as_str(), found.version.as_str())
            && crate::text::same_text(shown.url.as_str(), found.url.as_str())),
        None => true,
    }
}

/// The path in a holder, if any.
pub open spec fn path_view(path: Option<String>) -> Option<Seq<char>> {
    match path {
        Some(p) => Some(p@),
        None => None,
    }
}

/// Holds the path of the binary that a restart should run, once the running
/// one was replaced.
#[derive(Debug)]
pub struct RestartHandle(pub Option<String>);

impl RestartHandle {
    /// A holder of nothing.
    pub fn new() -> (handle: Self)
        ensures
            path_view(handle.0) is None,
    {
        RestartHandle(None)
    }

    /// The path to restart into, if any.
    pub fn get(&self) -> (path: Option<String>)
        ensures
            path_view(path) == path_view(self.0),
    {
        match &self.0 {
            Some(path) => Some(path.clone()),
            None => None,
        }
    }

    /// Records the path to restart into.
    pub fn set(&mut self, path: Option<String>)
        ensures
            path_view(final(self).0) == path_view(path),
    {
        self.0 = path;
    }
}

// ---------------------------------------------------------------------------
// Appearance
// ---------------------------------------------------------------------------

/// The appearance that a style gives on a desktop. The monochrome styles are
/// named for the user's desktop, and only the automatic one looks at what the
/// desktop reports.
pub open spec fn appearance_of(style: IconStyle, portal_dark: bool) -> IconAppearance {
    match style {
        IconStyle::Color => IconAppearance::Color,
        IconStyle::MonoAuto => IconAppearance::Mono { dark_ui: portal_dark },
        IconStyle::MonoDark => IconAppearance::Mono { dark_ui: true },
        IconStyle::MonoLight => IconAppearance::Mono { dark_ui: false },
    }
}

/// Resolves the configured style and the desktop's reported scheme into the
/// appearance that the renderer takes.
pub fn resolve_appearance(style: IconStyle, portal_dark: bool) -> (appearance: IconAppearance)
    ensures
        appearance == appearance_of(style, portal_dark),
{
    match style {
        IconStyle::Color => IconAppearance::Color,
        IconStyle::MonoAuto => IconAppearance::Mono { dark_ui: portal_dark },
        IconStyle::MonoDark => IconAppearance::Mono { dark_ui: true },
        IconStyle::MonoLight => IconAppearance::Mono { dark_ui: false },
    }
}

/// A pinned style does not follow the desktop.
pub proof fn pinned_style_ignores_the_desktop(style: IconStyle, a: bool, b: bool)
    requires
        style != IconStyle::MonoAuto,
    ensures
        appearance_of(style, a) == appearance_of(style, b),
{
}

/// Whether the rendered appearance changes with what the desktop reports.
pub open spec fn report_matters(style: IconStyle, before: bool, after: bool) -> bool {
    appearance_of(style, after) != appearance_of(style, before)
}

/// Holds the two things that the icon's appearance follows from. There is one
/// holder, which everyone reads and changes, and no copy of it.
#[derive(Debug)]
pub struct AppearanceHandle {
    pub style: IconStyle,
    /// What the desktop last reported; dark until it reports anything.
    pub portal_dark: bool,
}

impl AppearanceHandle {
    /// A holder of the given style, on a desktop that has not reported yet.
    pub fn new(style: IconStyle) -> (handle: Self)
        ensures
            handle == (AppearanceHandle { style, portal_dark: true }),
    {
        AppearanceHandle { style, portal_dark: true }
    }

    /// The appearance to render with right now.
    pub fn resolved(&self) -> (appearance: IconAppearance)
        ensures
            appearance == appearance_of(self.style, self.portal_dark),
    {
        resolve_appearance(self.style, self.portal_dark)
    }

    /// Records the user's choice, and says whether the rendered appearance
    /// changed.
    pub fn set_style(&mut self, style: IconStyle) -> (changed: bool)
        ensures
            *final(self) == (AppearanceHandle { style, ..*old(self) }),
            changed == (appearance_of(style, old(self).portal_dark) != appearance_of(
                old(self).style,
                old(self).portal_dark,
            )),
    {
        let before = self.resolved();
        self.style = style;
        self.resolved() != before
    }

    /// Records what the desktop reported, and says whether the rendered
    /// appearance changed.
    pub fn set_portal_dark(&mut self, dark: bool) -> (changed: bool)
        ensures
            *final(self) == (AppearanceHandle { portal_dark: dark, ..*old(self) }),
            changed == (appearance_of(old(self).style, dark) != appearance_of(
                old(self).style,
                old(self).portal_dark,
            )),
            changed == report_matters(old(self).style, old(self).portal_dark, dark),
    {
        let before = self.resolved();
        self.portal_dark = dark;
        self.resolved() != before
    }
}

// ---------------------------------------------------------------------------
// Settings
// ---------------------------------------------------------------------------

/// Settings between the menu, which changes them, and the poll loop, which
/// reads them every cycle.
#[derive(Debug)]
pub struct Settings {
    /// What is stored.
    pub config: Config,
    /// The interval that the poll loop waits, in seconds.
    pub interval: u64,
    /// Notification preferences.
    pub notify: NotifyHandle,
    /// Icon appearance.
    pub appearance: AppearanceHandle,
    /// Whether the update check may run.
    pub check_updates: bool,
    /// Whether the usage record is refreshed through the CLI.
    pub cli_refresh: bool,
    /// The release that the update check found, if any.
    pub update: UpdateHandle,
    /// The binary to restart into, if the running one was replaced.
    pub restart: RestartHandle,
    /// Whether the environment sets the interval. A choice is then still
    /// stored, but does not take effect.
    pub env_locked: bool,
}

/// The contents of [`Settings`].
pub ghost struct SettingsView {
    pub config: ConfigView,
    pub interval: u64,
    pub notify: PrefsView,
    pub appearance: AppearanceHandle,
    pub check_updates: bool,
    pub cli_refresh: bool,
    pub update: Option<(Seq<char>, Seq<char>)>,
    pub restart: Option<Seq<char>>,
    pub env_locked: bool,
}

impl View for Settings {
    type V = SettingsView;

    open spec fn view(&self) -> SettingsView {
        SettingsView {
            config: self.config@,
            interval: self.interval,
            notify: self.notify.0@,
            appearance: self.appearance,
            check_updates: self.check_updates,
            cli_refresh: self.cli_refresh,
            update: update_view(self.update.0),
            restart: path_view(self.restart.0),
            env_locked: self.env_locked,
        }
    }
}

/// The settings that a tray starts with.
pub open spec fn initial_settings(config: ConfigView, env_secs: Option<u64>) -> SettingsView {
    SettingsView {
        config,
        interval: match env_secs {
            Some(secs) => secs,
            None => config.refresh_secs,
        },
        notify: prefs_of(config),
        appearance: AppearanceHandle { style: config.icon_style, portal_dark: true },
        check_updates: config.check_updates,
        cli_refresh: config.cli_refresh,
        update: None,
        restart: None,
        env_locked: env_secs is Some,
    }
}

/// What is in effect agrees with what is stored: preferences, style, the two
/// switches, and the interval unless the environment sets it.
pub open spec fn in_step(settings: SettingsView) -> bool {
    &&& settings.notify == prefs_of(settings.config)
    &&& settings.appearance.style == settings.config.icon_style
    &&& settings.check_updates == settings.config.check_updates
    &&& settings.cli_refresh == settings.config.cli_refresh
    &&& !settings.env_locked ==> settings.interval == settings.config.refresh_secs
}

impl Settings {
    /// Builds the settings from what is stored and from what the environment
    /// says of the interval.
    pub fn new(config: Config, env_secs: Option<u64>) -> (settings: Self)
        ensures
            settings@ == initial_settings(config@, env_secs),
            in_step(settings@),
    {
        let interval: u64 = match env_secs {
            Some(secs) => secs,
            None => config.refresh_secs,
        };
        let notify = NotifyHandle::new(NotifyPrefs::from_config(&config));
        let appearance = AppearanceHandle::new(config.icon_style);
        let check_updates = config.check_updates;
        let cli_refresh = config.cli_refresh;
        Settings {
            config,
            interval,
            notify,
            appearance,
            check_updates,
            cli_refresh,
            update: UpdateHandle::new(),
            restart: RestartHandle::new(),
            env_locked: env_secs.is_some(),
        }
    }

    /// The interval that the poll loop waits, in seconds.
    pub fn interval_handle(&self) -> (secs: u64)
        ensures
            secs == self@.interval,
    {
        self.interval
    }

    /// The notification preferences, to read or to replace.
    pub fn notify_handle(&mut self) -> (handle: &mut NotifyHandle)
        ensures
            handle.0@ == old(self)@.notify,
            final(self)@ == (SettingsView { notify: final(handle).0@, ..old(self)@ }),
    {
        &mut self.notify
    }

    /// The icon appearance, to read or to change.
    pub fn appearance_handle(&mut self) -> (handle: &mut AppearanceHandle)
        ensures
            *handle == old(self)@.appearance,
            final(self)@ == (SettingsView { appearance: *final(handle), ..old(self)@ }),
    {
        &mut self.appearance
    }

    /// Whether the update check may run.
    pub fn check_updates_handle(&self) -> (enabled: bool)
        ensures
            enabled == self@.check_updates,
    {
        self.check_updates
    }

    /// Whether the usage record is refreshed through the CLI.
    pub fn cli_refresh_handle(&self) -> (enabled: bool)
        ensures
            enabled == self@.cli_refresh,
    {
        self.cli_refresh
    }

    /// The release that the update check found, to read or to record.
    pub fn update_handle(&mut self) -> (handle: &mut UpdateHandle)
        ensures
            update_view(handle.0) == old(self)@.update,
            final(self)@ == (SettingsView { update: update_view(final(handle).0), ..old(self)@ }),
    {
        &mut self.update
    }

    /// The binary to restart into, to read or to record.
    pub fn restart_handle(&mut self) -> (handle: &mut RestartHandle)
        ensures
            path_view(handle.0) == old(self)@.restart,
            final(self)@ == (SettingsView { restart: path_view(final(handle).0), ..old(self)@ }),
    {
        &mut self.restart
    }
}

} // verus!
