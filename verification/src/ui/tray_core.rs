//! The tray itself: the latest snapshot and the settings, the menu that they
//! make, and what a click on it does.

use vstd::prelude::*;
use vstd::string::*;

use crate::config::{
    interval_position, switched, ConfigView, IconStyle, NOTIFY_THRESHOLDS, REFRESH_CHOICES,
};
use crate::icon::IconAppearance;
use crate::menu::{
    option_views, row_views, row_views_push, ActionView, MenuAction, MenuRow, RadioGroup, RadioOption,
    RowView,
};
use crate::source::{SnapshotState, SnapshotView, UsageSnapshot};
use crate::text::{digits, nat_text};
use crate::time::Timestamp;
use crate::ui::labels::{
    metric_text, session_line, shows_install_item, status_line, status_text, three_lines, tooltip_text,
    weekly_line,
};
use crate::ui::settings::{
    appearance_of, in_step, prefs_of, AppearanceHandle, NotifyPrefs, Settings, SettingsView,
};

verus! {

/// What the tray tells the poll loop.
#[derive(Clone, Copy, Debug, PartialEq, Eq, Structural)]
pub enum Wake {
    /// Read the cache now, and say whether anything is new.
    Refresh,
    /// Read the cache now, and say what the current usage is.
    ShowStatus,
    /// The interval changed: wait anew.
    IntervalChanged,
    /// A notification setting changed: look at it now.
    NotifyChanged,
    /// Install the statusline hook.
    InstallHook,
    /// The icon's appearance changed: repaint.
    AppearanceChanged,
    /// A newer release was found: repaint.
    UpdateAvailable,
    /// Shut down.
    Quit,
}

/// What a click asks of the world around the tray.
#[derive(Clone, Debug, PartialEq, Eq)]
pub enum Effect {
    /// Write the settings file.
    Save,
    /// Tell the poll loop.
    Send(Wake),
    /// Open a page in the browser.
    Open(String),
    /// Switch the autostart entry, and report back whether that worked.
    SetAutostart(bool),
    /// Restart into the binary at this path.
    Restart(String),
}

/// What an [`Effect`] asks for.
pub ghost enum EffectView {
    Save,
    Send(Wake),
    Open(Seq<char>),
    SetAutostart(bool),
    Restart(Seq<char>),
}

impl View for Effect {
    type V = EffectView;

    open spec fn view(&self) -> EffectView {
        match *self {
            Effect::Save => EffectView::Save,
            Effect::Send(wake) => EffectView::Send(wake),
            Effect::Open(url) => EffectView::Open(url@),
            Effect::SetAutostart(on) => EffectView::SetAutostart(on),
            Effect::Restart(path) => EffectView::Restart(path@),
        }
    }
}

/// What effects ask for, in order.
pub open spec fn effect_views(effects: Seq<Effect>) -> Seq<EffectView> {
    effects.map_values(|e: Effect| e@)
}

/// What the menu is drawn from, besides the tray's own state.
#[derive(Clone, Copy, Debug, PartialEq, Eq, Structural)]
pub struct MenuEnv {
    /// Whether the settings file can be written.
    pub can_persist: bool,
    /// Whether autostart can be switched.
    pub autostart_available: bool,
    /// Whether autostart is on.
    pub autostart_enabled: bool,
}

/// The portable half of the tray.
pub struct TrayCore {
    pub snapshot: UsageSnapshot,
    pub settings: Settings,
    pub tz: jiff::tz::TimeZone,
}

// ---------------------------------------------------------------------------
// Clicks
// ---------------------------------------------------------------------------

/// Settings after a change, and what is to be done about it.
pub ghost struct Change {
    pub settings: SettingsView,
    pub effects: Seq<EffectView>,
}

/// No change, and this to be done.
pub open spec fn only(settings: SettingsView, effects: Seq<EffectView>) -> Change {
    Change { settings, effects }
}

/// What choosing an interval does: it is stored, and takes effect unless the
/// environment sets the interval.
pub open spec fn chosen_interval(settings: SettingsView, index: int) -> Change {
    if !(0 <= index < REFRESH_CHOICES@.len()) || REFRESH_CHOICES@[index]
        == settings.config.refresh_secs {
        only(settings, seq![])
    } else {
        let secs = REFRESH_CHOICES@[index];
        let stored = SettingsView {
            config: ConfigView { refresh_secs: secs, ..settings.config },
            ..settings
        };
        if settings.env_locked {
            Change { settings: stored, effects: seq![EffectView::Save] }
        } else {
            Change {
                settings: SettingsView { interval: secs, ..stored },
                effects: seq![EffectView::Save, EffectView::Send(Wake::IntervalChanged)],
            }
        }
    }
}

/// What choosing a style does: it is stored, and the icon is painted anew where
/// it looks different.
pub open spec fn chosen_style(settings: SettingsView, index: int) -> Change {
    if !(0 <= index < IconStyle::ALL@.len()) || IconStyle::ALL@[index]
        == settings.config.icon_style {
        only(settings, seq![])
    } else {
        let style = IconStyle::ALL@[index];
        let dark = settings.appearance.portal_dark;
        Change {
            settings: SettingsView {
                config: ConfigView { icon_style: style, ..settings.config },
                appearance: AppearanceHandle { style, ..settings.appearance },
                ..settings
            },
            effects: if appearance_of(style, dark) != appearance_of(
                settings.appearance.style,
                dark,
            ) {
                seq![EffectView::Save, EffectView::Send(Wake::AppearanceChanged)]
            } else {
                seq![EffectView::Save]
            },
        }
    }
}

/// What changed notification settings do: they are stored, they take effect,
/// and the poll loop is told.
pub open spec fn renotified(settings: SettingsView, config: ConfigView) -> Change {
    Change {
        settings: SettingsView { config, notify: prefs_of(config), ..settings },
        effects: seq![EffectView::Save, EffectView::Send(Wake::NotifyChanged)],
    }
}

/// What a click on a menu entry does. `autostart` is whether the tray starts
/// with the session now.
pub open spec fn clicked(settings: SettingsView, action: ActionView, autostart: bool) -> Change {
    match action {
        ActionView::InstallHook => only(settings, seq![EffectView::Send(Wake::InstallHook)]),
        ActionView::OpenUrl(url) => only(settings, seq![EffectView::Open(url)]),
        ActionView::RestartToUpdate => match settings.restart {
            Some(path) => only(settings, seq![EffectView::Restart(path)]),
            None => only(settings, seq![]),
        },
        ActionView::Refresh => only(settings, seq![EffectView::Send(Wake::Refresh)]),
        ActionView::Quit => only(settings, seq![EffectView::Send(Wake::Quit)]),
        ActionView::ToggleLaunchAtLogin => only(
            settings,
            seq![EffectView::SetAutostart(!autostart)],
        ),
        ActionView::ToggleThreshold(t) => renotified(
            settings,
            ConfigView {
                notify_thresholds: switched(
                    settings.config.notify_thresholds,
                    t,
                    !settings.config.notify_thresholds.contains(t),
                ),
                ..settings.config
            },
        ),
        ActionView::ToggleNotifyOnReset => renotified(
            settings,
            ConfigView { notify_on_reset: !settings.config.notify_on_reset, ..settings.config },
        ),
        ActionView::ToggleCheckUpdates => {
            let on = !settings.config.check_updates;
            Change {
                settings: SettingsView {
                    config: ConfigView { check_updates: on, ..settings.config },
                    check_updates: on,
                    ..settings
                },
                effects: seq![EffectView::Save],
            }
        },
        ActionView::ToggleCliRefresh => {
            let on = !settings.config.cli_refresh;
            Change {
                settings: SettingsView {
                    config: ConfigView { cli_refresh: on, ..settings.config },
                    cli_refresh: on,
                    ..settings
                },
                effects: seq![EffectView::Save],
            }
        },
    }
}

/// What a selection in a radio group does.
pub open spec fn selected(settings: SettingsView, group: RadioGroup, index: int) -> Change {
    match group {
        RadioGroup::RefreshInterval => chosen_interval(settings, index),
        RadioGroup::IconStyle => chosen_style(settings, index),
    }
}

/// What the outcome of switching autostart does: it is stored where it worked.
pub open spec fn autostart_done(settings: SettingsView, wanted: bool, worked: bool) -> Change {
    if worked {
        Change {
            settings: SettingsView {
                config: ConfigView { launch_at_login: wanted, ..settings.config },
                ..settings
            },
            effects: seq![EffectView::Save],
        }
    } else {
        only(settings, seq![])
    }
}

/// Whatever is clicked or selected, what is in effect goes on agreeing with
/// what is stored, and a change that is stored is written.
pub proof fn clicks_keep_settings_in_step(
    settings: SettingsView,
    action: ActionView,
    autostart: bool,
    group: RadioGroup,
    index: int,
    wanted: bool,
    worked: bool,
)
    requires
        in_step(settings),
    ensures
        in_step(clicked(settings, action, autostart).settings),
        in_step(selected(settings, group, index).settings),
        in_step(autostart_done(settings, wanted, worked).settings),
        clicked(settings, action, autostart).settings.config != settings.config ==> clicked(
            settings,
            action,
            autostart,
        ).effects[0] == EffectView::Save,
        selected(settings, group, index).settings.config != settings.config ==> selected(
            settings,
            group,
            index,
        ).effects[0] == EffectView::Save,
{
}

/// The environment's interval stands: no click and no selection changes it.
pub proof fn environment_interval_stands(
    settings: SettingsView,
    action: ActionView,
    autostart: bool,
    group: RadioGroup,
    index: int,
)
    requires
        settings.env_locked,
    ensures
        clicked(settings, action, autostart).settings.interval == settings.interval,
        selected(settings, group, index).settings.interval == settings.interval,
{
}

/// Clicking a checkbox twice puts everything back.
pub proof fn second_click_undoes_the_first(settings: SettingsView, autostart: bool)
    requires
        in_step(settings),
    ensures
        ({
            let once = clicked(settings, ActionView::ToggleNotifyOnReset, autostart).settings;
            clicked(once, ActionView::ToggleNotifyOnReset, autostart).settings == settings
        }),
        ({
            let once = clicked(settings, ActionView::ToggleCheckUpdates, autostart).settings;
            clicked(once, ActionView::ToggleCheckUpdates, autostart).settings == settings
        }),
        ({
            let once = clicked(settings, ActionView::ToggleCliRefresh, autostart).settings;
            clicked(once, ActionView::ToggleCliRefresh, autostart).settings == settings
        }),
{
}

fn one_effect(effect: Effect) -> (effects: Vec<Effect>)
    ensures
        effect_views(effects@) == seq![effect@],
{
    let ghost view = effect@;
    let mut effects: Vec<Effect> = Vec::new();
    effects.push(effect);
    proof {
        assert(effect_views(effects@) == seq![view]);
    }
    effects
}

fn two_effects(first: Effect, second: Effect) -> (effects: Vec<Effect>)
    ensures
        effect_views(effects@) == seq![first@, second@],
{
    let ghost a = first@;
    let ghost b = second@;
    let mut effects: Vec<Effect> = Vec::new();
    effects.push(first);
    effects.push(second);
    proof {
        assert(effect_views(effects@) == seq![a, b]);
    }
    effects
}

fn no_effects() -> (effects: Vec<Effect>)
    ensures
        effect_views(effects@) == Seq::<EffectView>::empty(),
{
    let effects: Vec<Effect> = Vec::new();
    proof {
        assert(effect_views(effects@) == Seq::<EffectView>::empty());
    }
    effects
}

/// What a click on the icon tells the poll loop.
pub open spec fn icon_wake() -> Wake {
    Wake::ShowStatus
}

impl TrayCore {
    /// A tray that shows `snapshot` in the time zone `tz`.
    pub fn new(snapshot: UsageSnapshot, settings: Settings, tz: jiff::tz::TimeZone) -> (core: Self)
        ensures
            core.snapshot@ == snapshot@,
            core.settings@ == settings@,
            core.tz == tz,
    {
        TrayCore { snapshot, settings, tz }
    }

    /// The appearance that the icon is rendered with right now.
    pub fn appearance(&self) -> (appearance: IconAppearance)
        ensures
            appearance == appearance_of(
                self.settings@.appearance.style,
                self.settings@.appearance.portal_dark,
            ),
    {
        self.settings.appearance.resolved()
    }

    /// The tooltip: the three lines that the menu opens with.
    pub fn tooltip(&self, now: Timestamp) -> (text: String)
        ensures
            text@ == three_lines(
                metric_text("Session"@, self.snapshot@.session, now, self.tz),
                metric_text("Weekly"@, self.snapshot@.weekly, now, self.tz),
                status_text(self.snapshot@, now),
            ),
    {
        tooltip_text(&self.snapshot, now, &self.tz)
    }

    /// A click on the icon: what to tell the poll loop.
    pub fn clicked(&self) -> (wake: Wake)
        ensures
            wake == Wake::ShowStatus,
            wake == icon_wake(),
    {
        Wake::ShowStatus
    }

    /// Chooses an interval.
    fn select_refresh(&mut self, index: usize) -> (effects: Vec<Effect>)
        ensures
            final(self).settings@ == chosen_interval(old(self).settings@, index as int).settings,
            effect_views(effects@) == chosen_interval(old(self).settings@, index as int).effects,
            final(self).snapshot == old(self).snapshot,
            final(self).tz == old(self).tz,
    {
        if index >= REFRESH_CHOICES.len() {
            return no_effects();
        }
        let secs = REFRESH_CHOICES[index];
        if self.settings.config.refresh_secs == secs {
            return no_effects();
        }
        self.settings.config.refresh_secs = secs;
        if self.settings.env_locked {
            return one_effect(Effect::Save);
        }
        self.settings.interval = secs;
        two_effects(Effect::Save, Effect::Send(Wake::IntervalChanged))
    }

    /// Chooses an icon style.
    fn select_icon_style(&mut self, index: usize) -> (effects: Vec<Effect>)
        ensures
            final(self).settings@ == chosen_style(old(self).settings@, index as int).settings,
            effect_views(effects@) == chosen_style(old(self).settings@, index as int).effects,
            final(self).snapshot == old(self).snapshot,
            final(self).tz == old(self).tz,
    {
        if index >= IconStyle::ALL.len() {
            return no_effects();
        }
        let style = IconStyle::ALL[index];
        if self.settings.config.icon_style == style {
            return no_effects();
        }
        self.settings.config.icon_style = style;
        if self.settings.appearance.set_style(style) {
            two_effects(Effect::Save, Effect::Send(Wake::AppearanceChanged))
        } else {
            one_effect(Effect::Save)
        }
    }

    /// Puts changed notification settings into effect.
    fn apply_notify_change(&mut self) -> (effects: Vec<Effect>)
        ensures
            final(self).settings@ == (SettingsView {
                notify: prefs_of(old(self).settings@.config),
                ..old(self).settings@
            }),
            effect_views(effects@) == seq![
                EffectView::Save,
                EffectView::Send(Wake::NotifyChanged),
            ],
            final(self).snapshot == old(self).snapshot,
            final(self).tz == old(self).tz,
    {
        let prefs = NotifyPrefs::from_config(&self.settings.config);
        self.settings.notify.set(prefs);
        two_effects(Effect::Save, Effect::Send(Wake::NotifyChanged))
    }

    /// Flips the notification of one threshold.
    fn toggle_threshold(&mut self, threshold: u8) -> (effects: Vec<Effect>)
        ensures
            final(self).settings@ == clicked(
                old(self).settings@,
                ActionView::ToggleThreshold(threshold),
                false,
            ).settings,
            effect_views(effects@) == clicked(
                old(self).settings@,
                ActionView::ToggleThreshold(threshold),
                false,
            ).effects,
            final(self).snapshot == old(self).snapshot,
            final(self).tz == old(self).tz,
    {
        let on = !self.settings.config.notifies_at(threshold);
        self.settings.config.set_notifies_at(threshold, on);
        self.apply_notify_change()
    }

    /// Runs the action behind a menu row, and returns what is to be done about
    /// it outside of the tray. `autostart` is whether the tray starts with the
    /// session now.
    pub fn activate(&mut self, action: &MenuAction, autostart: bool) -> (effects: Vec<Effect>)
        ensures
            final(self).settings@ == clicked(old(self).settings@, action@, autostart).settings,
            effect_views(effects@) == clicked(old(self).settings@, action@, autostart).effects,
            final(self).snapshot == old(self).snapshot,
            final(self).tz == old(self).tz,
    {
        match action {
            MenuAction::InstallHook => one_effect(Effect::Send(Wake::InstallHook)),
            MenuAction::OpenUrl(url) => one_effect(Effect::Open(url.clone())),
            MenuAction::RestartToUpdate => match self.settings.restart.get() {
                Some(path) => one_effect(Effect::Restart(path)),
                None => no_effects(),
            },
            MenuAction::Refresh => one_effect(Effect::Send(Wake::Refresh)),
            MenuAction::Quit => one_effect(Effect::Send(Wake::Quit)),
            MenuAction::ToggleLaunchAtLogin => one_effect(Effect::SetAutostart(!autostart)),
            MenuAction::ToggleThreshold(threshold) => self.toggle_threshold(*threshold),
            MenuAction::ToggleNotifyOnReset => {
                self.settings.config.notify_on_reset = !self.settings.config.notify_on_reset;
                self.apply_notify_change()
            },
            MenuAction::ToggleCheckUpdates => {
                let on = !self.settings.config.check_updates;
                self.settings.config.check_updates = on;
                self.settings.check_updates = on;
                one_effect(Effect::Save)
            },
            MenuAction::ToggleCliRefresh => {
                let on = !self.settings.config.cli_refresh;
                self.settings.config.cli_refresh = on;
                self.settings.cli_refresh = on;
                one_effect(Effect::Save)
            },
        }
    }

    /// Takes in whether switching autostart worked. Where it did not, nothing
    /// is recorded and the checkbox stays where it was.
    pub fn autostart_applied(&mut self, wanted: bool, worked: bool) -> (effects: Vec<Effect>)
        ensures
            final(self).settings@ == autostart_done(old(self).settings@, wanted, worked).settings,
            effect_views(effects@) == autostart_done(old(self).settings@, wanted, worked).effects,
            final(self).snapshot == old(self).snapshot,
            final(self).tz == old(self).tz,
    {
        if !worked {
            return no_effects();
        }
        self.settings.config.launch_at_login = wanted;
        one_effect(Effect::Save)
    }

    /// Runs a radio-group selection. A position that the group does not have
    /// changes nothing.
    pub fn select(&mut self, group: RadioGroup, index: usize) -> (effects: Vec<Effect>)
        ensures
            final(self).settings@ == selected(old(self).settings@, group, index as int).settings,
            effect_views(effects@) == selected(old(self).settings@, group, index as int).effects,
            final(self).snapshot == old(self).snapshot,
            final(self).tz == old(self).tz,
    {
        match group {
            RadioGroup::RefreshInterval => self.select_refresh(index),
            RadioGroup::IconStyle => self.select_icon_style(index),
        }
    }
}

// ---------------------------------------------------------------------------
// The menu
// ---------------------------------------------------------------------------

/// The checkbox of one threshold.
pub open spec fn threshold_row(config: ConfigView, threshold: u8, enabled: bool) -> RowView {
    RowView::Check {
        label: "At "@ + digits(threshold as nat) + "%"@,
        action: ActionView::ToggleThreshold(threshold),
        checked: config.notify_thresholds.contains(threshold),
        enabled,
    }
}

/// The checkboxes of the first `count` thresholds.
pub open spec fn threshold_rows(config: ConfigView, count: nat, enabled: bool) -> Seq<RowView>
    decreases count,
{
    if count == 0 {
        seq![]
    } else {
        threshold_rows(config, (count - 1) as nat, enabled).push(
            threshold_row(config, NOTIFY_THRESHOLDS@[count - 1], enabled),
        )
    }
}

/// The `Notifications` submenu.
pub open spec fn notifications_row(config: ConfigView, enabled: bool) -> RowView {
    RowView::SubMenu(
        "Notifications"@,
        threshold_rows(config, NOTIFY_THRESHOLDS@.len(), enabled).push(RowView::Separator).push(
            RowView::Check {
                label: "When quota resets"@,
                action: ActionView::ToggleNotifyOnReset,
                checked: config.notify_on_reset,
                enabled,
            },
        ),
    )
}

/// The intervals that can be chosen.
pub open spec fn interval_options(enabled: bool) -> Seq<(Seq<char>, bool)> {
    REFRESH_CHOICES@.map_values(|secs: u64| (digits(secs as nat) + " s"@, enabled))
}

/// The styles that can be chosen.
pub open spec fn style_options(enabled: bool) -> Seq<(Seq<char>, bool)> {
    IconStyle::ALL@.map_values(|style: IconStyle| (style.menu_label(), enabled))
}

/// The rows of the `Settings` submenu.
pub open spec fn settings_rows(settings: SettingsView, env: MenuEnv) -> Seq<RowView> {
    let config = settings.config;
    let rows = seq![
        RowView::Check {
            label: "Launch at login"@,
            action: ActionView::ToggleLaunchAtLogin,
            checked: env.autostart_enabled,
            enabled: env.autostart_available,
        },
        RowView::Separator,
        notifications_row(config, env.can_persist),
        RowView::Separator,
        RowView::Info("Refresh interval"@),
        RowView::Radio {
            group: RadioGroup::RefreshInterval,
            selected: interval_position(config.refresh_secs),
            options: interval_options(env.can_persist),
        },
        RowView::Separator,
        RowView::Info("Icon style"@),
        RowView::Radio {
            group: RadioGroup::IconStyle,
            selected: config.icon_style.position(),
            options: style_options(env.can_persist),
        },
    ];
    let rows = if settings.env_locked {
        rows.push(
            RowView::Info(
                "(CLAUDE_TRAY_POLL_SECS="@ + digits(settings.interval as nat) + " is in effect)"@,
            ),
        )
    } else {
        rows
    };
    rows.push(RowView::Separator).push(
        RowView::Check {
            label: "Check for updates"@,
            action: ActionView::ToggleCheckUpdates,
            checked: config.check_updates,
            enabled: env.can_persist,
        },
    )
}

/// The row that an upgrade adds: to restart where the new version is installed
/// already, else to open its page.
pub open spec fn upgrade_row(settings: SettingsView) -> Option<RowView> {
    match (settings.restart, settings.update) {
        (Some(_), _) => Some(
            RowView::Action("Restart to update"@, ActionView::RestartToUpdate),
        ),
        (None, Some((version, url))) => Some(
            RowView::Action("⬆ Update available: v"@ + version, ActionView::OpenUrl(url)),
        ),
        (None, None) => None,
    }
}

/// The rows of the menu.
pub open spec fn menu_rows(
    snapshot: SnapshotView,
    settings: SettingsView,
    tz: jiff::tz::TimeZone,
    now: Timestamp,
    env: MenuEnv,
) -> Seq<RowView> {
    let rows = seq![
        RowView::Info(metric_text("Session"@, snapshot.session, now, tz)),
        RowView::Info(metric_text("Weekly"@, snapshot.weekly, now, tz)),
        RowView::Info(status_text(snapshot, now)),
    ];
    let rows = if snapshot.state == SnapshotState::Missing {
        rows.push(RowView::Action("Install hook"@, ActionView::InstallHook))
    } else {
        rows
    };
    let rows = rows.push(RowView::Separator);
    let rows = match upgrade_row(settings) {
        Some(row) => rows.push(row),
        None => rows,
    };
    rows.push(RowView::SubMenu("Settings"@, settings_rows(settings, env))).push(
        RowView::Action("Check for new data"@, ActionView::Refresh),
    ).push(RowView::Action("Quit"@, ActionView::Quit))
}

/// Adds a row.
fn push_row(rows: &mut Vec<MenuRow>, row: MenuRow)
    ensures
        row_views(final(rows)@) == row_views(old(rows)@).push(row.shown()),
{
    proof {
        row_views_push(rows@, row);
    }
    rows.push(row);
}

impl TrayCore {
    /// The `Notifications` submenu. With settings that cannot be written its
    /// entries are grayed.
    fn notifications_menu(&self, enabled: bool) -> (row: MenuRow)
        ensures
            row.shown() == notifications_row(self.settings@.config, enabled),
    {
        let mut rows: Vec<MenuRow> = Vec::new();
        let mut i: usize = 0;
        while i < NOTIFY_THRESHOLDS.len()
            invariant
                i <= NOTIFY_THRESHOLDS@.len(),
                row_views(rows@) == threshold_rows(self.settings@.config, i as nat, enabled),
            decreases NOTIFY_THRESHOLDS@.len() - i,
        {
            let threshold = NOTIFY_THRESHOLDS[i];
            let mut label = "At ".to_owned();
            let number = nat_text(threshold as u64);
            label.append(number.as_str());
            label.append("%");
            let checked = self.settings.config.notifies_at(threshold);
            push_row(
                &mut rows,
                MenuRow::check(
                    label.as_str(),
                    MenuAction::ToggleThreshold(threshold),
                    checked,
                    enabled,
                ),
            );
            i = i + 1;
        }
        push_row(&mut rows, MenuRow::Separator);
        push_row(
            &mut rows,
            MenuRow::check(
                "When quota resets",
                MenuAction::ToggleNotifyOnReset,
                self.settings.config.notify_on_reset,
                enabled,
            ),
        );
        MenuRow::SubMenu { label: "Notifications".to_owned(), rows }
    }

    /// The intervals that can be chosen.
    fn interval_choices(enabled: bool) -> (options: Vec<RadioOption>)
        ensures
            option_views(options@) == interval_options(enabled),
    {
        let mut options: Vec<RadioOption> = Vec::new();
        let mut i: usize = 0;
        let ghost all = interval_options(enabled);
        while i < REFRESH_CHOICES.len()
            invariant
                i <= REFRESH_CHOICES@.len(),
                all == interval_options(enabled),
                option_views(options@) == all.take(i as int),
            decreases REFRESH_CHOICES@.len() - i,
        {
            let mut label = nat_text(REFRESH_CHOICES[i]);
            label.append(" s");
            let ghost before = options@;
            let option = RadioOption { label, enabled };
            proof {
                assert(option_views(before.push(option)) == option_views(before).push(
                    (option.label@, option.enabled),
                ));
                assert(all.take(i as int + 1) == all.take(i as int).push(all[i as int]));
            }
            options.push(option);
            i = i + 1;
        }
        proof {
            assert(all.take(i as int) == all);
        }
        options
    }

    /// The styles that can be chosen.
    fn style_choices(enabled: bool) -> (options: Vec<RadioOption>)
        ensures
            option_views(options@) == style_options(enabled),
    {
        let mut options: Vec<RadioOption> = Vec::new();
        let mut i: usize = 0;
        let ghost all = style_options(enabled);
        while i < IconStyle::ALL.len()
            invariant
                i <= IconStyle::ALL@.len(),
                all == style_options(enabled),
                option_views(options@) == all.take(i as int),
            decreases IconStyle::ALL@.len() - i,
        {
            let style = IconStyle::ALL[i];
            let ghost before = options@;
            let option = RadioOption { label: style.label().to_owned(), enabled };
            proof {
                assert(option_views(before.push(option)) == option_views(before).push(
                    (option.label@, option.enabled),
                ));
                assert(all.take(i as int + 1) == all.take(i as int).push(all[i as int]));
            }
            options.push(option);
            i = i + 1;
        }
        proof {
            assert(all.take(i as int) == all);
        }
        options
    }

    /// The `Settings` submenu.
    fn settings_menu(&self, env: MenuEnv) -> (row: MenuRow)
        ensures
            row.shown() == RowView::SubMenu("Settings"@, settings_rows(self.settings@, env)),
    {
        let can_persist = env.can_persist;
        let mut rows: Vec<MenuRow> = Vec::new();
        push_row(
            &mut rows,
            MenuRow::check(
                "Launch at login",
                MenuAction::ToggleLaunchAtLogin,
                env.autostart_enabled,
                env.autostart_available,
            ),
        );
        push_row(&mut rows, MenuRow::Separator);
        push_row(&mut rows, self.notifications_menu(can_persist));
        push_row(&mut rows, MenuRow::Separator);
        push_row(&mut rows, MenuRow::info("Refresh interval".to_owned()));
        push_row(
            &mut rows,
            MenuRow::Radio {
                group: RadioGroup::RefreshInterval,
                selected: self.settings.config.refresh_choice(),
                options: TrayCore::interval_choices(can_persist),
            },
        );
        push_row(&mut rows, MenuRow::Separator);
        push_row(&mut rows, MenuRow::info("Icon style".to_owned()));
        push_row(
            &mut rows,
            MenuRow::Radio {
                group: RadioGroup::IconStyle,
                selected: self.settings.config.icon_style.choice(),
                options: TrayCore::style_choices(can_persist),
            },
        );
        proof {
            let config = self.settings@.config;
            assert(row_views(rows@) =~= seq![
                RowView::Check {
                    label: "Launch at login"@,
                    action: ActionView::ToggleLaunchAtLogin,
                    checked: env.autostart_enabled,
                    enabled: env.autostart_available,
                },
                RowView::Separator,
                notifications_row(config, env.can_persist),
                RowView::Separator,
                RowView::Info("Refresh interval"@),
                RowView::Radio {
                    group: RadioGroup::RefreshInterval,
                    selected: interval_position(config.refresh_secs),
                    options: interval_options(env.can_persist),
                },
                RowView::Separator,
                RowView::Info("Icon style"@),
                RowView::Radio {
                    group: RadioGroup::IconStyle,
                    selected: config.icon_style.position(),
                    options: style_options(env.can_persist),
                },
            ]);
        }
        if self.settings.env_locked {
            let mut note = "(CLAUDE_TRAY_POLL_SECS=".to_owned();
            let secs = nat_text(self.settings.interval);
            note.append(secs.as_str());
            note.append(" is in effect)");
            push_row(&mut rows, MenuRow::info(note));
        }
        push_row(&mut rows, MenuRow::Separator);
        push_row(
            &mut rows,
            MenuRow::check(
                "Check for updates",
                MenuAction::ToggleCheckUpdates,
                self.settings.config.check_updates,
                can_persist,
            ),
        );
        MenuRow::SubMenu { label: "Settings".to_owned(), rows }
    }

    /// The menu at a given time and in given surroundings.
    pub fn menu_with(&self, now: Timestamp, env: MenuEnv) -> (rows: Vec<MenuRow>)
        ensures
            row_views(rows@) == menu_rows(self.snapshot@, self.settings@, self.tz, now, env),
    {
        let mut rows: Vec<MenuRow> = Vec::new();
        let session = session_line(self.snapshot.session.as_ref(), now, &self.tz);
        push_row(&mut rows, MenuRow::info(session));
        let weekly = weekly_line(self.snapshot.weekly.as_ref(), now, &self.tz);
        push_row(&mut rows, MenuRow::info(weekly));
        let status = status_line(&self.snapshot, now, &self.tz);
        push_row(&mut rows, MenuRow::info(status));
        proof {
            assert(row_views(rows@) =~= seq![
                RowView::Info(metric_text("Session"@, self.snapshot@.session, now, self.tz)),
                RowView::Info(metric_text("Weekly"@, self.snapshot@.weekly, now, self.tz)),
                RowView::Info(status_text(self.snapshot@, now)),
            ]);
        }
        if shows_install_item(&self.snapshot.state) {
            push_row(
                &mut rows,
                MenuRow::action("Install hook".to_owned(), MenuAction::InstallHook),
            );
        }
        push_row(&mut rows, MenuRow::Separator);
        if self.settings.restart.get().is_some() {
            push_row(
                &mut rows,
                MenuRow::action("Restart to update".to_owned(), MenuAction::RestartToUpdate),
            );
        } else if let Some(update) = self.settings.update.get() {
            let label = update.label();
            push_row(&mut rows, MenuRow::action(label, MenuAction::OpenUrl(update.url)));
        }
        push_row(&mut rows, self.settings_menu(env));
        push_row(
            &mut rows,
            MenuRow::action("Check for new data".to_owned(), MenuAction::Refresh),
        );
        push_row(&mut rows, MenuRow::action("Quit".to_owned(), MenuAction::Quit));
        rows
    }
}

/// The menu opens with the two metrics and the freshness, and ends with the
/// settings, the refresh and the quit entries.
pub proof fn menu_opens_and_ends(
    snapshot: SnapshotView,
    settings: SettingsView,
    tz: jiff::tz::TimeZone,
    now: Timestamp,
    env: MenuEnv,
)
    ensures
        ({
            let rows = menu_rows(snapshot, settings, tz, now, env);
            let n = rows.len() as int;
            &&& rows[0] == RowView::Info(metric_text("Session"@, snapshot.session, now, tz))
            &&& rows[1] == RowView::Info(metric_text("Weekly"@, snapshot.weekly, now, tz))
            &&& rows[2] == RowView::Info(status_text(snapshot, now))
            &&& rows[n - 3] == RowView::SubMenu("Settings"@, settings_rows(settings, env))
            &&& rows[n - 2] == RowView::Action("Check for new data"@, ActionView::Refresh)
            &&& rows[n - 1] == RowView::Action("Quit"@, ActionView::Quit)
        }),
{
}

/// The hook can be installed from the menu exactly while there is no data, and
/// the entry stands right under the row that says so.
pub proof fn install_is_offered_without_data(
    snapshot: SnapshotView,
    settings: SettingsView,
    tz: jiff::tz::TimeZone,
    now: Timestamp,
    env: MenuEnv,
)
    ensures
        menu_rows(snapshot, settings, tz, now, env)[3] == RowView::Action(
            "Install hook"@,
            ActionView::InstallHook,
        ) <==> snapshot.state == SnapshotState::Missing,
        forall|i: int|
            0 <= i < menu_rows(snapshot, settings, tz, now, env).len() && (#[trigger] menu_rows(
                snapshot,
                settings,
                tz,
                now,
                env,
            )[i] matches RowView::Action(_, action) && action == ActionView::InstallHook) ==> i == 3
                && snapshot.state == SnapshotState::Missing,
{
}

/// Whether a row that stores a setting is usable exactly when `on`, and so are
/// the rows inside it. The autostart entry is no stored setting.
pub open spec fn usable_when(row: RowView, on: bool) -> bool
    decreases row,
{
    match row {
        RowView::Check { action, enabled, .. } => action == ActionView::ToggleLaunchAtLogin
            || enabled == on,
        RowView::Radio { options, .. } => forall|i: int|
            0 <= i < options.len() ==> (#[trigger] options[i]).1 == on,
        RowView::SubMenu(_, rows) => forall|i: int|
            0 <= i < rows.len() ==> usable_when(#[trigger] rows[i], on),
        _ => true,
    }
}

proof fn threshold_rows_usable(config: ConfigView, count: nat, on: bool)
    ensures
        threshold_rows(config, count, on).len() == count,
        forall|i: int|
            0 <= i < count ==> usable_when(#[trigger] threshold_rows(config, count, on)[i], on),
    decreases count,
{
    if count > 0 {
        threshold_rows_usable(config, (count - 1) as nat, on);
    }
}

/// With a settings file that cannot be written every entry that stores a
/// setting is grayed, and with one that can be written none is.
pub proof fn unwritable_settings_are_grayed(settings: SettingsView, env: MenuEnv)
    ensures
        usable_when(RowView::SubMenu("Settings"@, settings_rows(settings, env)), env.can_persist),
{
    let on = env.can_persist;
    let config = settings.config;
    threshold_rows_usable(config, NOTIFY_THRESHOLDS@.len(), on);
    let inner = notifications_row(config, on);
    if let RowView::SubMenu(_, rows) = inner {
        assert forall|i: int| 0 <= i < rows.len() implies usable_when(#[trigger] rows[i], on) by {
            let thresholds = threshold_rows(config, NOTIFY_THRESHOLDS@.len(), on);
            if i < thresholds.len() {
                assert(rows[i] == thresholds[i]);
            }
        }
    }
    assert(usable_when(inner, on));
    let rows = settings_rows(settings, env);
    assert forall|i: int| 0 <= i < rows.len() implies usable_when(#[trigger] rows[i], on) by {
        assert(rows[2] == inner);
    }
}

} // verus!
