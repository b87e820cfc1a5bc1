//! Laws of the settings and of the menu: what a click changes, what the menu
//! shows of it, and what a settings file says.

use vstd::prelude::*;
use vstd::string::*;

use crate::assistant::Assistant;
use crate::config::{
    config_dir_of, config_entries, config_file_says, config_in, config_text_says, default_config,
    interval_override, interval_position, known_thresholds, style_named, switched, ConfigView,
    IconStyle, NOTIFY_THRESHOLDS, REFRESH_CHOICES,
};
use crate::files::FileRead;
use crate::icon::IconAppearance;
use crate::menu::{ActionView, RadioGroup, RowView};
use crate::paths::joined_path;
use crate::source::{SnapshotState, SnapshotView};
use crate::table::{entry_views, list_view, lookup, parsed_toml, Setting, SettingView};
use crate::text::{digits, trimmed, unsigned};
use crate::time::Timestamp;
use crate::ui::settings::{appearance_of, initial_settings, report_matters, SettingsView};
use crate::ui::tray_core::{
    autostart_done, clicked, interval_options, menu_rows, notifications_row, selected,
    settings_rows, style_options, threshold_row, threshold_rows, upgrade_row, EffectView, MenuEnv,
    Wake,
};

verus! {

// ---------------------------------------------------------------------------
// Settings
// ---------------------------------------------------------------------------

/// A tray that has nothing stored looks every five seconds, notifies at every
/// threshold and at resets, checks for updates, and neither starts with the
/// session nor runs the CLI. Its icon is colored, but on macOS monochrome.
pub proof fn defaults_are_modest(macos: bool)
    ensures
        ({
            let config = default_config(macos);
            &&& config.refresh_secs == 5
            &&& !config.launch_at_login
            &&& config.notify_thresholds == seq![50u8, 75, 90, 99, 100]
            &&& config.notify_on_reset
            &&& config.check_updates
            &&& !config.cli_refresh
            &&& macos ==> config.icon_style == IconStyle::MonoAuto
            &&& !macos ==> config.icon_style == IconStyle::Color
        }),
{
    assert(NOTIFY_THRESHOLDS@ =~= seq![50u8, 75, 90, 99, 100]);
}

/// A tray starts with what is stored, but for the interval where the environment
/// sets one; on a desktop that has not reported it takes a dark one; and there is
/// no update and no restart yet.
pub proof fn tray_starts_as_stored(config: ConfigView, secs: u64)
    ensures
        initial_settings(config, None).interval == config.refresh_secs,
        !initial_settings(config, None).env_locked,
        initial_settings(config, Some(secs)).interval == secs,
        initial_settings(config, Some(secs)).env_locked,
        ({
            let settings = initial_settings(config, Some(secs));
            &&& settings.config == config
            &&& settings.notify.thresholds == config.notify_thresholds
            &&& settings.notify.on_reset == config.notify_on_reset
            &&& settings.appearance.style == config.icon_style
            &&& settings.appearance.portal_dark
            &&& settings.check_updates == config.check_updates
            &&& settings.cli_refresh == config.cli_refresh
            &&& settings.update is None
            &&& settings.restart is None
            &&& initial_settings(config, None) == (SettingsView {
                interval: config.refresh_secs,
                env_locked: false,
                ..settings
            })
        }),
{
}

/// The environment sets the interval exactly where it holds a positive number,
/// white space around it aside; then it is that number.
pub proof fn environment_sets_the_interval(text: &str)
    ensures
        interval_override(None) is None,
        interval_override(Some(text)) is Some <==> (unsigned(trimmed(text@)) matches Some(n) && n
            != 0),
        interval_override(Some(text)) matches Some(secs) ==> unsigned(trimmed(text@)) == Some(secs)
            && secs > 0,
{
}

/// Each style has the appearance that its name says, and only the automatic one
/// follows the desktop.
pub proof fn style_has_its_appearance(dark: bool)
    ensures
        appearance_of(IconStyle::Color, dark) == IconAppearance::Color,
        appearance_of(IconStyle::MonoDark, dark) == (IconAppearance::Mono { dark_ui: true }),
        appearance_of(IconStyle::MonoLight, dark) == (IconAppearance::Mono { dark_ui: false }),
        appearance_of(IconStyle::MonoAuto, dark) == (IconAppearance::Mono { dark_ui: dark }),
{
}

/// What the desktop reports changes the icon exactly where the style is the
/// automatic one and the report is another than before.
pub proof fn report_matters_to_the_automatic_style(style: IconStyle, before: bool, after: bool)
    ensures
        report_matters(style, before, after) <==> style == IconStyle::MonoAuto && before != after,
{
}

/// The names that the settings file has for the styles, and no others.
pub proof fn style_is_read_by_its_name(name: Seq<char>, style: IconStyle)
    ensures
        style_named("color"@) == Some(IconStyle::Color),
        style_named("mono-auto"@) == Some(IconStyle::MonoAuto),
        style_named("mono-dark"@) == Some(IconStyle::MonoDark),
        style_named("mono-light"@) == Some(IconStyle::MonoLight),
        style_named(name) == Some(style) <==> name == style.stored_name(),
{
    reveal_strlit("color");
    reveal_strlit("mono-auto");
    reveal_strlit("mono-dark");
    reveal_strlit("mono-light");
    assert("color"@.len() == 5 && "mono-auto"@.len() == 9 && "mono-dark"@.len() == 9
        && "mono-light"@.len() == 10);
    assert("mono-auto"@[5] == 'a' && "mono-dark"@[5] == 'd');
}

/// An interval shows as chosen exactly where it can be chosen; any other shows
/// the default.
pub proof fn interval_is_shown_as_chosen(secs: u64, index: int)
    ensures
        0 <= interval_position(secs) < REFRESH_CHOICES@.len(),
        REFRESH_CHOICES@.contains(secs) ==> REFRESH_CHOICES@[interval_position(secs)] == secs,
        !REFRESH_CHOICES@.contains(secs) ==> REFRESH_CHOICES@[interval_position(secs)] == 5,
        REFRESH_CHOICES@ == seq![5u64, 15, 30, 60],
        0 <= index < REFRESH_CHOICES@.len() ==> interval_position(REFRESH_CHOICES@[index]) == index,
{
    assert(REFRESH_CHOICES@ =~= seq![5u64, 15, 30, 60]);
    assert(REFRESH_CHOICES@[0] == 5 && REFRESH_CHOICES@[1] == 15 && REFRESH_CHOICES@[2] == 30
        && REFRESH_CHOICES@[3] == 60);
}

/// A settings file says what stands in it under the setting's own key, where that
/// is of the right type; each setting by itself.
pub proof fn setting_is_read_under_its_key(
    table: Map<Seq<char>, SettingView>,
    defaults: ConfigView,
    n: int,
    flag: bool,
    list: Seq<int>,
    style: IconStyle,
)
    ensures
        ({
            let config = config_in(table, defaults);
            &&& lookup(table, "refresh_secs"@) == Some(SettingView::Int(n)) && 1 <= n <= i64::MAX
                ==> config.refresh_secs == n
            &&& lookup(table, "refresh_secs"@) == Some(SettingView::Int(n)) && n <= 0
                ==> config.refresh_secs == defaults.refresh_secs
            &&& lookup(table, "launch_at_login"@) == Some(SettingView::Bool(flag))
                ==> config.launch_at_login == flag
            &&& lookup(table, "notify_thresholds"@) == Some(SettingView::Ints(list))
                ==> forall|t: u8|
                config.notify_thresholds.contains(t) <==> #[trigger] list.contains(t as int) && (t
                    == 50 || t == 75 || t == 90 || t == 99 || t == 100)
            &&& lookup(table, "notify_on_reset"@) == Some(SettingView::Bool(flag))
                ==> config.notify_on_reset == flag
            &&& lookup(table, "icon_style"@) == Some(SettingView::Text(style.stored_name()))
                ==> config.icon_style == style
            &&& lookup(table, "check_updates"@) == Some(SettingView::Bool(flag))
                ==> config.check_updates == flag
            &&& lookup(table, "cli_refresh"@) == Some(SettingView::Bool(flag))
                ==> config.cli_refresh == flag
        }),
{
    style_is_read_by_its_name(style.stored_name(), style);
    assert forall|t: u8|
        known_thresholds(list).contains(t) <==> #[trigger] list.contains(t as int) && (t == 50 || t
            == 75 || t == 90 || t == 99 || t == 100) by {
        crate::config::kept_members(
            NOTIFY_THRESHOLDS@,
            crate::config::among_rule(list),
            t,
        );
        crate::laws::alerts::thresholds_that_can_be_chosen(t);
    }
}

/// A list in a settings file says its numbers, in their order, where it holds
/// nothing else; of two entries with one key the later counts.
pub proof fn list_says_its_numbers(
    items: Seq<Option<i64>>,
    i: int,
    entries: Seq<(String, Setting)>,
    last: (String, Setting),
    key: Seq<char>,
)
    ensures
        (forall|k: int| 0 <= k < items.len() ==> (#[trigger] items[k]) is Some) ==> (list_view(
            items,
        ) matches SettingView::Ints(numbers) && numbers.len() == items.len() && (0 <= i
            < items.len() ==> numbers[i] == items[i]->0)),
        (exists|k: int| 0 <= k < items.len() && (#[trigger] items[k]) is None) ==> !(list_view(
            items,
        ) is Ints),
        lookup(entry_views(entries.push(last)), last.0@) == Some(last.1@),
        key != last.0@ ==> lookup(entry_views(entries.push(last)), key) == lookup(
            entry_views(entries),
            key,
        ),
        lookup(entry_views(Seq::empty()), key) is None,
{
    assert(entries.push(last).drop_last() =~= entries);
}

/// What a settings file does not say, or says in another type, is its default.
pub proof fn absent_setting_is_its_default(
    table: Map<Seq<char>, SettingView>,
    defaults: ConfigView,
)
    ensures
        ({
            let config = config_in(table, defaults);
            let interval = lookup(table, "refresh_secs"@);
            let login = lookup(table, "launch_at_login"@);
            let thresholds = lookup(table, "notify_thresholds"@);
            let reset = lookup(table, "notify_on_reset"@);
            let style = lookup(table, "icon_style"@);
            let updates = lookup(table, "check_updates"@);
            let refresh = lookup(table, "cli_refresh"@);
            &&& interval is None || !(interval->0 is Int) ==> config.refresh_secs
                == defaults.refresh_secs
            &&& login is None || !(login->0 is Bool) ==> config.launch_at_login
                == defaults.launch_at_login
            &&& thresholds is None || !(thresholds->0 is Ints) ==> config.notify_thresholds
                == defaults.notify_thresholds
            &&& reset is None || !(reset->0 is Bool) ==> config.notify_on_reset
                == defaults.notify_on_reset
            &&& style is None || !(style->0 is Text) || style_named(style->0->Text_0) is None
                ==> config.icon_style == defaults.icon_style
            &&& updates is None || !(updates->0 is Bool) ==> config.check_updates
                == defaults.check_updates
            &&& refresh is None || !(refresh->0 is Bool) ==> config.cli_refresh
                == defaults.cli_refresh
        }),
{
}

/// A text that is no settings file stands for the defaults, as does a file that
/// cannot be read.
pub proof fn unreadable_settings_are_the_defaults(text: Seq<char>, file: FileRead, macos: bool)
    ensures
        !(file is Text) ==> config_file_says(file, macos) == default_config(macos),
        file matches FileRead::Text(body) ==> config_file_says(file, macos) == config_text_says(
            body@,
            macos,
        ),
        parsed_toml(text) is None ==> config_text_says(text, macos) == default_config(macos),
        parsed_toml(text) matches Some(table) ==> config_text_says(text, macos) == config_in(
            table,
            default_config(macos),
        ),
{
}

/// The settings file holds the interval and the launch-at-login flag, and each
/// of the others where it is not the default: the first two always, and nothing
/// that is as it would be without.
pub proof fn settings_file_holds_what_was_changed(config: ConfigView, macos: bool)
    ensures
        ({
            let e = config_entries(config, macos);
            let all = config.notify_thresholds == seq![50u8, 75, 90, 99, 100];
            let style = if macos {
                IconStyle::MonoAuto
            } else {
                IconStyle::Color
            };
            let a = if all {
                0int
            } else {
                1
            };
            let b = if config.notify_on_reset {
                0int
            } else {
                1
            };
            let c = if config.icon_style == style {
                0int
            } else {
                1
            };
            let d = if config.check_updates {
                0int
            } else {
                1
            };
            let f = if config.cli_refresh {
                1int
            } else {
                0
            };
            &&& e.len() == 2 + a + b + c + d + f
            &&& e[0] == ("refresh_secs"@, SettingView::Int(config.refresh_secs as int))
            &&& e[1] == ("launch_at_login"@, SettingView::Bool(config.launch_at_login))
            &&& a == 1 ==> e[2].0 == "notify_thresholds"@
            &&& b == 1 ==> e[2 + a] == ("notify_on_reset"@, SettingView::Bool(false))
            &&& c == 1 ==> e[2 + a + b] == (
                "icon_style"@,
                SettingView::Text(config.icon_style.stored_name()),
            )
            &&& d == 1 ==> e[2 + a + b + c] == ("check_updates"@, SettingView::Bool(false))
            &&& f == 1 ==> e[2 + a + b + c + d] == ("cli_refresh"@, SettingView::Bool(true))
        }),
{
    assert(NOTIFY_THRESHOLDS@ =~= seq![50u8, 75, 90, 99, 100]);
}

/// The thresholds that are on stay in their order, each of them once.
pub proof fn thresholds_stay_in_order(thresholds: Seq<u8>, threshold: u8, on: bool)
    ensures
        forall|i: int, j: int|
            0 <= i < j < switched(thresholds, threshold, on).len() ==> (#[trigger] switched(
                thresholds,
                threshold,
                on,
            )[i]) < #[trigger] switched(thresholds, threshold, on)[j],
{
    assert(NOTIFY_THRESHOLDS@ =~= seq![50u8, 75, 90, 99, 100]);
    kept_in_order(
        NOTIFY_THRESHOLDS@,
        crate::config::switch_rule(thresholds, threshold, on),
    );
}

/// What is kept of a rising list rises.
proof fn kept_in_order(s: Seq<u8>, p: spec_fn(u8) -> bool)
    requires
        forall|i: int, j: int| 0 <= i < j < s.len() ==> (#[trigger] s[i]) < #[trigger] s[j],
    ensures
        forall|i: int, j: int|
            0 <= i < j < crate::config::kept(s, p).len() ==> (#[trigger] crate::config::kept(s, p)[i])
                < #[trigger] crate::config::kept(s, p)[j],
    decreases s.len(),
{
    if s.len() > 0 {
        let head = s.drop_last();
        kept_in_order(head, p);
        let before = crate::config::kept(head, p);
        let all = crate::config::kept(s, p);
        assert forall|i: int| 0 <= i < before.len() implies (#[trigger] before[i]) < s.last() by {
            crate::config::kept_members(head, p, before[i]);
            assert(before.contains(before[i]));
            let k = choose|k: int| 0 <= k < head.len() && head[k] == before[i];
            assert(s[k] == before[i]);
            assert(s[s.len() - 1] == s.last());
        }
        assert forall|i: int, j: int| 0 <= i < j < all.len() implies (#[trigger] all[i])
            < #[trigger] all[j] by {
            assert(all[i] == before[i]);
            if j < before.len() {
                assert(all[j] == before[j]);
            }
        }
    }
}

/// The settings file stands in the tray's own directory, inside that of all
/// programs, or inside the current one.
pub proof fn settings_have_their_directory(home: &str, assistant: Assistant)
    ensures
        config_dir_of(Some(home), assistant) == joined_path(home@, assistant.program()),
        config_dir_of(None, assistant) == joined_path("."@, assistant.program()),
{
}

// ---------------------------------------------------------------------------
// Clicks
// ---------------------------------------------------------------------------

/// What a click asks for goes to the poll loop, to the browser, or into a
/// restart, and changes no setting.
pub proof fn command_changes_no_setting(settings: SettingsView, url: Seq<char>, autostart: bool)
    ensures
        ({
            let install = clicked(settings, ActionView::InstallHook, autostart);
            &&& install.settings == settings
            &&& install.effects == seq![EffectView::Send(Wake::InstallHook)]
        }),
        ({
            let open = clicked(settings, ActionView::OpenUrl(url), autostart);
            &&& open.settings == settings
            &&& open.effects == seq![EffectView::Open(url)]
        }),
        ({
            let restart = clicked(settings, ActionView::RestartToUpdate, autostart);
            &&& restart.settings == settings
            &&& settings.restart matches Some(path) ==> restart.effects == seq![
                EffectView::Restart(path),
            ]
            &&& settings.restart is None ==> restart.effects.len() == 0
        }),
        ({
            let refresh = clicked(settings, ActionView::Refresh, autostart);
            &&& refresh.settings == settings
            &&& refresh.effects == seq![EffectView::Send(Wake::Refresh)]
        }),
        ({
            let quit = clicked(settings, ActionView::Quit, autostart);
            &&& quit.settings == settings
            &&& quit.effects == seq![EffectView::Send(Wake::Quit)]
        }),
        ({
            let login = clicked(settings, ActionView::ToggleLaunchAtLogin, autostart);
            &&& login.settings == settings
            &&& login.effects == seq![EffectView::SetAutostart(!autostart)]
        }),
{
}

/// A click on a threshold flips that one and no other, stores it and puts it into
/// effect, and tells the poll loop. Nothing else changes.
pub proof fn threshold_is_flipped(
    settings: SettingsView,
    threshold: u8,
    other: u8,
    autostart: bool,
)
    requires
        NOTIFY_THRESHOLDS@.contains(threshold),
        NOTIFY_THRESHOLDS@.contains(other),
    ensures
        ({
            let change = clicked(settings, ActionView::ToggleThreshold(threshold), autostart);
            let old = settings.config.notify_thresholds;
            let new = change.settings.config.notify_thresholds;
            &&& new.contains(threshold) <==> !old.contains(threshold)
            &&& other != threshold ==> (new.contains(other) <==> old.contains(other))
            &&& change.settings.notify.thresholds == new
            &&& change.settings.notify.on_reset == settings.config.notify_on_reset
            &&& change.settings == (SettingsView {
                config: ConfigView { notify_thresholds: new, ..settings.config },
                notify: change.settings.notify,
                ..settings
            })
            &&& change.effects == seq![EffectView::Save, EffectView::Send(Wake::NotifyChanged)]
        }),
{
    crate::config::switching_changes_one(
        settings.config.notify_thresholds,
        threshold,
        !settings.config.notify_thresholds.contains(threshold),
        other,
    );
}

/// A click on a switch flips it, stores it and puts it into effect. Nothing else
/// changes, and only for a notification is the poll loop told.
pub proof fn switch_is_flipped(settings: SettingsView, autostart: bool)
    ensures
        ({
            let change = clicked(settings, ActionView::ToggleNotifyOnReset, autostart);
            let on = !settings.config.notify_on_reset;
            &&& change.settings.config == (ConfigView { notify_on_reset: on, ..settings.config })
            &&& change.settings.notify.on_reset == on
            &&& change.settings.notify.thresholds == settings.config.notify_thresholds
            &&& change.settings == (SettingsView {
                config: change.settings.config,
                notify: change.settings.notify,
                ..settings
            })
            &&& change.effects == seq![EffectView::Save, EffectView::Send(Wake::NotifyChanged)]
        }),
        ({
            let change = clicked(settings, ActionView::ToggleCheckUpdates, autostart);
            let on = !settings.config.check_updates;
            &&& change.settings.config == (ConfigView { check_updates: on, ..settings.config })
            &&& change.settings == (SettingsView {
                config: change.settings.config,
                check_updates: on,
                ..settings
            })
            &&& change.effects == seq![EffectView::Save]
        }),
        ({
            let change = clicked(settings, ActionView::ToggleCliRefresh, autostart);
            let on = !settings.config.cli_refresh;
            &&& change.settings.config == (ConfigView { cli_refresh: on, ..settings.config })
            &&& change.settings == (SettingsView {
                config: change.settings.config,
                cli_refresh: on,
                ..settings
            })
            &&& change.effects == seq![EffectView::Save]
        }),
{
}

/// Autostart is recorded exactly where switching it worked.
pub proof fn autostart_is_recorded_where_it_worked(settings: SettingsView, wanted: bool)
    ensures
        autostart_done(settings, wanted, false).settings == settings,
        autostart_done(settings, wanted, false).effects.len() == 0,
        autostart_done(settings, wanted, true).settings.config == (ConfigView {
            launch_at_login: wanted,
            ..settings.config
        }),
        autostart_done(settings, wanted, true).settings == (SettingsView {
            config: autostart_done(settings, wanted, true).settings.config,
            ..settings
        }),
        autostart_done(settings, wanted, true).effects == seq![EffectView::Save],
{
}

/// Choosing another interval stores the one that the menu offers there. It counts
/// from now on, and the poll loop is told, unless the environment sets the
/// interval. Choosing the present one, or none that is offered, does nothing.
pub proof fn chosen_interval_is_the_one_offered(
    settings: SettingsView,
    index: int,
    usable: bool,
)
    ensures
        ({
            let change = selected(settings, RadioGroup::RefreshInterval, index);
            let offered = interval_options(usable);
            let now = settings.config.refresh_secs;
            let new = change.settings.config.refresh_secs;
            &&& offered.len() == 4
            &&& !(0 <= index < 4) ==> change.settings == settings && change.effects.len() == 0
            &&& 0 <= index < 4 ==> {
                &&& offered[index].0 == digits(new as nat) + " s"@
                &&& offered[index].1 == usable
                &&& new == (if index == 0 {
                    5u64
                } else if index == 1 {
                    15
                } else if index == 2 {
                    30
                } else {
                    60
                })
                &&& change.settings.config == (ConfigView { refresh_secs: new, ..settings.config })
                &&& new == now ==> change.settings == settings && change.effects.len() == 0
                &&& new != now && settings.env_locked ==> change.settings == (SettingsView {
                    config: change.settings.config,
                    ..settings
                }) && change.effects == seq![EffectView::Save]
                &&& new != now && !settings.env_locked ==> change.settings == (SettingsView {
                    config: change.settings.config,
                    interval: new,
                    ..settings
                }) && change.effects == seq![
                    EffectView::Save,
                    EffectView::Send(Wake::IntervalChanged),
                ]
            }
        }),
{
    assert(REFRESH_CHOICES@ =~= seq![5u64, 15, 30, 60]);
}

/// Choosing another style stores the one that the menu offers there and draws
/// with it, and the icon is painted anew exactly where it looks different.
pub proof fn chosen_style_is_the_one_offered(settings: SettingsView, index: int, usable: bool)
    ensures
        ({
            let change = selected(settings, RadioGroup::IconStyle, index);
            let offered = style_options(usable);
            let new = change.settings.config.icon_style;
            let dark = settings.appearance.portal_dark;
            &&& offered.len() == 4
            &&& !(0 <= index < 4) ==> change.settings == settings && change.effects.len() == 0
            &&& 0 <= index < 4 ==> {
                &&& offered[index].0 == new.menu_label()
                &&& offered[index].1 == usable
                &&& index == 0 ==> offered[index].0 == "Color"@ && new == IconStyle::Color
                &&& index == 1 ==> offered[index].0 == "Monochrome (auto)"@ && new
                    == IconStyle::MonoAuto
                &&& index == 2 ==> offered[index].0 == "Monochrome (dark)"@ && new
                    == IconStyle::MonoDark
                &&& index == 3 ==> offered[index].0 == "Monochrome (light)"@ && new
                    == IconStyle::MonoLight
                &&& new.position() == index
                &&& change.settings.config == (ConfigView { icon_style: new, ..settings.config })
                &&& new == settings.config.icon_style ==> change.settings == settings
                    && change.effects.len() == 0
                &&& new != settings.config.icon_style ==> {
                    &&& change.settings.appearance.style == new
                    &&& change.settings.appearance.portal_dark == dark
                    &&& change.settings == (SettingsView {
                        config: change.settings.config,
                        appearance: change.settings.appearance,
                        ..settings
                    })
                    &&& change.effects == (if appearance_of(new, dark) == appearance_of(
                        settings.appearance.style,
                        dark,
                    ) {
                        seq![EffectView::Save]
                    } else {
                        seq![EffectView::Save, EffectView::Send(Wake::AppearanceChanged)]
                    })
                }
            }
        }),
{
    assert(IconStyle::ALL@ =~= seq![
        IconStyle::Color,
        IconStyle::MonoAuto,
        IconStyle::MonoDark,
        IconStyle::MonoLight,
    ]);
}

// ---------------------------------------------------------------------------
// The menu
// ---------------------------------------------------------------------------

/// An upgrade that is installed already is offered as a restart, and one that is
/// only known of as a link to its page.
pub proof fn upgrade_is_offered(
    settings: SettingsView,
    path: Seq<char>,
    version: Seq<char>,
    url: Seq<char>,
)
    ensures
        settings.restart == Some(path) ==> upgrade_row(settings) == Some(
            RowView::Action("Restart to update"@, ActionView::RestartToUpdate),
        ),
        settings.restart is None && settings.update == Some((version, url)) ==> upgrade_row(
            settings,
        ) == Some(
            RowView::Action("⬆ Update available: v"@ + version, ActionView::OpenUrl(url)),
        ),
        settings.restart is None && settings.update is None ==> upgrade_row(settings) is None,
{
}

/// The menu holds each of its rows in its place: the install entry only without
/// data, and the upgrade only where there is one, right under the first divider.
pub proof fn menu_holds_its_rows(
    snapshot: SnapshotView,
    settings: SettingsView,
    tz: jiff::tz::TimeZone,
    now: Timestamp,
    env: MenuEnv,
)
    ensures
        ({
            let rows = menu_rows(snapshot, settings, tz, now, env);
            let missing = if snapshot.state == SnapshotState::Missing {
                1int
            } else {
                0
            };
            let upgrade = if settings.restart is Some || settings.update is Some {
                1int
            } else {
                0
            };
            &&& rows.len() == 7 + missing + upgrade
            &&& missing == 1 ==> rows[3] == RowView::Action(
                "Install hook"@,
                ActionView::InstallHook,
            )
            &&& rows[3 + missing] == RowView::Separator
            &&& upgrade == 1 ==> Some(rows[4 + missing]) == upgrade_row(settings)
        }),
{
}

/// The rows of the thresholds: each in its place, ticked exactly where it is on.
proof fn threshold_rows_are_in_order(config: ConfigView, count: nat, usable: bool, i: int)
    requires
        0 <= i < count <= 5,
    ensures
        threshold_rows(config, count, usable).len() == count,
        threshold_rows(config, count, usable)[i] == threshold_row(
            config,
            NOTIFY_THRESHOLDS@[i],
            usable,
        ),
    decreases count,
{
    if count > 1 {
        if i < count - 1 {
            threshold_rows_are_in_order(config, (count - 1) as nat, usable, i);
        } else {
            threshold_rows_are_in_order(config, (count - 1) as nat, usable, 0);
        }
    } else {
        assert(threshold_rows(config, 0, usable).len() == 0);
    }
}

/// The notifications menu has a checkbox for each threshold, in their order, and
/// one for resets behind a divider. A box is ticked exactly where the setting is
/// on, says which threshold it is for, and switches that one.
pub proof fn notifications_are_shown_as_stored(config: ConfigView, usable: bool, i: int)
    requires
        0 <= i < 5,
    ensures
        ({
            let t = seq![50u8, 75, 90, 99, 100][i];
            &&& notifications_row(config, usable) matches RowView::SubMenu(label, rows)
            &&& label == "Notifications"@
            &&& rows.len() == 7
            &&& rows[i] == (RowView::Check {
                label: "At "@ + digits(t as nat) + "%"@,
                action: ActionView::ToggleThreshold(t),
                checked: config.notify_thresholds.contains(t),
                enabled: usable,
            })
            &&& rows[5] == RowView::Separator
            &&& rows[6] == (RowView::Check {
                label: "When quota resets"@,
                action: ActionView::ToggleNotifyOnReset,
                checked: config.notify_on_reset,
                enabled: usable,
            })
        }),
{
    assert(NOTIFY_THRESHOLDS@ =~= seq![50u8, 75, 90, 99, 100]);
    threshold_rows_are_in_order(config, 5, usable, i);
}

/// The settings menu shows what is stored: autostart as the system has it, the
/// interval and the style as chosen, the update check as it is switched. It says
/// where the environment sets the interval, and only there.
pub proof fn settings_are_shown_as_stored(settings: SettingsView, env: MenuEnv)
    ensures
        ({
            let config = settings.config;
            let rows = settings_rows(settings, env);
            let locked = if settings.env_locked {
                1int
            } else {
                0
            };
            &&& rows.len() == 11 + locked
            &&& rows[0] == (RowView::Check {
                label: "Launch at login"@,
                action: ActionView::ToggleLaunchAtLogin,
                checked: env.autostart_enabled,
                enabled: env.autostart_available,
            })
            &&& rows[2] == notifications_row(config, env.can_persist)
            &&& rows[4] == RowView::Info("Refresh interval"@)
            &&& rows[5] matches RowView::Radio { group, selected, options }
            &&& group == RadioGroup::RefreshInterval
            &&& options == interval_options(env.can_persist)
            &&& config.refresh_secs == 5 ==> selected == 0
            &&& config.refresh_secs == 15 ==> selected == 1
            &&& config.refresh_secs == 30 ==> selected == 2
            &&& config.refresh_secs == 60 ==> selected == 3
            &&& rows[7] == RowView::Info("Icon style"@)
            &&& rows[8] matches RowView::Radio { group, selected, options }
            &&& group == RadioGroup::IconStyle
            &&& options == style_options(env.can_persist)
            &&& options[selected].0 == config.icon_style.menu_label()
            &&& settings.env_locked ==> rows[9] == RowView::Info(
                "(CLAUDE_TRAY_POLL_SECS="@ + digits(settings.interval as nat) + " is in effect)"@,
            )
            &&& rows[10 + locked] == (RowView::Check {
                label: "Check for updates"@,
                action: ActionView::ToggleCheckUpdates,
                checked: config.check_updates,
                enabled: env.can_persist,
            })
        }),
{
    let style = settings.config.icon_style;
    assert(IconStyle::ALL@ =~= seq![
        IconStyle::Color,
        IconStyle::MonoAuto,
        IconStyle::MonoDark,
        IconStyle::MonoLight,
    ]);
    assert(style_options(env.can_persist)[style.position()].0 == style.menu_label());
}

} // verus!
