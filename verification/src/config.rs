//! Persisted user settings.
//!
//! The file holds the poll interval and the launch-at-login flag, and each of
//! the other settings where it differs from its default. Nothing here fails on
//! bad input: what cannot be read is its default.

use vstd::prelude::*;
use vstd::string::*;

use crate::assistant::Assistant;
use crate::files::FileRead;
use crate::paths::{join, joined_path};
use crate::table::{
    find, integers, line, lines_of, lookup, parse_table, parsed_toml, said_by, simple_lines, written,
    Setting, SettingView,
};
use crate::text::{
    decimal, nat_text, parse_unsigned, same_text, texts, trim, trimmed, unsigned,
};

verus! {

/// Poll interval used when none is stored, and when the stored one is
/// unusable.
pub const DEFAULT_REFRESH_SECS: u64 = 5;

/// The intervals that can be chosen, in seconds.
pub const REFRESH_CHOICES: [u64; 4] = [5, 15, 30, 60];

/// The session usage, in percent, at which a notification can be chosen.
pub const NOTIFY_THRESHOLDS: [u8; 5] = [50, 75, 90, 99, 100];

/// How the icon is drawn. The monochrome styles are named for the user's
/// desktop, not for the icon.
#[derive(Clone, Copy, Debug, PartialEq, Eq, Structural)]
pub enum IconStyle {
    Color,
    MonoAuto,
    MonoDark,
    MonoLight,
}

impl IconStyle {
    /// Every style, in the order in which they are offered.
    pub const ALL: [IconStyle; 4] = [
        IconStyle::Color,
        IconStyle::MonoAuto,
        IconStyle::MonoDark,
        IconStyle::MonoLight,
    ];

    /// Where the style stands among those offered.
    pub open spec fn position(self) -> int {
        match self {
            IconStyle::Color => 0,
            IconStyle::MonoAuto => 1,
            IconStyle::MonoDark => 2,
            IconStyle::MonoLight => 3,
        }
    }

    /// Where the style stands among those offered.
    pub fn choice(self) -> (index: usize)
        ensures
            index == self.position(),
            index < IconStyle::ALL@.len(),
            IconStyle::ALL@[index as int] == self,
    {
        match self {
            IconStyle::Color => 0,
            IconStyle::MonoAuto => 1,
            IconStyle::MonoDark => 2,
            IconStyle::MonoLight => 3,
        }
    }

    /// How the menu calls the style.
    pub open spec fn menu_label(self) -> Seq<char> {
        match self {
            IconStyle::Color => "Color"@,
            IconStyle::MonoAuto => "Monochrome (auto)"@,
            IconStyle::MonoDark => "Monochrome (dark)"@,
            IconStyle::MonoLight => "Monochrome (light)"@,
        }
    }

    /// How the menu calls the style.
    pub fn label(self) -> (label: &'static str)
        ensures
            label@ == self.menu_label(),
    {
        match self {
            IconStyle::Color => "Color",
            IconStyle::MonoAuto => "Monochrome (auto)",
            IconStyle::MonoDark => "Monochrome (dark)",
            IconStyle::MonoLight => "Monochrome (light)",
        }
    }

    /// How the settings file calls the style.
    pub open spec fn stored_name(self) -> Seq<char> {
        match self {
            IconStyle::Color => "color"@,
            IconStyle::MonoAuto => "mono-auto"@,
            IconStyle::MonoDark => "mono-dark"@,
            IconStyle::MonoLight => "mono-light"@,
        }
    }

    /// How the settings file calls the style.
    pub fn name(self) -> (name: &'static str)
        ensures
            name@ == self.stored_name(),
    {
        match self {
            IconStyle::Color => "color",
            IconStyle::MonoAuto => "mono-auto",
            IconStyle::MonoDark => "mono-dark",
            IconStyle::MonoLight => "mono-light",
        }
    }
}

/// User settings.
#[derive(Clone, Debug, PartialEq, Eq)]
pub struct Config {
    /// Seconds between reads of the cache.
    pub refresh_secs: u64,
    /// Whether the tray starts with the session.
    pub launch_at_login: bool,
    /// The thresholds that notify, out of [`NOTIFY_THRESHOLDS`].
    pub notify_thresholds: Vec<u8>,
    /// Whether a quota reset notifies.
    pub notify_on_reset: bool,
    pub icon_style: IconStyle,
    /// Whether the daily update check runs.
    pub check_updates: bool,
    /// Whether the usage record is kept fresh by running the CLI.
    pub cli_refresh: bool,
}

/// The contents of a [`Config`].
pub ghost struct ConfigView {
    pub refresh_secs: u64,
    pub launch_at_login: bool,
    pub notify_thresholds: Seq<u8>,
    pub notify_on_reset: bool,
    pub icon_style: IconStyle,
    pub check_updates: bool,
    pub cli_refresh: bool,
}

impl View for Config {
    type V = ConfigView;

    open spec fn view(&self) -> ConfigView {
        ConfigView {
            refresh_secs: self.refresh_secs,
            launch_at_login: self.launch_at_login,
            notify_thresholds: self.notify_thresholds@,
            notify_on_reset: self.notify_on_reset,
            icon_style: self.icon_style,
            check_updates: self.check_updates,
            cli_refresh: self.cli_refresh,
        }
    }
}

/// The icon style of a tray that has none stored: monochrome on macOS, where
/// the system tints the icon to match the menu bar, and color elsewhere.
pub open spec fn default_style(macos: bool) -> IconStyle {
    if macos {
        IconStyle::MonoAuto
    } else {
        IconStyle::Color
    }
}

/// The settings of a tray that has none stored.
pub open spec fn default_config(macos: bool) -> ConfigView {
    ConfigView {
        refresh_secs: DEFAULT_REFRESH_SECS,
        launch_at_login: false,
        notify_thresholds: NOTIFY_THRESHOLDS@,
        notify_on_reset: true,
        icon_style: default_style(macos),
        check_updates: true,
        cli_refresh: false,
    }
}

impl Default for Config {
    /// The settings of a tray that has none stored, away from macOS.
    fn default() -> (config: Self)
        ensures
            config@ == default_config(false),
    {
        Config::default_on(false)
    }
}

impl Config {
    /// The settings of a tray that has none stored, on macOS or elsewhere.
    pub fn default_on(macos: bool) -> (config: Self)
        ensures
            config@ == default_config(macos),
            config.icon_style == IconStyle::MonoAuto <==> macos,
            config.icon_style == IconStyle::Color <==> !macos,
    {
        let icon_style = if macos {
            IconStyle::MonoAuto
        } else {
            IconStyle::Color
        };
        Config {
            refresh_secs: DEFAULT_REFRESH_SECS,
            launch_at_login: false,
            notify_thresholds: all_thresholds(),
            notify_on_reset: true,
            icon_style,
            check_updates: true,
            cli_refresh: false,
        }
    }
}

/// Every threshold.
pub fn all_thresholds() -> (thresholds: Vec<u8>)
    ensures
        thresholds@ == NOTIFY_THRESHOLDS@,
{
    let mut thresholds: Vec<u8> = Vec::new();
    let mut i: usize = 0;
    while i < NOTIFY_THRESHOLDS.len()
        invariant
            i <= NOTIFY_THRESHOLDS@.len(),
            thresholds@ == NOTIFY_THRESHOLDS@.take(i as int),
        decreases NOTIFY_THRESHOLDS@.len() - i,
    {
        proof {
            assert(NOTIFY_THRESHOLDS@.take(i as int + 1) == NOTIFY_THRESHOLDS@.take(i as int).push(
                NOTIFY_THRESHOLDS@[i as int],
            ));
        }
        thresholds.push(NOTIFY_THRESHOLDS[i]);
        i = i + 1;
    }
    proof {
        assert(NOTIFY_THRESHOLDS@.take(i as int) == NOTIFY_THRESHOLDS@);
    }
    thresholds
}

/// The members of `s` that `p` holds of, in order.
pub open spec fn kept(s: Seq<u8>, p: spec_fn(u8) -> bool) -> Seq<u8>
    decreases s.len(),
{
    if s.len() == 0 {
        seq![]
    } else {
        let before = kept(s.drop_last(), p);
        if p(s.last()) {
            before.push(s.last())
        } else {
            before
        }
    }
}

/// What is kept is what was there and was wanted.
pub proof fn kept_members(s: Seq<u8>, p: spec_fn(u8) -> bool, t: u8)
    ensures
        kept(s, p).contains(t) <==> s.contains(t) && p(t),
    decreases s.len(),
{
    if s.len() > 0 {
        let rest = s.drop_last();
        kept_members(rest, p, t);
        let before = kept(rest, p);
        assert(s == rest.push(s.last()));
        if s.contains(t) {
            let i = choose|i: int| 0 <= i < s.len() && s[i] == t;
            if i < s.len() - 1 {
                assert(rest[i] == t);
            }
        }
        if rest.contains(t) {
            let i = choose|i: int| 0 <= i < rest.len() && rest[i] == t;
            assert(s[i] == t);
        }
        if s.last() == t {
            assert(s[s.len() - 1] == t);
        }
        if p(s.last()) {
            let after = before.push(s.last());
            if after.contains(t) {
                let i = choose|i: int| 0 <= i < after.len() && after[i] == t;
                if i < before.len() {
                    assert(before[i] == t);
                }
            }
            if before.contains(t) {
                let i = choose|i: int| 0 <= i < before.len() && before[i] == t;
                assert(after[i] == t);
            }
            assert(after[before.len() as int] == s.last());
        }
    }
}

/// Keeping goes by what the condition says, not by how it says it.
proof fn kept_congruent(s: Seq<u8>, p: spec_fn(u8) -> bool, q: spec_fn(u8) -> bool)
    requires
        forall|i: int| 0 <= i < s.len() ==> p(#[trigger] s[i]) == q(s[i]),
    ensures
        kept(s, p) == kept(s, q),
    decreases s.len(),
{
    if s.len() > 0 {
        let rest = s.drop_last();
        assert forall|i: int| 0 <= i < rest.len() implies p(#[trigger] rest[i]) == q(rest[i]) by {
            assert(rest[i] == s[i]);
        }
        kept_congruent(rest, p, q);
        assert(p(s[s.len() - 1]) == q(s[s.len() - 1]));
    }
}

/// Which thresholds are among `wanted`.
pub open spec fn among_rule(wanted: Seq<int>) -> spec_fn(u8) -> bool {
    |t: u8| wanted.contains(t as int)
}

/// The thresholds that are among `wanted`.
pub open spec fn known_thresholds(wanted: Seq<int>) -> Seq<u8> {
    kept(NOTIFY_THRESHOLDS@, among_rule(wanted))
}

/// Whether some number in `numbers` is `wanted`.
fn holds_number(numbers: &Vec<i64>, wanted: i64) -> (found: bool)
    ensures
        found == numbers@.map_values(|n: i64| n as int).contains(wanted as int),
{
    let ghost all = numbers@.map_values(|n: i64| n as int);
    let mut i: usize = 0;
    while i < numbers.len()
        invariant
            i <= numbers.len(),
            all == numbers@.map_values(|n: i64| n as int),
            forall|k: int| 0 <= k < i ==> #[trigger] all[k] != wanted,
        decreases numbers.len() - i,
    {
        if numbers[i] == wanted {
            proof {
                assert(all[i as int] == wanted);
            }
            return true;
        }
        i = i + 1;
    }
    false
}

/// The thresholds that are among `wanted`.
fn thresholds_among(wanted: &Vec<i64>) -> (thresholds: Vec<u8>)
    ensures
        thresholds@ == known_thresholds(wanted@.map_values(|n: i64| n as int)),
{
    let ghost numbers = wanted@.map_values(|n: i64| n as int);
    let ghost p = among_rule(numbers);
    let mut thresholds: Vec<u8> = Vec::new();
    let mut i: usize = 0;
    proof {
        assert(NOTIFY_THRESHOLDS@.take(0) == Seq::<u8>::empty());
    }
    while i < NOTIFY_THRESHOLDS.len()
        invariant
            i <= NOTIFY_THRESHOLDS@.len(),
            numbers == wanted@.map_values(|n: i64| n as int),
            p == among_rule(numbers),
            thresholds@ == kept(NOTIFY_THRESHOLDS@.take(i as int), p),
        decreases NOTIFY_THRESHOLDS@.len() - i,
    {
        proof {
            assert(NOTIFY_THRESHOLDS@.take(i as int + 1).drop_last() == NOTIFY_THRESHOLDS@.take(
                i as int,
            ));
        }
        let threshold = NOTIFY_THRESHOLDS[i];
        if holds_number(wanted, threshold as i64) {
            thresholds.push(threshold);
        }
        i = i + 1;
    }
    proof {
        assert(NOTIFY_THRESHOLDS@.take(i as int) == NOTIFY_THRESHOLDS@);
    }
    thresholds
}

/// Whether the notification of a threshold is an urgent one.
pub open spec fn urgent(threshold: u8) -> bool {
    threshold >= 90
}

/// Whether the notification of a threshold is an urgent one: from 90 percent
/// on.
pub fn is_critical(threshold: u8) -> (critical: bool)
    ensures
        critical == urgent(threshold),
{
    threshold >= 90
}

/// The position of an interval among those that can be chosen; that of the
/// default for an interval that cannot.
pub open spec fn interval_position(secs: u64) -> int {
    if secs == 15 {
        1
    } else if secs == 30 {
        2
    } else if secs == 60 {
        3
    } else {
        0
    }
}

impl Config {
    /// Where `refresh_secs` stands among [`REFRESH_CHOICES`]. An interval that
    /// is not among them selects the default.
    pub fn refresh_choice(&self) -> (index: usize)
        ensures
            index == interval_position(self.refresh_secs),
            index < REFRESH_CHOICES@.len(),
            REFRESH_CHOICES@.contains(self.refresh_secs) ==> REFRESH_CHOICES@[index as int]
                == self.refresh_secs,
            !REFRESH_CHOICES@.contains(self.refresh_secs) ==> REFRESH_CHOICES@[index as int]
                == DEFAULT_REFRESH_SECS,
    {
        let mut i: usize = 0;
        while i < REFRESH_CHOICES.len()
            invariant
                i <= REFRESH_CHOICES@.len(),
                forall|k: int| 0 <= k < i ==> #[trigger] REFRESH_CHOICES@[k] != self.refresh_secs,
            decreases REFRESH_CHOICES@.len() - i,
        {
            if REFRESH_CHOICES[i] == self.refresh_secs {
                proof {
                    assert(REFRESH_CHOICES@[i as int] == self.refresh_secs);
                    assert(i == 0 || i == 1 || i == 2 || i == 3);
                }
                return i;
            }
            i = i + 1;
        }
        proof {
            assert(REFRESH_CHOICES@[0] == 5);
            assert(REFRESH_CHOICES@[1] == 15);
            assert(REFRESH_CHOICES@[2] == 30);
            assert(REFRESH_CHOICES@[3] == 60);
        }
        0
    }

    /// Whether a threshold notifies.
    pub fn notifies_at(&self, threshold: u8) -> (on: bool)
        ensures
            on == self.notify_thresholds@.contains(threshold),
    {
        let mut i: usize = 0;
        while i < self.notify_thresholds.len()
            invariant
                i <= self.notify_thresholds.len(),
                forall|k: int| 0 <= k < i ==> #[trigger] self.notify_thresholds@[k] != threshold,
            decreases self.notify_thresholds.len() - i,
        {
            if self.notify_thresholds[i] == threshold {
                return true;
            }
            i = i + 1;
        }
        false
    }

    /// Switches the notification of one threshold on or off. The thresholds
    /// stay in the order in which they are offered.
    pub fn set_notifies_at(&mut self, threshold: u8, on: bool)
        ensures
            final(self)@ == (ConfigView {
                notify_thresholds: switched(old(self).notify_thresholds@, threshold, on),
                ..old(self)@
            }),
    {
        let ghost before = self.notify_thresholds@;
        let ghost p = switch_rule(before, threshold, on);
        let mut thresholds: Vec<u8> = Vec::new();
        let mut i: usize = 0;
        proof {
            assert(NOTIFY_THRESHOLDS@.take(0) == Seq::<u8>::empty());
        }
        while i < NOTIFY_THRESHOLDS.len()
            invariant
                i <= NOTIFY_THRESHOLDS@.len(),
                before == self.notify_thresholds@,
                self@ == old(self)@,
                p == switch_rule(before, threshold, on),
                thresholds@ == kept(NOTIFY_THRESHOLDS@.take(i as int), p),
            decreases NOTIFY_THRESHOLDS@.len() - i,
        {
            proof {
                assert(NOTIFY_THRESHOLDS@.take(i as int + 1).drop_last() == NOTIFY_THRESHOLDS@.take(
                    i as int,
                ));
            }
            let candidate = NOTIFY_THRESHOLDS[i];
            let wanted = if candidate == threshold {
                on
            } else {
                self.notifies_at(candidate)
            };
            if wanted {
                thresholds.push(candidate);
            }
            i = i + 1;
        }
        proof {
            assert(NOTIFY_THRESHOLDS@.take(i as int) == NOTIFY_THRESHOLDS@);
        }
        self.notify_thresholds = thresholds;
    }
}

/// Which thresholds are on after one was switched.
pub open spec fn switch_rule(thresholds: Seq<u8>, threshold: u8, on: bool) -> spec_fn(u8) -> bool {
    |t: u8|
        if t == threshold {
            on
        } else {
            thresholds.contains(t)
        }
}

/// The thresholds after one was switched.
pub open spec fn switched(thresholds: Seq<u8>, threshold: u8, on: bool) -> Seq<u8> {
    kept(NOTIFY_THRESHOLDS@, switch_rule(thresholds, threshold, on))
}

/// Switching a threshold changes that one and no other, and keeps to the
/// thresholds that can be chosen.
pub proof fn switching_changes_one(thresholds: Seq<u8>, threshold: u8, on: bool, other: u8)
    requires
        NOTIFY_THRESHOLDS@.contains(threshold),
        NOTIFY_THRESHOLDS@.contains(other),
    ensures
        switched(thresholds, threshold, on).contains(threshold) == on,
        other != threshold ==> switched(thresholds, threshold, on).contains(other)
            == thresholds.contains(other),
{
    let p = switch_rule(thresholds, threshold, on);
    kept_members(NOTIFY_THRESHOLDS@, p, threshold);
    kept_members(NOTIFY_THRESHOLDS@, p, other);
}

/// Keeping everything changes nothing.
proof fn kept_all(s: Seq<u8>, p: spec_fn(u8) -> bool)
    requires
        forall|i: int| 0 <= i < s.len() ==> p(#[trigger] s[i]),
    ensures
        kept(s, p) == s,
    decreases s.len(),
{
    if s.len() > 0 {
        let rest = s.drop_last();
        assert forall|i: int| 0 <= i < rest.len() implies p(#[trigger] rest[i]) by {
            assert(rest[i] == s[i]);
        }
        kept_all(rest, p);
        assert(p(s[s.len() - 1]));
        assert(s == rest.push(s.last()));
    }
}

/// A number is among others of its kind exactly when the threshold is among
/// the thresholds.
proof fn numbers_hold_thresholds(thresholds: Seq<u8>, t: u8)
    ensures
        as_numbers(thresholds).contains(t as int) <==> thresholds.contains(t),
{
    let numbers = as_numbers(thresholds);
    if thresholds.contains(t) {
        let i = choose|i: int| 0 <= i < thresholds.len() && thresholds[i] == t;
        assert(numbers[i] == t as int);
    }
    if numbers.contains(t as int) {
        let i = choose|i: int| 0 <= i < numbers.len() && numbers[i] == t as int;
        assert(thresholds[i] == t);
    }
}

/// The default settings can be stored, and every setting that the menu offers
/// leaves storable settings storable.
pub proof fn menu_keeps_settings_storable(config: ConfigView, threshold: u8, on: bool, choice: int)
    requires
        storable(config),
        0 <= choice < REFRESH_CHOICES@.len(),
    ensures
        storable(default_config(true)),
        storable(default_config(false)),
        storable(
            ConfigView {
                notify_thresholds: switched(config.notify_thresholds, threshold, on),
                ..config
            },
        ),
        storable(ConfigView { refresh_secs: REFRESH_CHOICES@[choice], ..config }),
{
    let all = NOTIFY_THRESHOLDS@;
    let every = among_rule(as_numbers(all));
    assert forall|i: int| 0 <= i < all.len() implies every(#[trigger] all[i]) by {
        numbers_hold_thresholds(all, all[i]);
        assert(all.contains(all[i]));
    }
    kept_all(all, every);
    let rule = switch_rule(config.notify_thresholds, threshold, on);
    let after = switched(config.notify_thresholds, threshold, on);
    let known = among_rule(as_numbers(after));
    assert forall|i: int| 0 <= i < all.len() implies rule(#[trigger] all[i]) == known(all[i]) by {
        kept_members(all, rule, all[i]);
        numbers_hold_thresholds(after, all[i]);
        assert(all.contains(all[i]));
    }
    kept_congruent(all, rule, known);
    assert(choice == 0 || choice == 1 || choice == 2 || choice == 3);
}

// ---------------------------------------------------------------------------
// Paths
// ---------------------------------------------------------------------------

/// The tray's own directory inside the directory that holds the configuration
/// of all programs, or inside the current one where that is not known.
pub open spec fn config_dir_of(config_home: Option<&str>, assistant: Assistant) -> Seq<char> {
    joined_path(
        match config_home {
            Some(dir) => dir@,
            None => "."@,
        },
        assistant.program(),
    )
}

/// Directory holding the config file.
pub fn config_dir(config_home: Option<&str>, assistant: &Assistant) -> (dir: String)
    ensures
        dir@ == config_dir_of(config_home, *assistant),
{
    let name = assistant.program_name();
    match config_home {
        Some(dir) => join(dir, name.as_str()),
        None => join(".", name.as_str()),
    }
}

/// Where the config file is.
pub open spec fn config_path_of(config_home: Option<&str>, assistant: Assistant) -> Seq<char> {
    joined_path(config_dir_of(config_home, assistant), "config.toml"@)
}

/// Default config file location.
pub fn default_config_path(config_home: Option<&str>, assistant: &Assistant) -> (path: String)
    ensures
        path@ == joined_path(config_dir_of(config_home, *assistant), "config.toml"@),
        path@ == config_path_of(config_home, *assistant),
{
    let dir = config_dir(config_home, assistant);
    join(dir.as_str(), "config.toml")
}

/// What the environment says of the poll interval: a positive number, white
/// space around it aside.
pub open spec fn interval_override(raw: Option<&str>) -> Option<u64> {
    match raw {
        Some(text) => match unsigned(trimmed(text@)) {
            Some(secs) => if secs > 0 {
                Some(secs)
            } else {
                None
            },
            None => None,
        },
        None => None,
    }
}

/// Interprets the environment's poll interval. None means that the configured
/// interval counts.
pub fn env_override(raw: Option<&str>) -> (secs: Option<u64>)
    ensures
        secs == interval_override(raw),
{
    match raw {
        Some(text) => {
            let inner = trim(text);
            match parse_unsigned(inner.as_str()) {
                Some(secs) => if secs > 0 {
                    Some(secs)
                } else {
                    None
                },
                None => None,
            }
        },
        None => None,
    }
}

// ---------------------------------------------------------------------------
// Reading
// ---------------------------------------------------------------------------

/// The style that the settings file calls by a name.
pub open spec fn style_named(name: Seq<char>) -> Option<IconStyle> {
    if name == "color"@ {
        Some(IconStyle::Color)
    } else if name == "mono-auto"@ {
        Some(IconStyle::MonoAuto)
    } else if name == "mono-dark"@ {
        Some(IconStyle::MonoDark)
    } else if name == "mono-light"@ {
        Some(IconStyle::MonoLight)
    } else {
        None
    }
}

/// The style that the settings file calls by a name.
pub fn parse_style(name: &str) -> (style: Option<IconStyle>)
    ensures
        style == style_named(name@),
{
    if same_text(name, "color") {
        Some(IconStyle::Color)
    } else if same_text(name, "mono-auto") {
        Some(IconStyle::MonoAuto)
    } else if same_text(name, "mono-dark") {
        Some(IconStyle::MonoDark)
    } else if same_text(name, "mono-light") {
        Some(IconStyle::MonoLight)
    } else {
        None
    }
}

/// A flag of the settings file, or its default.
pub open spec fn flag_or(found: Option<SettingView>, default: bool) -> bool {
    match found {
        Some(SettingView::Bool(b)) => b,
        _ => default,
    }
}

/// What the entries of a settings file say, with defaults for what is absent
/// or of the wrong type. An interval of zero would spin the poll loop, so it
/// does not count; nor does a negative one.
pub open spec fn config_in(table: Map<Seq<char>, SettingView>, defaults: ConfigView) -> ConfigView {
    ConfigView {
        refresh_secs: match lookup(table, "refresh_secs"@) {
            Some(SettingView::Int(n)) => if 0 < n <= i64::MAX {
                n as u64
            } else {
                defaults.refresh_secs
            },
            _ => defaults.refresh_secs,
        },
        launch_at_login: flag_or(lookup(table, "launch_at_login"@), defaults.launch_at_login),
        notify_thresholds: match lookup(table, "notify_thresholds"@) {
            Some(SettingView::Ints(v)) => known_thresholds(v),
            _ => defaults.notify_thresholds,
        },
        notify_on_reset: flag_or(lookup(table, "notify_on_reset"@), defaults.notify_on_reset),
        icon_style: match lookup(table, "icon_style"@) {
            Some(SettingView::Text(s)) => match style_named(s) {
                Some(style) => style,
                None => defaults.icon_style,
            },
            _ => defaults.icon_style,
        },
        check_updates: flag_or(lookup(table, "check_updates"@), defaults.check_updates),
        cli_refresh: flag_or(lookup(table, "cli_refresh"@), defaults.cli_refresh),
    }
}

/// What a settings file's text says: the defaults where it is not TOML.
pub open spec fn config_text_says(text: Seq<char>, macos: bool) -> ConfigView {
    match parsed_toml(text) {
        Some(table) => config_in(table, default_config(macos)),
        None => default_config(macos),
    }
}

/// A flag among the entries, or its default.
fn flag_in(entries: &Vec<(String, Setting)>, key: &str, default: bool) -> (flag: bool)
    ensures
        flag == flag_or(lookup(crate::table::entry_views(entries@), key@), default),
{
    match find(entries, key) {
        Some(Setting::Bool(b)) => *b,
        _ => default,
    }
}

/// The settings that the entries of a settings file give.
pub fn config_of(entries: &Vec<(String, Setting)>, macos: bool) -> (config: Config)
    ensures
        config@ == config_in(crate::table::entry_views(entries@), default_config(macos)),
        config.refresh_secs > 0,
{
    let defaults = Config::default_on(macos);
    let refresh_secs: u64 = match find(entries, "refresh_secs") {
        Some(Setting::Int(n)) => if *n > 0 {
            *n as u64
        } else {
            defaults.refresh_secs
        },
        _ => defaults.refresh_secs,
    };
    let notify_thresholds: Vec<u8> = match find(entries, "notify_thresholds") {
        Some(Setting::List(items)) => match integers(items) {
            Some(wanted) => thresholds_among(&wanted),
            None => all_thresholds(),
        },
        _ => all_thresholds(),
    };
    let icon_style = match find(entries, "icon_style") {
        Some(Setting::Text(name)) => match parse_style(name.as_str()) {
            Some(style) => style,
            None => defaults.icon_style,
        },
        _ => defaults.icon_style,
    };
    Config {
        refresh_secs,
        launch_at_login: flag_in(entries, "launch_at_login", defaults.launch_at_login),
        notify_thresholds,
        notify_on_reset: flag_in(entries, "notify_on_reset", defaults.notify_on_reset),
        icon_style,
        check_updates: flag_in(entries, "check_updates", defaults.check_updates),
        cli_refresh: flag_in(entries, "cli_refresh", defaults.cli_refresh),
    }
}

/// Tolerant parser for the settings file. Unknown keys are ignored, absent and
/// mistyped ones are those of a tray on macOS or elsewhere that has none
/// stored. What was written there comes back.
pub fn parse_config_on(body: &str, macos: bool) -> (config: Config)
    ensures
        config@ == config_text_says(body@, macos),
        config.refresh_secs > 0,
        forall|stored: ConfigView|
            storable(stored) && body@ == #[trigger] config_text(stored, macos) ==> config@
                == stored,
{
    let parsed = parse_table(body);
    proof {
        assert forall|stored: ConfigView|
            storable(stored) && body@ == #[trigger] config_text(
                stored,
                macos,
            ) implies config_text_says(body@, macos) == stored by {
            stored_entries(stored, macos);
            assert(body@ == lines_of(config_entries(stored, macos)));
        }
    }
    match parsed {
        Some(entries) => config_of(&entries, macos),
        None => Config::default_on(macos),
    }
}

/// [`parse_config_on`] away from macOS.
pub fn parse_config(body: &str) -> (config: Config)
    ensures
        config@ == config_text_says(body@, false),
        config.refresh_secs > 0,
        forall|stored: ConfigView|
            storable(stored) && body@ == #[trigger] config_text(stored, false) ==> config@
                == stored,
{
    parse_config_on(body, false)
}

/// What was read of the settings file says: the defaults after any failure.
pub open spec fn config_file_says(file: FileRead, macos: bool) -> ConfigView {
    match file {
        FileRead::Text(body) => config_text_says(body@, macos),
        _ => default_config(macos),
    }
}

/// Loads what was read of the settings file, on macOS or elsewhere. Any failure
/// yields the defaults.
pub fn load_on(file: &FileRead, macos: bool) -> (config: Config)
    ensures
        config@ == (match *file {
            FileRead::Text(body) => config_text_says(body@, macos),
            _ => default_config(macos),
        }),
        config@ == config_file_says(*file, macos),
        config.refresh_secs > 0,
        forall|stored: ConfigView|
            storable(stored) && (*file matches FileRead::Text(body) && body@
                == #[trigger] config_text(stored, macos)) ==> config@ == stored,
{
    match file {
        FileRead::Text(body) => parse_config_on(body.as_str(), macos),
        _ => Config::default_on(macos),
    }
}

/// [`load_on`] away from macOS.
pub fn load_from(file: &FileRead) -> (config: Config)
    ensures
        config@ == (match *file {
            FileRead::Text(body) => config_text_says(body@, false),
            _ => default_config(false),
        }),
        config@ == config_file_says(*file, false),
        config.refresh_secs > 0,
        forall|stored: ConfigView|
            storable(stored) && (*file matches FileRead::Text(body) && body@
                == #[trigger] config_text(stored, false)) ==> config@ == stored,
{
    load_on(file, false)
}

// ---------------------------------------------------------------------------
// Writing
// ---------------------------------------------------------------------------

/// `entries` with one more, where it is wanted.
pub open spec fn grown(
    entries: Seq<(Seq<char>, SettingView)>,
    key: Seq<char>,
    value: SettingView,
    wanted: bool,
) -> Seq<(Seq<char>, SettingView)> {
    if wanted {
        entries.push((key, value))
    } else {
        entries
    }
}

/// The thresholds as the settings file holds them.
pub open spec fn as_numbers(thresholds: Seq<u8>) -> Seq<int> {
    thresholds.map_values(|t: u8| t as int)
}

/// The entries that stored settings consist of: the interval and the
/// launch-at-login flag, and of the others each that is not its default.
pub open spec fn config_entries(config: ConfigView, macos: bool) -> Seq<(Seq<char>, SettingView)> {
    let defaults = default_config(macos);
    let e = seq![
        ("refresh_secs"@, SettingView::Int(config.refresh_secs as int)),
        ("launch_at_login"@, SettingView::Bool(config.launch_at_login)),
    ];
    let e = grown(
        e,
        "notify_thresholds"@,
        SettingView::Ints(as_numbers(config.notify_thresholds)),
        config.notify_thresholds != defaults.notify_thresholds,
    );
    let e = grown(
        e,
        "notify_on_reset"@,
        SettingView::Bool(config.notify_on_reset),
        config.notify_on_reset != defaults.notify_on_reset,
    );
    let e = grown(
        e,
        "icon_style"@,
        SettingView::Text(config.icon_style.stored_name()),
        config.icon_style != defaults.icon_style,
    );
    let e = grown(
        e,
        "check_updates"@,
        SettingView::Bool(config.check_updates),
        config.check_updates != defaults.check_updates,
    );
    grown(
        e,
        "cli_refresh"@,
        SettingView::Bool(config.cli_refresh),
        config.cli_refresh != defaults.cli_refresh,
    )
}

/// Stored settings as text.
pub open spec fn config_text(config: ConfigView, macos: bool) -> Seq<char> {
    lines_of(config_entries(config, macos))
}

/// Settings that read back as they were written: an interval that the file can
/// hold, and thresholds that can be chosen.
pub open spec fn storable(config: ConfigView) -> bool {
    &&& 0 < config.refresh_secs <= i64::MAX
    &&& config.notify_thresholds == known_thresholds(as_numbers(config.notify_thresholds))
}

/// Whether some entry has the key.
spec fn has_key(entries: Seq<(Seq<char>, SettingView)>, key: Seq<char>) -> bool {
    exists|i: int| 0 <= i < entries.len() && (#[trigger] entries[i]).0 == key
}

proof fn grown_is_simple(
    e: Seq<(Seq<char>, SettingView)>,
    key: Seq<char>,
    value: SettingView,
    wanted: bool,
)
    requires
        simple_lines(e),
        crate::table::setting_key(key),
        wanted ==> crate::table::simple_value(value),
        !has_key(e, key),
    ensures
        simple_lines(grown(e, key, value, wanted)),
        said_by(grown(e, key, value, wanted)) == (if wanted {
            said_by(e).insert(key, value)
        } else {
            said_by(e)
        }),
        forall|k: Seq<char>| #[trigger] has_key(grown(e, key, value, wanted), k) ==> has_key(e, k) || k == key,
{
    let r = grown(e, key, value, wanted);
    if wanted {
        assert(r.drop_last() == e);
        assert forall|i: int, j: int| 0 <= i < j < r.len() implies (#[trigger] r[i]).0 != (
        #[trigger] r[j]).0 by {
            assert(r[i] == e[i]);
            if j < e.len() {
                assert(r[j] == e[j]);
            }
        }
        assert forall|k: Seq<char>| #[trigger] has_key(r, k) implies has_key(e, k) || k == key by {
            let i = choose|i: int| 0 <= i < r.len() && (#[trigger] r[i]).0 == k;
            if i < e.len() {
                assert(e[i].0 == k);
            }
        }
    }
}

/// The keys of the settings file are all different.
proof fn keys_differ()
    ensures
        "refresh_secs"@ != "launch_at_login"@,
        "notify_thresholds"@ != "refresh_secs"@,
        "notify_thresholds"@ != "launch_at_login"@,
        "notify_on_reset"@ != "refresh_secs"@,
        "notify_on_reset"@ != "launch_at_login"@,
        "notify_on_reset"@ != "notify_thresholds"@,
        "icon_style"@ != "refresh_secs"@,
        "icon_style"@ != "launch_at_login"@,
        "icon_style"@ != "notify_thresholds"@,
        "icon_style"@ != "notify_on_reset"@,
        "check_updates"@ != "refresh_secs"@,
        "check_updates"@ != "launch_at_login"@,
        "check_updates"@ != "notify_thresholds"@,
        "check_updates"@ != "notify_on_reset"@,
        "check_updates"@ != "icon_style"@,
        "cli_refresh"@ != "refresh_secs"@,
        "cli_refresh"@ != "launch_at_login"@,
        "cli_refresh"@ != "notify_thresholds"@,
        "cli_refresh"@ != "notify_on_reset"@,
        "cli_refresh"@ != "icon_style"@,
        "cli_refresh"@ != "check_updates"@,
{
    reveal_strlit("refresh_secs");
    reveal_strlit("launch_at_login");
    reveal_strlit("notify_thresholds");
    reveal_strlit("notify_on_reset");
    reveal_strlit("icon_style");
    reveal_strlit("check_updates");
    reveal_strlit("cli_refresh");
    assert("refresh_secs"@.len() == 12);
    assert("launch_at_login"@.len() == 15);
    assert("notify_thresholds"@.len() == 17);
    assert("notify_on_reset"@.len() == 15);
    assert("icon_style"@.len() == 10);
    assert("check_updates"@.len() == 13);
    assert("cli_refresh"@.len() == 11);
    assert("notify_on_reset"@[0] != "launch_at_login"@[0]);
}

/// The names of the styles are all different.
proof fn style_names_differ(style: IconStyle)
    ensures
        style_named(style.stored_name()) == Some(style),
{
    reveal_strlit("color");
    reveal_strlit("mono-auto");
    reveal_strlit("mono-dark");
    reveal_strlit("mono-light");
    assert("color"@.len() == 5);
    assert("mono-auto"@.len() == 9);
    assert("mono-dark"@.len() == 9);
    assert("mono-light"@.len() == 10);
    assert("mono-auto"@[5] != "mono-dark"@[5]);
}

/// What storable settings are written as reads back as those settings.
proof fn stored_entries(config: ConfigView, macos: bool)
    requires
        storable(config),
    ensures
        simple_lines(config_entries(config, macos)),
        config_in(said_by(config_entries(config, macos)), default_config(macos)) == config,
{
    keys_differ();
    style_names_differ(config.icon_style);
    let defaults = default_config(macos);
    let none = Seq::<(Seq<char>, SettingView)>::empty();
    let e0 = seq![
        ("refresh_secs"@, SettingView::Int(config.refresh_secs as int)),
        ("launch_at_login"@, SettingView::Bool(config.launch_at_login)),
    ];
    assert(!has_key(none, "refresh_secs"@));
    grown_is_simple(none, "refresh_secs"@, SettingView::Int(config.refresh_secs as int), true);
    let first = grown(none, "refresh_secs"@, SettingView::Int(config.refresh_secs as int), true);
    grown_is_simple(
        first,
        "launch_at_login"@,
        SettingView::Bool(config.launch_at_login),
        true,
    );
    assert(e0 == grown(
        first,
        "launch_at_login"@,
        SettingView::Bool(config.launch_at_login),
        true,
    ));
    let v1 = SettingView::Ints(as_numbers(config.notify_thresholds));
    let w1 = config.notify_thresholds != defaults.notify_thresholds;
    grown_is_simple(e0, "notify_thresholds"@, v1, w1);
    let e1 = grown(e0, "notify_thresholds"@, v1, w1);
    let v2 = SettingView::Bool(config.notify_on_reset);
    let w2 = config.notify_on_reset != defaults.notify_on_reset;
    grown_is_simple(e1, "notify_on_reset"@, v2, w2);
    let e2 = grown(e1, "notify_on_reset"@, v2, w2);
    let v3 = SettingView::Text(config.icon_style.stored_name());
    let w3 = config.icon_style != defaults.icon_style;
    grown_is_simple(e2, "icon_style"@, v3, w3);
    let e3 = grown(e2, "icon_style"@, v3, w3);
    let v4 = SettingView::Bool(config.check_updates);
    let w4 = config.check_updates != defaults.check_updates;
    grown_is_simple(e3, "check_updates"@, v4, w4);
    let e4 = grown(e3, "check_updates"@, v4, w4);
    let v5 = SettingView::Bool(config.cli_refresh);
    let w5 = config.cli_refresh != defaults.cli_refresh;
    grown_is_simple(e4, "cli_refresh"@, v5, w5);
    assert(config_entries(config, macos) == grown(e4, "cli_refresh"@, v5, w5));
}

/// Appends one line.
fn push_line(text: &mut String, key: &str, value: &str)
    ensures
        final(text)@ == old(text)@ + (key@ + " = "@ + value@ + "\n"@),
{
    let ghost before = text@;
    text.append(key);
    text.append(" = ");
    text.append(value);
    text.append("\n");
    proof {
        assert(text@ == before + (key@ + " = "@ + value@ + "\n"@));
    }
}

/// How a flag is written.
fn flag_text(flag: bool) -> (text: &'static str)
    ensures
        text@ == written(SettingView::Bool(flag)),
{
    if flag {
        "true"
    } else {
        "false"
    }
}

/// How thresholds are written.
fn thresholds_text(thresholds: &Vec<u8>) -> (text: String)
    ensures
        text@ == written(SettingView::Ints(as_numbers(thresholds@))),
{
    let ghost all = as_numbers(thresholds@).map_values(|n: int| decimal(n));
    let mut parts: Vec<String> = Vec::new();
    let mut i: usize = 0;
    while i < thresholds.len()
        invariant
            i <= thresholds.len(),
            all == as_numbers(thresholds@).map_values(|n: int| decimal(n)),
            texts(parts@) == all.take(i as int),
        decreases thresholds.len() - i,
    {
        let ghost before = parts@;
        let part = nat_text(thresholds[i] as u64);
        proof {
            assert(all[i as int] == decimal(thresholds@[i as int] as int));
            assert(texts(before.push(part)) == texts(before).push(part@));
            assert(all.take(i as int + 1) == all.take(i as int).push(all[i as int]));
        }
        parts.push(part);
        i = i + 1;
    }
    proof {
        assert(all.take(i as int) == all);
    }
    let mut text = "[".to_owned();
    let inner = crate::text::join(&parts, ", ");
    text.append(inner.as_str());
    text.append("]");
    text
}

/// Whether the thresholds are all that can be chosen.
fn are_all(thresholds: &Vec<u8>) -> (all: bool)
    ensures
        all == (thresholds@ == NOTIFY_THRESHOLDS@),
{
    if thresholds.len() != NOTIFY_THRESHOLDS.len() {
        return false;
    }
    let mut i: usize = 0;
    while i < thresholds.len()
        invariant
            i <= thresholds.len() == NOTIFY_THRESHOLDS@.len(),
            forall|k: int| 0 <= k < i ==> thresholds@[k] == NOTIFY_THRESHOLDS@[k],
        decreases thresholds.len() - i,
    {
        if thresholds[i] != NOTIFY_THRESHOLDS[i] {
            return false;
        }
        i = i + 1;
    }
    proof {
        assert(thresholds@ =~= NOTIFY_THRESHOLDS@);
    }
    true
}

/// A grown list of entries is written with one more line.
proof fn lines_of_grown(
    e: Seq<(Seq<char>, SettingView)>,
    key: Seq<char>,
    value: SettingView,
    wanted: bool,
)
    ensures
        lines_of(grown(e, key, value, wanted)) == (if wanted {
            lines_of(e) + line(key, value)
        } else {
            lines_of(e)
        }),
{
    if wanted {
        assert(grown(e, key, value, wanted).drop_last() == e);
    }
}

/// Renders settings as the text of the settings file.
pub fn render_config(config: &Config) -> (text: String)
    ensures
        text@ == config_text(config@, false),
{
    render_config_on(config, false)
}

/// Renders settings as the text of the settings file, on macOS or elsewhere:
/// what is not written is the default there.
pub fn render_config_on(config: &Config, macos: bool) -> (text: String)
    ensures
        text@ == config_text(config@, macos),
{
    let mut text = String::new();
    let ghost view = config@;
    let ghost defaults = default_config(macos);
    let ghost none = Seq::<(Seq<char>, SettingView)>::empty();
    let secs = nat_text(config.refresh_secs);
    push_line(&mut text, "refresh_secs", secs.as_str());
    push_line(&mut text, "launch_at_login", flag_text(config.launch_at_login));
    let ghost e0 = seq![
        ("refresh_secs"@, SettingView::Int(view.refresh_secs as int)),
        ("launch_at_login"@, SettingView::Bool(view.launch_at_login)),
    ];
    proof {
        let v = SettingView::Int(view.refresh_secs as int);
        let first = grown(none, "refresh_secs"@, v, true);
        lines_of_grown(none, "refresh_secs"@, v, true);
        lines_of_grown(
            first,
            "launch_at_login"@,
            SettingView::Bool(view.launch_at_login),
            true,
        );
        assert(e0 == first.push(("launch_at_login"@, SettingView::Bool(view.launch_at_login))));
        assert(lines_of(none) == Seq::<char>::empty());
        assert(text@ == lines_of(e0));
    }
    let ghost v1 = SettingView::Ints(as_numbers(view.notify_thresholds));
    let ghost w1 = view.notify_thresholds != defaults.notify_thresholds;
    let ghost e1 = grown(e0, "notify_thresholds"@, v1, w1);
    proof {
        lines_of_grown(e0, "notify_thresholds"@, v1, w1);
    }
    if !are_all(&config.notify_thresholds) {
        let numbers = thresholds_text(&config.notify_thresholds);
        push_line(&mut text, "notify_thresholds", numbers.as_str());
    }
    let ghost v2 = SettingView::Bool(view.notify_on_reset);
    let ghost w2 = view.notify_on_reset != defaults.notify_on_reset;
    let ghost e2 = grown(e1, "notify_on_reset"@, v2, w2);
    proof {
        assert(text@ == lines_of(e1));
        lines_of_grown(e1, "notify_on_reset"@, v2, w2);
    }
    if !config.notify_on_reset {
        push_line(&mut text, "notify_on_reset", flag_text(config.notify_on_reset));
    }
    let ghost v3 = SettingView::Text(view.icon_style.stored_name());
    let ghost w3 = view.icon_style != defaults.icon_style;
    let ghost e3 = grown(e2, "icon_style"@, v3, w3);
    proof {
        assert(text@ == lines_of(e2));
        lines_of_grown(e2, "icon_style"@, v3, w3);
    }
    let usual_style = if macos {
        IconStyle::MonoAuto
    } else {
        IconStyle::Color
    };
    if config.icon_style != usual_style {
        let mut name = "\"".to_owned();
        name.append(config.icon_style.name());
        name.append("\"");
        push_line(&mut text, "icon_style", name.as_str());
    }
    let ghost v4 = SettingView::Bool(view.check_updates);
    let ghost w4 = view.check_updates != defaults.check_updates;
    let ghost e4 = grown(e3, "check_updates"@, v4, w4);
    proof {
        assert(text@ == lines_of(e3));
        lines_of_grown(e3, "check_updates"@, v4, w4);
    }
    if !config.check_updates {
        push_line(&mut text, "check_updates", flag_text(config.check_updates));
    }
    let ghost v5 = SettingView::Bool(view.cli_refresh);
    let ghost w5 = view.cli_refresh != defaults.cli_refresh;
    proof {
        assert(text@ == lines_of(e4));
        lines_of_grown(e4, "cli_refresh"@, v5, w5);
        assert(config_entries(view, macos) == grown(e4, "cli_refresh"@, v5, w5));
    }
    if config.cli_refresh {
        push_line(&mut text, "cli_refresh", flag_text(config.cli_refresh));
    }
    text
}

} // verus!
