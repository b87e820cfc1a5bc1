//! A platform-neutral description of the tray menu: plain rows that carry what
//! the user asks for, not how it is done.

use vstd::prelude::*;

verus! {

/// One thing a menu entry can ask for.
#[derive(Clone, Debug, PartialEq, Eq)]
pub enum MenuAction {
    /// Install the statusline hook.
    InstallHook,
    /// Open a release page.
    OpenUrl(String),
    /// Restart into the new binary that has appeared on disk.
    RestartToUpdate,
    /// Read the cache again and say whether anything is new.
    Refresh,
    /// Quit the tray.
    Quit,
    /// Flip the autostart entry.
    ToggleLaunchAtLogin,
    /// Flip one usage threshold.
    ToggleThreshold(u8),
    /// Flip the quota-reset notification.
    ToggleNotifyOnReset,
    /// Flip the daily update check.
    ToggleCheckUpdates,
    /// Flip the hourly refresh through the CLI.
    ToggleCliRefresh,
}

/// Which radio group a selection belongs to.
#[derive(Clone, Copy, Debug, PartialEq, Eq, Structural)]
pub enum RadioGroup {
    /// The poll interval.
    RefreshInterval,
    /// The icon style.
    IconStyle,
}

/// One option of a radio group.
#[derive(Clone, Debug, PartialEq, Eq)]
pub struct RadioOption {
    pub label: String,
    pub enabled: bool,
}

/// A row of the menu.
#[derive(Debug)]
pub enum MenuRow {
    /// A read-only label.
    Info { label: String },
    /// A clickable item.
    Action { label: String, action: MenuAction },
    /// A checkbox.
    Check { label: String, action: MenuAction, checked: bool, enabled: bool },
    /// A radio group: exactly one of the options is selected.
    Radio { group: RadioGroup, selected: usize, options: Vec<RadioOption> },
    /// A nested menu.
    SubMenu { label: String, rows: Vec<MenuRow> },
    /// A divider.
    Separator,
}

/// What a [`MenuAction`] asks for.
pub ghost enum ActionView {
    InstallHook,
    OpenUrl(Seq<char>),
    RestartToUpdate,
    Refresh,
    Quit,
    ToggleLaunchAtLogin,
    ToggleThreshold(u8),
    ToggleNotifyOnReset,
    ToggleCheckUpdates,
    ToggleCliRefresh,
}

impl View for MenuAction {
    type V = ActionView;

    open spec fn view(&self) -> ActionView {
        match *self {
            MenuAction::InstallHook => ActionView::InstallHook,
            MenuAction::OpenUrl(url) => ActionView::OpenUrl(url@),
            MenuAction::RestartToUpdate => ActionView::RestartToUpdate,
            MenuAction::Refresh => ActionView::Refresh,
            MenuAction::Quit => ActionView::Quit,
            MenuAction::ToggleLaunchAtLogin => ActionView::ToggleLaunchAtLogin,
            MenuAction::ToggleThreshold(t) => ActionView::ToggleThreshold(t),
            MenuAction::ToggleNotifyOnReset => ActionView::ToggleNotifyOnReset,
            MenuAction::ToggleCheckUpdates => ActionView::ToggleCheckUpdates,
            MenuAction::ToggleCliRefresh => ActionView::ToggleCliRefresh,
        }
    }
}

/// What a [`MenuRow`] shows.
pub ghost enum RowView {
    Info(Seq<char>),
    Action(Seq<char>, ActionView),
    Check { label: Seq<char>, action: ActionView, checked: bool, enabled: bool },
    Radio { group: RadioGroup, selected: int, options: Seq<(Seq<char>, bool)> },
    SubMenu(Seq<char>, Seq<RowView>),
    Separator,
}

/// What options show.
pub open spec fn option_views(options: Seq<RadioOption>) -> Seq<(Seq<char>, bool)> {
    options.map_values(|o: RadioOption| (o.label@, o.enabled))
}

/// What rows show.
pub open spec fn row_views(rows: Seq<MenuRow>) -> Seq<RowView>
    decreases rows,
{
    if rows.len() == 0 {
        seq![]
    } else {
        row_views(rows.drop_last()).push(rows.last().shown())
    }
}

impl MenuRow {
    /// What the row shows.
    pub open spec fn shown(self) -> RowView
        decreases self,
    {
        match self {
            MenuRow::Info { label } => RowView::Info(label@),
            MenuRow::Action { label, action } => RowView::Action(label@, action@),
            MenuRow::Check { label, action, checked, enabled } => RowView::Check {
                label: label@,
                action: action@,
                checked,
                enabled,
            },
            MenuRow::Radio { group, selected, options } => RowView::Radio {
                group,
                selected: selected as int,
                options: option_views(options@),
            },
            MenuRow::SubMenu { label, rows } => RowView::SubMenu(label@, row_views(rows@)),
            MenuRow::Separator => RowView::Separator,
        }
    }

    /// A grayed label row.
    pub fn info(label: String) -> (row: Self)
        ensures
            row.shown() == RowView::Info(label@),
    {
        MenuRow::Info { label }
    }

    /// A plain clickable item.
    pub fn action(label: String, action: MenuAction) -> (row: Self)
        ensures
            row.shown() == RowView::Action(label@, action@),
    {
        MenuRow::Action { label, action }
    }

    /// A checkbox.
    pub fn check(label: &str, action: MenuAction, checked: bool, enabled: bool) -> (row: Self)
        ensures
            row.shown() == (RowView::Check { label: label@, action: action@, checked, enabled }),
    {
        MenuRow::Check { label: label.to_owned(), action, checked, enabled }
    }
}

/// Rows with one more at the end show what they showed, and that one.
pub proof fn row_views_push(rows: Seq<MenuRow>, row: MenuRow)
    ensures
        row_views(rows.push(row)) == row_views(rows).push(row.shown()),
{
    assert(rows.push(row).drop_last() == rows);
}

} // verus!
