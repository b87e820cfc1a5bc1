//! Settings files: TOML documents of plain values. Text is parsed by `toml`.

use vstd::prelude::*;

use crate::text::{decimal, joined, same_text};

verus! {

/// A value in a settings file, as far as settings use it.
#[derive(Clone, Debug, PartialEq, Eq)]
pub enum Setting {
    Int(i64),
    Bool(bool),
    Text(String),
    /// The items of a list, those that are integers by their value.
    List(Vec<Option<i64>>),
    /// Any other value.
    Other,
}

/// What a [`Setting`] says.
pub ghost enum SettingView {
    Int(int),
    Bool(bool),
    Text(Seq<char>),
    /// A list of integers, and of nothing else.
    Ints(Seq<int>),
    /// Any other value.
    Other,
}

/// What the items of a list say: a list of integers, where they all are.
pub open spec fn list_view(items: Seq<Option<i64>>) -> SettingView {
    if forall|i: int| 0 <= i < items.len() ==> (#[trigger] items[i]) is Some {
        SettingView::Ints(items.map_values(|n: Option<i64>| n->0 as int))
    } else {
        SettingView::Other
    }
}

impl View for Setting {
    type V = SettingView;

    open spec fn view(&self) -> SettingView {
        match *self {
            Setting::Int(n) => SettingView::Int(n as int),
            Setting::Bool(b) => SettingView::Bool(b),
            Setting::Text(s) => SettingView::Text(s@),
            Setting::List(v) => list_view(v@),
            Setting::Other => SettingView::Other,
        }
    }
}

/// The integers of a list that holds nothing else.
pub fn integers(items: &Vec<Option<i64>>) -> (all: Option<Vec<i64>>)
    ensures
        match all {
            Some(v) => list_view(items@) == SettingView::Ints(v@.map_values(|n: i64| n as int)),
            None => list_view(items@) == SettingView::Other,
        },
{
    let mut all: Vec<i64> = Vec::new();
    let mut i: usize = 0;
    while i < items.len()
        invariant
            i <= items.len(),
            all.len() == i,
            forall|k: int| 0 <= k < i ==> #[trigger] items@[k] == Some(all@[k]),
        decreases items.len() - i,
    {
        match items[i] {
            Some(n) => {
                all.push(n);
            },
            None => {
                proof {
                    assert(items@[i as int] is None);
                }
                return None;
            },
        }
        i = i + 1;
    }
    proof {
        assert(items@.map_values(|n: Option<i64>| n->0 as int) =~= all@.map_values(
            |n: i64| n as int,
        ));
    }
    Some(all)
}

/// What entries say, by key; the later of two with one key counts.
pub open spec fn entry_views(entries: Seq<(String, Setting)>) -> Map<Seq<char>, SettingView>
    decreases entries.len(),
{
    if entries.len() == 0 {
        Map::empty()
    } else {
        entry_views(entries.drop_last()).insert(entries.last().0@, entries.last().1@)
    }
}

/// What a settings file says.
pub open spec fn lookup(table: Map<Seq<char>, SettingView>, key: Seq<char>) -> Option<SettingView> {
    if table.contains_key(key) {
        Some(table[key])
    } else {
        None
    }
}

/// The entry under `key`.
pub fn find<'a>(entries: &'a Vec<(String, Setting)>, key: &str) -> (found: Option<&'a Setting>)
    ensures
        match lookup(entry_views(entries@), key@) {
            Some(view) => found matches Some(s) && s@ == view,
            None => found is None,
        },
{
    let mut i: usize = entries.len();
    proof {
        assert(entries@.take(i as int) == entries@);
    }
    while i > 0
        invariant
            i <= entries.len(),
            lookup(entry_views(entries@), key@) == lookup(
                entry_views(entries@.take(i as int)),
                key@,
            ),
        decreases i,
    {
        i = i - 1;
        proof {
            let here = entries@.take(i as int + 1);
            assert(here.drop_last() == entries@.take(i as int));
            assert(here.last() == entries@[i as int]);
        }
        if same_text(entries[i].0.as_str(), key) {
            return Some(&entries[i].1);
        }
    }
    None
}

// ---------------------------------------------------------------------------
// Lines that a settings file is written as
// ---------------------------------------------------------------------------

/// How a value is written.
pub open spec fn written(value: SettingView) -> Seq<char> {
    match value {
        SettingView::Int(n) => decimal(n),
        SettingView::Bool(b) => if b {
            "true"@
        } else {
            "false"@
        },
        SettingView::Text(s) => "\""@ + s + "\""@,
        SettingView::Ints(v) => "["@ + joined(v.map_values(|n: int| decimal(n)), ", "@) + "]"@,
        SettingView::Other => seq![],
    }
}

/// One line of a settings file.
pub open spec fn line(key: Seq<char>, value: SettingView) -> Seq<char> {
    key + " = "@ + written(value) + "\n"@
}

/// The lines of a settings file.
pub open spec fn lines_of(entries: Seq<(Seq<char>, SettingView)>) -> Seq<char>
    decreases entries.len(),
{
    if entries.len() == 0 {
        seq![]
    } else {
        lines_of(entries.drop_last()) + line(entries.last().0, entries.last().1)
    }
}

/// What lines say, by key.
pub open spec fn said_by(entries: Seq<(Seq<char>, SettingView)>) -> Map<Seq<char>, SettingView>
    decreases entries.len(),
{
    if entries.len() == 0 {
        Map::empty()
    } else {
        said_by(entries.drop_last()).insert(entries.last().0, entries.last().1)
    }
}

/// The keys of the settings file.
pub open spec fn setting_key(key: Seq<char>) -> bool {
    ||| key == "refresh_secs"@
    ||| key == "launch_at_login"@
    ||| key == "notify_thresholds"@
    ||| key == "notify_on_reset"@
    ||| key == "icon_style"@
    ||| key == "check_updates"@
    ||| key == "cli_refresh"@
}

/// The words that the settings file holds as text.
pub open spec fn setting_word(word: Seq<char>) -> bool {
    ||| word == "color"@
    ||| word == "mono-auto"@
    ||| word == "mono-dark"@
    ||| word == "mono-light"@
}

/// Values that are written so that they read back: integers of 64 bits, flags
/// and the words above.
pub open spec fn simple_value(value: SettingView) -> bool {
    match value {
        SettingView::Int(n) => i64::MIN <= n <= i64::MAX,
        SettingView::Bool(_) => true,
        SettingView::Text(s) => setting_word(s),
        SettingView::Ints(v) => forall|i: int|
            0 <= i < v.len() ==> i64::MIN <= #[trigger] v[i] <= i64::MAX,
        SettingView::Other => false,
    }
}

/// Lines with simple values under the keys of the settings file, each key once
/// at most.
pub open spec fn simple_lines(entries: Seq<(Seq<char>, SettingView)>) -> bool {
    &&& forall|i: int|
        0 <= i < entries.len() ==> setting_key((#[trigger] entries[i]).0) && simple_value(
            entries[i].1,
        )
    &&& forall|i: int, j: int|
        0 <= i < j < entries.len() ==> (#[trigger] entries[i]).0 != (#[trigger] entries[j]).0
}

/// What `toml` reads in a text: the entries of its top-level table, or none
/// where it reports an error.
pub uninterp spec fn parsed_toml(text: Seq<char>) -> Option<Map<Seq<char>, SettingView>>;

/// Parsing of a `toml::Table`, with an error dropped, and each value told apart
/// by its variant. The result is a function of the text alone; and of a text
/// made of simple lines, it is what the lines say.
#[verifier::external_body]
pub(crate) fn parse_table(text: &str) -> (entries: Option<Vec<(String, Setting)>>)
    ensures
        parsed_toml(text@) == (match entries {
            Some(v) => Some(entry_views(v@)),
            None => None,
        }),
        forall|written: Seq<(Seq<char>, SettingView)>|
            simple_lines(written) && text@ == #[trigger] lines_of(written) ==> entries is Some
                && entry_views(entries->0@) == said_by(written),
{
    let table = text.parse::<toml::Table>().ok()?;
    let convert = |(key, value)| match value {
        toml::Value::Integer(n) => (key, Setting::Int(n)),
        toml::Value::Boolean(b) => (key, Setting::Bool(b)),
        toml::Value::String(s) => (key, Setting::Text(s)),
        toml::Value::Array(a) => {
            (key, Setting::List(a.iter().map(toml::Value::as_integer).collect()))
        },
        _ => (key, Setting::Other),
    };
    Some(table.into_iter().map(convert).collect())
}

} // verus!
