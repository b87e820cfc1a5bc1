//! Finding every config directory ("profile") of the assistant on the machine.
//!
//! The assistant takes its config directory from `$CLAUDE_CONFIG_DIR`, else it
//! is the default one, `~/.NAME`. The tray runs from the login session and may
//! not see the same environment as the hook, so it looks at more than its own:
//!
//! * the primary directory, which its own environment names. It always counts;
//! * the default one, when the primary is something else;
//! * sibling directories named `~/.NAME-*`;
//! * the directories that the hook has noted.
//!
//! Every one but the primary counts only if the assistant has used it.

use vstd::prelude::*;
use vstd::string::*;

use crate::assistant::Assistant;
use crate::config::{config_dir, config_dir_of};
use crate::files::FileRead;
use crate::hook::command::text_of;
use crate::hook::report::{
    concat2, concat3, freshness_text, no_lines, push_line, status_found, status_in, StatusReport,
    StatusView,
};
use crate::paths::{
    component_len, component_len_bounds, components, contains_path, file_name, holds_place, join,
    joined_path, last_name, same_path, same_place,
};
use crate::source::{cache_path_in, config_dir_path, CACHE_FILE_NAME};
use crate::text::{
    begins, chars_of, digits, joined, nat_text, piece_len, piece_len_bounds, pieces, same_text,
    split, starts_with, string_of, strip_first, texts, trim, trim_start, trim_end_is_prefix,
    trim_start_is_suffix, trim_twice, trimmed, without_first,
};
use crate::time::Timestamp;

verus! {

/// Name of the file, beside the settings, that lists the directories the hook
/// has written to other than the default: one absolute path per line.
pub open spec fn known_dirs_file(assistant: Assistant) -> Seq<char> {
    assistant.name@ + "-config-dirs"@
}

/// Why a directory that was noted does not count.
pub const GONE: &'static str = "no longer exists";

/// Why a directory that is there does not count.
pub open spec fn unused(assistant: Assistant) -> Seq<char> {
    "no sessions/ and projects/ folders, so "@ + assistant.product() + " has not used it"@
}

fn unused_text(assistant: &Assistant) -> (text: String)
    ensures
        text@ == unused(*assistant),
{
    let product = assistant.product_name();
    concat3("no sessions/ and projects/ folders, so ", product.as_str(), " has not used it")
}

// ---------------------------------------------------------------------------
// Profiles
// ---------------------------------------------------------------------------

/// One config directory of the assistant, and the two usage files in it.
#[derive(Clone, Debug, PartialEq, Eq)]
pub struct Profile {
    /// Short name: `default` for the default one, `work` for `~/.NAME-work`, the
    /// folder's name otherwise.
    pub name: String,
    pub config_dir: String,
    /// Whether this is the directory that the environment points at.
    pub primary: bool,
    /// The statusline hook's cache.
    pub cache_path: String,
    /// The assistant's own record.
    pub app_cache_path: String,
}

/// The contents of a [`Profile`].
pub ghost struct ProfileView {
    pub name: Seq<char>,
    pub config_dir: Seq<char>,
    pub primary: bool,
    pub cache_path: Seq<char>,
    pub app_cache_path: Seq<char>,
}

impl View for Profile {
    type V = ProfileView;

    open spec fn view(&self) -> ProfileView {
        ProfileView {
            name: self.name@,
            config_dir: self.config_dir@,
            primary: self.primary,
            cache_path: self.cache_path@,
            app_cache_path: self.app_cache_path@,
        }
    }
}

/// `s` without `prefix`, if it begins with it.
pub open spec fn without_prefix(s: Seq<char>, prefix: Seq<char>) -> Seq<char> {
    if begins(s, prefix) {
        s.skip(prefix.len() as int)
    } else {
        s
    }
}

fn strip_prefix(text: &str, prefix: &str) -> (rest: String)
    ensures
        rest@ == without_prefix(text@, prefix@),
{
    if starts_with(text, prefix) {
        let chars = chars_of(text);
        let from = chars_of(prefix).len();
        proof {
            assert(chars@.subrange(from as int, chars@.len() as int) == chars@.skip(from as int));
        }
        string_of(&chars, from, chars.len())
    } else {
        text.to_owned()
    }
}

/// The short name of a directory: `work` for `.NAME-work`, else the folder's
/// name without a leading dot, else the whole path.
pub open spec fn short_name(
    dir: Seq<char>,
    is_default: bool,
    assistant: Assistant,
) -> Seq<char> {
    if is_default {
        "default"@
    } else {
        let folder = match last_name(dir) {
            Some(name) => name,
            None => Seq::empty(),
        };
        let bare = without_first(without_prefix(folder, assistant.dot_prefix()), '.');
        if bare.len() == 0 {
            dir
        } else {
            bare
        }
    }
}

/// The short name of a directory.
pub fn base_name(dir: &str, is_default: bool, assistant: &Assistant) -> (name: String)
    ensures
        name@ == short_name(dir@, is_default, *assistant),
{
    if is_default {
        return "default".to_owned();
    }
    let folder = match file_name(dir) {
        Some(name) => name,
        None => {
            let none = "".to_owned();
            proof {
                reveal_strlit("");
                assert(none@ == Seq::<char>::empty());
            }
            none
        },
    };
    let prefix = assistant.sibling_prefix();
    let bare = strip_prefix(folder.as_str(), prefix.as_str());
    let bare = strip_first(bare.as_str(), '.');
    if bare.as_str().is_empty() {
        dir.to_owned()
    } else {
        bare
    }
}

/// Whether a directory is the default one.
pub open spec fn is_default_dir(dir: Seq<char>, home: Seq<char>, assistant: Assistant) -> bool {
    same_place(dir, joined_path(home, assistant.dot_dir()))
}

/// The profile of a directory. The record of the default one is beside it, in
/// the home directory.
pub open spec fn profile_of(
    dir: Seq<char>,
    home: Seq<char>,
    primary: bool,
    assistant: Assistant,
) -> ProfileView {
    ProfileView {
        name: short_name(dir, is_default_dir(dir, home, assistant), assistant),
        config_dir: dir,
        primary,
        cache_path: joined_path(dir, CACHE_FILE_NAME@),
        app_cache_path: if is_default_dir(dir, home, assistant) {
            joined_path(home, assistant.dot_json())
        } else {
            joined_path(dir, assistant.dot_json())
        },
    }
}

impl Profile {
    /// The paths that the assistant uses for `config_dir`.
    pub fn new(config_dir: String, home: &str, primary: bool, assistant: &Assistant) -> (profile:
        Self)
        ensures
            profile@ == profile_of(config_dir@, home@, primary, *assistant),
    {
        let dir_name = assistant.dir_name();
        let record = assistant.record_name();
        let default_dir = join(home, dir_name.as_str());
        let is_default = same_path(config_dir.as_str(), default_dir.as_str());
        let app_cache_path = if is_default {
            join(home, record.as_str())
        } else {
            join(config_dir.as_str(), record.as_str())
        };
        Profile {
            name: base_name(config_dir.as_str(), is_default, assistant),
            cache_path: cache_path_in(config_dir.as_str()),
            app_cache_path,
            primary,
            config_dir,
        }
    }
}

/// Where the known-directories file is.
pub open spec fn known_path_of(config_home: Option<&str>, assistant: Assistant) -> Seq<char> {
    joined_path(config_dir_of(config_home, assistant), known_dirs_file(assistant))
}

/// Default known-directories file, inside the tray's own directory.
pub fn known_dirs_path(config_home: Option<&str>, assistant: &Assistant) -> (path: String)
    ensures
        path@ == joined_path(
            config_dir_of(config_home, *assistant),
            known_dirs_file(*assistant),
        ),
        path@ == known_path_of(config_home, *assistant),
{
    let dir = config_dir(config_home, assistant);
    let name = concat2(assistant.name.as_str(), "-config-dirs");
    join(dir.as_str(), name.as_str())
}

// ---------------------------------------------------------------------------
// Siblings
// ---------------------------------------------------------------------------

/// `a` comes before `b`, or is `b`: by the first character in which they
/// differ, and the shorter one first.
pub open spec fn in_order(a: Seq<char>, b: Seq<char>) -> bool
    decreases a.len(),
{
    if a.len() == 0 {
        true
    } else if b.len() == 0 {
        false
    } else if a[0] != b[0] {
        a[0] < b[0]
    } else {
        in_order(a.drop_first(), b.drop_first())
    }
}

/// Of two texts one comes first.
pub proof fn in_order_either_way(a: Seq<char>, b: Seq<char>)
    ensures
        in_order(a, b) || in_order(b, a),
    decreases a.len(),
{
    if a.len() > 0 && b.len() > 0 && a[0] == b[0] {
        in_order_either_way(a.drop_first(), b.drop_first());
    }
}

/// Only equal texts come before one another.
pub proof fn in_order_both_ways(a: Seq<char>, b: Seq<char>)
    requires
        in_order(a, b),
        in_order(b, a),
    ensures
        a == b,
    decreases a.len(),
{
    if a.len() > 0 && b.len() > 0 {
        in_order_both_ways(a.drop_first(), b.drop_first());
        assert(a == seq![a[0]] + a.drop_first());
        assert(b == seq![b[0]] + b.drop_first());
    } else {
        assert(a == b);
    }
}

/// What comes before something that comes before a third comes before that.
pub proof fn in_order_onwards(a: Seq<char>, b: Seq<char>, c: Seq<char>)
    requires
        in_order(a, b),
        in_order(b, c),
    ensures
        in_order(a, c),
    decreases a.len(),
{
    if a.len() > 0 && b.len() > 0 && c.len() > 0 && a[0] == b[0] && b[0] == c[0] {
        in_order_onwards(a.drop_first(), b.drop_first(), c.drop_first());
    }
}

fn comes_first(a: &str, b: &str) -> (first: bool)
    ensures
        first == in_order(a@, b@),
{
    let left = chars_of(a);
    let right = chars_of(b);
    let mut i: usize = 0;
    proof {
        assert(left@.skip(0) == left@);
        assert(right@.skip(0) == right@);
    }
    while i < left.len()
        invariant
            i <= left.len(),
            i <= right.len(),
            in_order(a@, b@) == in_order(left@.skip(i as int), right@.skip(i as int)),
        decreases left.len() - i,
    {
        proof {
            assert(left@.skip(i as int).drop_first() == left@.skip(i as int + 1));
            if i < right.len() {
                assert(right@.skip(i as int).drop_first() == right@.skip(i as int + 1));
            }
        }
        if i >= right.len() {
            return false;
        }
        if left[i] != right[i] {
            return left[i] < right[i];
        }
        i = i + 1;
    }
    true
}

/// Each text comes before the ones behind it.
pub open spec fn sorted(names: Seq<Seq<char>>) -> bool {
    forall|i: int, j: int|
        0 <= i < j < names.len() ==> in_order(#[trigger] names[i], #[trigger] names[j])
}

/// An entry of the home directory.
#[derive(Clone, Debug, PartialEq, Eq)]
pub struct Entry {
    pub name: String,
    pub is_dir: bool,
}

/// Whether an entry is a sibling profile's directory.
pub open spec fn is_sibling(entry: Entry, assistant: Assistant) -> bool {
    begins(entry.name@, assistant.dot_prefix()) && entry.is_dir
}

/// The names of the sibling profiles among the entries, as they come.
pub open spec fn sibling_names(entries: Seq<Entry>, assistant: Assistant) -> Seq<Seq<char>>
    decreases entries.len(),
{
    if entries.len() == 0 {
        Seq::empty()
    } else if is_sibling(entries.last(), assistant) {
        sibling_names(entries.drop_last(), assistant).push(entries.last().name@)
    } else {
        sibling_names(entries.drop_last(), assistant)
    }
}

/// `names` are those of the sibling profiles among the entries, in order.
pub open spec fn lists_siblings(
    names: Seq<Seq<char>>,
    entries: Seq<Entry>,
    assistant: Assistant,
) -> bool {
    sorted(names) && names.to_multiset() == sibling_names(entries, assistant).to_multiset()
}

/// A name put in at its place leaves the list in order, and adds only itself.
proof fn put_in(names: Seq<Seq<char>>, at: int, name: Seq<char>)
    requires
        sorted(names),
        0 <= at <= names.len(),
        forall|k: int| 0 <= k < at ==> in_order(#[trigger] names[k], name),
        at < names.len() ==> in_order(name, names[at]),
    ensures
        sorted(names.insert(at, name)),
        names.insert(at, name).to_multiset() == names.to_multiset().insert(name),
{
    broadcast use vstd::seq_lib::group_to_multiset_ensures;

    let after = names.insert(at, name);
    assert forall|i: int, j: int| 0 <= i < j < after.len() implies in_order(
        #[trigger] after[i],
        #[trigger] after[j],
    ) by {
        let left = if i < at {
            i
        } else {
            i - 1
        };
        let right = if j < at {
            j
        } else {
            j - 1
        };
        if i == at {
            assert(after[j] == names[right]);
            if right > at {
                assert(in_order(names[at], names[right]));
                in_order_onwards(name, names[at], names[right]);
            }
        } else if j == at {
            assert(after[i] == names[left]);
        } else {
            assert(after[i] == names[left]);
            assert(after[j] == names[right]);
        }
    }
    assert(after.remove(at) == names);
    assert(after[at] == name);
    assert(after.contains(name));
    assert(after.to_multiset() =~= names.to_multiset().insert(name));
}

/// The names of the sibling profiles among the entries of the home directory,
/// sorted, so that the order of discovery is stable.
fn sorted_siblings(entries: &Vec<Entry>, assistant: &Assistant) -> (names: Vec<String>)
    ensures
        lists_siblings(texts(names@), entries@, *assistant),
{
    let prefix = assistant.sibling_prefix();
    let mut names: Vec<String> = Vec::new();
    let mut i: usize = 0;
    proof {
        assert(texts(names@) == Seq::<Seq<char>>::empty());
        assert(entries@.take(0) == Seq::<Entry>::empty());
    }
    while i < entries.len()
        invariant
            i <= entries.len(),
            lists_siblings(texts(names@), entries@.take(i as int), *assistant),
            prefix@ == assistant.dot_prefix(),
        decreases entries.len() - i,
    {
        proof {
            assert(entries@.take(i as int + 1).drop_last() == entries@.take(i as int));
        }
        if starts_with(entries[i].name.as_str(), prefix.as_str()) && entries[i].is_dir {
            let name = entries[i].name.clone();
            let ghost before = names@;
            let mut at: usize = 0;
            while at < names.len() && !comes_first(name.as_str(), names[at].as_str())
                invariant
                    at <= names.len(),
                    forall|k: int| 0 <= k < at ==> in_order(#[trigger] texts(names@)[k], name@),
                decreases names.len() - at,
            {
                proof {
                    assert(texts(names@)[at as int] == names@[at as int]@);
                    in_order_either_way(name@, names@[at as int]@);
                }
                at = at + 1;
            }
            proof {
                if at < names.len() {
                    assert(texts(names@)[at as int] == names@[at as int]@);
                }
                put_in(texts(before), at as int, name@);
                vstd::seq_lib::to_multiset_build(
                    sibling_names(entries@.take(i as int), *assistant),
                    name@,
                );
                assert(texts(before.insert(at as int, name)) == texts(before).insert(
                    at as int,
                    name@,
                ));
            }
            names.insert(at, name);
        }
        i = i + 1;
    }
    proof {
        assert(entries@.take(i as int) == entries@);
    }
    names
}

/// Names as paths inside the home directory.
pub open spec fn in_home(names: Seq<Seq<char>>, home: Seq<char>) -> Seq<Seq<char>> {
    names.map_values(|name: Seq<char>| joined_path(home, name))
}

/// The sibling profiles in the home directory, in order.
pub open spec fn sibling_paths(
    paths: Seq<Seq<char>>,
    home: Seq<char>,
    entries: Seq<Entry>,
    assistant: Assistant,
) -> bool {
    exists|names: Seq<Seq<char>>|
        #[trigger] lists_siblings(names, entries, assistant) && paths == in_home(names, home)
}

/// `~/.NAME-*` directories among the entries of the home directory, sorted.
pub fn sibling_profiles(home: &str, entries: &Vec<Entry>, assistant: &Assistant) -> (paths: Vec<
    String,
>)
    ensures
        sibling_paths(texts(paths@), home@, entries@, *assistant),
{
    let names = sorted_siblings(entries, assistant);
    let mut paths: Vec<String> = Vec::new();
    let mut i: usize = 0;
    while i < names.len()
        invariant
            i <= names.len(),
            paths.len() == i,
            forall|k: int| 0 <= k < i ==> #[trigger] paths@[k]@ == joined_path(home@, names@[k]@),
        decreases names.len() - i,
    {
        paths.push(join(home, names[i].as_str()));
        i = i + 1;
    }
    proof {
        assert(texts(paths@) =~= in_home(texts(names@), home@));
        assert(lists_siblings(texts(names@), entries@, *assistant));
    }
    paths
}

/// The order of discovery is stable: it does not depend on the order in which
/// the entries of the home directory come.
pub proof fn sibling_order_is_stable(
    a: Seq<Seq<char>>,
    b: Seq<Seq<char>>,
    home: Seq<char>,
    entries: Seq<Entry>,
    reordered: Seq<Entry>,
    assistant: Assistant,
)
    requires
        sibling_paths(a, home, entries, assistant),
        sibling_paths(b, home, reordered, assistant),
        entries.to_multiset() == reordered.to_multiset(),
    ensures
        a == b,
{
    sibling_names_of_reordered(entries, reordered, assistant);
    let x = choose|names: Seq<Seq<char>>|
        #[trigger] lists_siblings(names, entries, assistant) && a == in_home(names, home);
    let y = choose|names: Seq<Seq<char>>|
        #[trigger] lists_siblings(names, reordered, assistant) && b == in_home(names, home);
    let leq = |p: Seq<char>, q: Seq<char>| in_order(p, q);
    assert forall|p: Seq<char>| #[trigger] leq(p, p) by {
        in_order_either_way(p, p);
    }
    assert forall|p: Seq<char>, q: Seq<char>| #[trigger] leq(p, q) && #[trigger] leq(q, p) implies p
        == q by {
        in_order_both_ways(p, q);
    }
    assert forall|p: Seq<char>, q: Seq<char>, r: Seq<char>| #[trigger]
        leq(p, q) && #[trigger] leq(q, r) implies leq(p, r) by {
        in_order_onwards(p, q, r);
    }
    assert forall|p: Seq<char>, q: Seq<char>| #[trigger] leq(p, q) || leq(q, p) by {
        in_order_either_way(p, q);
    }
    assert(vstd::relations::total_ordering(leq));
    assert forall|i: int, j: int| 0 <= i < j < x.len() implies #[trigger] leq(x[i], x[j]) by {
        assert(in_order(x[i], x[j]));
    }
    assert forall|i: int, j: int| 0 <= i < j < y.len() implies #[trigger] leq(y[i], y[j]) by {
        assert(in_order(y[i], y[j]));
    }
    vstd::seq_lib::lemma_sorted_unique(x, y, leq);
}

/// How often a name is that of a sibling profile among the entries.
proof fn sibling_names_count(entries: Seq<Entry>, name: Seq<char>, assistant: Assistant)
    ensures
        sibling_names(entries, assistant).to_multiset().count(name) == named_entries(
            entries,
            name,
            assistant,
        ),
    decreases entries.len(),
{
    broadcast use vstd::seq_lib::group_to_multiset_ensures;

    if entries.len() > 0 {
        sibling_names_count(entries.drop_last(), name, assistant);
    }
}

/// The number of entries that are sibling profiles of a name.
spec fn named_entries(entries: Seq<Entry>, name: Seq<char>, assistant: Assistant) -> nat
    decreases entries.len(),
{
    if entries.len() == 0 {
        0
    } else {
        named_entries(entries.drop_last(), name, assistant) + (if is_sibling(entries.last(), assistant)
            && entries.last().name@ == name {
            1nat
        } else {
            0nat
        })
    }
}

/// Taking out an entry takes it out of the count.
proof fn named_without(entries: Seq<Entry>, at: int, name: Seq<char>, assistant: Assistant)
    requires
        0 <= at < entries.len(),
    ensures
        named_entries(entries, name, assistant) == named_entries(
            entries.remove(at),
            name,
            assistant,
        ) + (if is_sibling(entries[at], assistant) && entries[at].name@ == name {
            1nat
        } else {
            0nat
        }),
    decreases entries.len(),
{
    if at == entries.len() - 1 {
        assert(entries.remove(at) == entries.drop_last());
    } else {
        named_without(entries.drop_last(), at, name, assistant);
        assert(entries.remove(at).drop_last() == entries.drop_last().remove(at));
        assert(entries.remove(at).last() == entries.last());
    }
}

/// The count does not depend on the order.
proof fn named_in_any_order(
    entries: Seq<Entry>,
    reordered: Seq<Entry>,
    name: Seq<char>,
    assistant: Assistant,
)
    requires
        entries.to_multiset() == reordered.to_multiset(),
    ensures
        named_entries(entries, name, assistant) == named_entries(reordered, name, assistant),
    decreases entries.len(),
{
    broadcast use vstd::seq_lib::group_to_multiset_ensures;

    assert(entries.len() == entries.to_multiset().len());
    assert(reordered.len() == reordered.to_multiset().len());
    if entries.len() > 0 {
        let entry = entries.last();
        assert(entries.contains(entry));
        assert(entries.to_multiset().count(entry) > 0);
        assert(reordered.contains(entry));
        let at = choose|i: int| 0 <= i < reordered.len() && reordered[i] == entry;
        named_without(reordered, at, name, assistant);
        assert(entries.remove(entries.len() - 1) == entries.drop_last());
        assert(entries.drop_last().to_multiset() =~= reordered.remove(at).to_multiset());
        named_in_any_order(entries.drop_last(), reordered.remove(at), name, assistant);
    }
}

proof fn sibling_names_of_reordered(
    entries: Seq<Entry>,
    reordered: Seq<Entry>,
    assistant: Assistant,
)
    requires
        entries.to_multiset() == reordered.to_multiset(),
    ensures
        sibling_names(entries, assistant).to_multiset() == sibling_names(reordered, assistant).to_multiset(),
{
    assert forall|name: Seq<char>|
        #[trigger] sibling_names(entries, assistant).to_multiset().count(name) == sibling_names(
            reordered,
            assistant,
        ).to_multiset().count(name) by {
        sibling_names_count(entries, name, assistant);
        sibling_names_count(reordered, name, assistant);
        named_in_any_order(entries, reordered, name, assistant);
    }
    assert(sibling_names(entries, assistant).to_multiset() =~= sibling_names(reordered, assistant).to_multiset());
}

// ---------------------------------------------------------------------------
// Discovery
// ---------------------------------------------------------------------------

/// A candidate that did not count, and why.
#[derive(Clone, Debug, PartialEq, Eq)]
pub struct Skipped {
    pub config_dir: String,
    pub reason: String,
}

/// The outcome of one discovery.
#[derive(Clone, Debug, PartialEq, Eq)]
pub struct Discovery {
    /// The primary profile first, then the rest in the order of discovery.
    pub profiles: Vec<Profile>,
    pub skipped: Vec<Skipped>,
}

/// What was seen of a candidate.
#[derive(Clone, Copy, Debug, PartialEq, Eq, Structural)]
pub struct DirLook {
    pub is_dir: bool,
    /// Whether there is a `sessions` directory in it.
    pub has_sessions: bool,
    /// Whether there is a `projects` directory in it.
    pub has_projects: bool,
}

/// Whether the assistant has used a directory.
pub fn looks_like_profile(look: DirLook) -> (used: bool)
    ensures
        used == (look.has_sessions && look.has_projects),
{
    look.has_sessions && look.has_projects
}

/// The candidates besides the primary directory.
pub open spec fn candidate_paths(
    home: Seq<char>,
    siblings: Seq<Seq<char>>,
    known: Seq<Seq<char>>,
    assistant: Assistant,
) -> Seq<Seq<char>> {
    seq![joined_path(home, assistant.dot_dir())] + siblings + known
}

/// A copy of a list of strings at the end of another.
fn extend(list: &mut Vec<String>, more: &Vec<String>)
    ensures
        texts(final(list)@) == texts(old(list)@) + texts(more@),
{
    let ghost before = list@;
    let mut i: usize = 0;
    proof {
        assert(texts(list@) == texts(before) + texts(more@.take(0)));
    }
    while i < more.len()
        invariant
            i <= more.len(),
            texts(list@) == texts(before) + texts(more@.take(i as int)),
        decreases more.len() - i,
    {
        let item = more[i].clone();
        proof {
            assert(texts(more@.take(i as int + 1)) == texts(more@.take(i as int)).push(item@));
            assert(texts(list@.push(item)) == texts(list@).push(item@));
        }
        list.push(item);
        i = i + 1;
    }
    proof {
        assert(more@.take(i as int) == more@);
    }
}

/// The candidates besides the primary directory: the default one, the sibling
/// profiles, and those that the hook has noted.
pub fn candidates(
    home: &str,
    siblings: &Vec<String>,
    known: &Vec<String>,
    assistant: &Assistant,
) -> (paths: Vec<String>)
    ensures
        texts(paths@) == candidate_paths(home@, texts(siblings@), texts(known@), *assistant),
{
    let mut paths: Vec<String> = Vec::new();
    let name = assistant.dir_name();
    paths.push(join(home, name.as_str()));
    proof {
        assert(texts(paths@) =~= seq![joined_path(home@, assistant.dot_dir())]);
    }
    extend(&mut paths, siblings);
    extend(&mut paths, known);
    paths
}

/// A candidate that is neither the primary directory nor an earlier candidate.
pub open spec fn first_mention(primary: Seq<char>, paths: Seq<Seq<char>>, i: int) -> bool {
    &&& !same_place(primary, paths[i])
    &&& forall|j: int| 0 <= j < i ==> !same_place(#[trigger] paths[j], paths[i])
}

/// What was seen of a candidate, nothing where nobody looked.
pub open spec fn look_at(looks: Seq<DirLook>, i: int) -> DirLook {
    if i < looks.len() {
        looks[i]
    } else {
        DirLook { is_dir: false, has_sessions: false, has_projects: false }
    }
}

/// Whether a candidate counts.
pub open spec fn counts(
    primary: Seq<char>,
    paths: Seq<Seq<char>>,
    looks: Seq<DirLook>,
    i: int,
) -> bool {
    &&& first_mention(primary, paths, i)
    &&& look_at(looks, i).is_dir
    &&& look_at(looks, i).has_sessions
    &&& look_at(looks, i).has_projects
}

/// Why a candidate is mentioned as skipped, if it is. A noted directory that is
/// gone is worth a mention; a default one that never was is not.
pub open spec fn skip_reason(
    primary: Seq<char>,
    paths: Seq<Seq<char>>,
    looks: Seq<DirLook>,
    known: Seq<Seq<char>>,
    assistant: Assistant,
    i: int,
) -> Option<Seq<char>> {
    if !first_mention(primary, paths, i) || counts(primary, paths, looks, i) {
        None
    } else if look_at(looks, i).is_dir {
        Some(unused(assistant))
    } else if holds_place(known, paths[i]) {
        Some(GONE@)
    } else {
        None
    }
}

/// The directories that count among the first `n` candidates, behind the
/// primary one.
pub open spec fn counted(
    primary: Seq<char>,
    paths: Seq<Seq<char>>,
    looks: Seq<DirLook>,
    n: int,
) -> Seq<Seq<char>>
    decreases n,
{
    if n <= 0 {
        seq![primary]
    } else if counts(primary, paths, looks, n - 1) {
        counted(primary, paths, looks, n - 1).push(paths[n - 1])
    } else {
        counted(primary, paths, looks, n - 1)
    }
}

/// The skipped ones among the first `n` candidates, each with its reason.
pub open spec fn passed_over(
    primary: Seq<char>,
    paths: Seq<Seq<char>>,
    looks: Seq<DirLook>,
    known: Seq<Seq<char>>,
    assistant: Assistant,
    n: int,
) -> Seq<(Seq<char>, Seq<char>)>
    decreases n,
{
    if n <= 0 {
        Seq::empty()
    } else {
        let before = passed_over(primary, paths, looks, known, assistant, n - 1);
        match skip_reason(primary, paths, looks, known, assistant, n - 1) {
            Some(reason) => before.push((paths[n - 1], reason)),
            None => before,
        }
    }
}

/// The names of the first `n` profiles: a name that an earlier profile has
/// gives way to the whole path.
pub open spec fn distinct_names(dirs: Seq<Seq<char>>, names: Seq<Seq<char>>, n: int) -> Seq<
    Seq<char>,
>
    decreases n,
{
    if n <= 0 {
        Seq::empty()
    } else {
        let before = distinct_names(dirs, names, n - 1);
        before.push(
            if before.contains(names[n - 1]) {
                dirs[n - 1]
            } else {
                names[n - 1]
            },
        )
    }
}

/// The short names of directories.
pub open spec fn short_names(
    dirs: Seq<Seq<char>>,
    home: Seq<char>,
    assistant: Assistant,
) -> Seq<Seq<char>> {
    dirs.map_values(|dir: Seq<char>| short_name(dir, is_default_dir(dir, home, assistant), assistant))
}

/// The profiles of directories, the first of them the primary one.
pub open spec fn profiles_of(
    dirs: Seq<Seq<char>>,
    home: Seq<char>,
    assistant: Assistant,
) -> Seq<ProfileView> {
    Seq::new(
        dirs.len(),
        |i: int|
            ProfileView {
                name: distinct_names(dirs, short_names(dirs, home, assistant), dirs.len() as int)[i],
                ..profile_of(dirs[i], home, i == 0, assistant)
            },
    )
}

/// Profiles as they are.
pub open spec fn profile_views(profiles: Seq<Profile>) -> Seq<ProfileView> {
    profiles.map_values(|p: Profile| p@)
}

/// Skipped candidates, each with its reason.
pub open spec fn skip_views(skipped: Seq<Skipped>) -> Seq<(Seq<char>, Seq<char>)> {
    skipped.map_values(|s: Skipped| (s.config_dir@, s.reason@))
}

/// The names before the `n`th stay when more profiles are named.
proof fn names_stand(dirs: Seq<Seq<char>>, names: Seq<Seq<char>>, n: int, i: int)
    requires
        0 <= i < n,
    ensures
        distinct_names(dirs, names, n).len() == n,
        distinct_names(dirs, names, n)[i] == distinct_names(dirs, names, i + 1)[i],
    decreases n,
{
    assert(distinct_names(dirs, names, 0).len() == 0);
    if n > 1 {
        names_stand(dirs, names, n - 1, if i < n - 1 {
            i
        } else {
            0
        });
    }
    if i < n - 1 {
        assert(distinct_names(dirs, names, n)[i] == distinct_names(dirs, names, n - 1)[i]);
    }
}

fn is_first_mention(primary: &str, paths: &Vec<String>, i: usize) -> (first: bool)
    requires
        i < paths.len(),
    ensures
        first == first_mention(primary@, texts(paths@), i as int),
{
    let ghost all = texts(paths@);
    proof {
        assert(all[i as int] == paths@[i as int]@);
    }
    if same_path(primary, paths[i].as_str()) {
        return false;
    }
    let mut j: usize = 0;
    while j < i
        invariant
            j <= i < paths.len(),
            all == texts(paths@),
            all[i as int] == paths@[i as int]@,
            forall|k: int| 0 <= k < j ==> !same_place(#[trigger] all[k], all[i as int]),
        decreases i - j,
    {
        proof {
            assert(all[j as int] == paths@[j as int]@);
        }
        if same_path(paths[j].as_str(), paths[i].as_str()) {
            return false;
        }
        j = j + 1;
    }
    true
}

fn has_name(profiles: &Vec<Profile>, count: usize, name: &str) -> (found: bool)
    requires
        count <= profiles.len(),
    ensures
        found == exists|k: int| 0 <= k < count && (#[trigger] profiles@[k]).name@ == name@,
{
    let mut i: usize = 0;
    while i < count
        invariant
            i <= count <= profiles.len(),
            forall|k: int| 0 <= k < i ==> (#[trigger] profiles@[k]).name@ != name@,
        decreases count - i,
    {
        if same_text(profiles[i].name.as_str(), name) {
            return true;
        }
        i = i + 1;
    }
    false
}

/// The directories of profiles.
pub open spec fn dirs_in(profiles: Seq<Profile>) -> Seq<Seq<char>> {
    profiles.map_values(|p: Profile| p.config_dir@)
}

/// The names of profiles.
pub open spec fn names_in(profiles: Seq<Profile>) -> Seq<Seq<char>> {
    profiles.map_values(|p: Profile| p.name@)
}

/// Two profiles can share a folder name. The first keeps the short name; later
/// ones fall back to their whole path.
pub fn dedupe_names(profiles: &mut Vec<Profile>)
    ensures
        final(profiles).len() == old(profiles).len(),
        forall|i: int|
            0 <= i < old(profiles).len() ==> (#[trigger] final(profiles)@[i])@ == (ProfileView {
                name: distinct_names(
                    dirs_in(old(profiles)@),
                    names_in(old(profiles)@),
                    old(profiles).len() as int,
                )[i],
                ..old(profiles)@[i]@
            }),
{
    let ghost before = profiles@;
    let ghost dirs = dirs_in(before);
    let ghost names = names_in(before);
    let mut i: usize = 0;
    while i < profiles.len()
        invariant
            i <= profiles.len() == before.len(),
            dirs == dirs_in(before),
            names == names_in(before),
            distinct_names(dirs, names, i as int).len() == i,
            forall|k: int|
                0 <= k < i ==> (#[trigger] profiles@[k])@ == (ProfileView {
                    name: distinct_names(dirs, names, i as int)[k],
                    ..before[k]@
                }),
            forall|k: int| i <= k < before.len() ==> #[trigger] profiles@[k] == before[k],
        decreases profiles.len() - i,
    {
        let ghost so_far = distinct_names(dirs, names, i as int);
        let ghost here = profiles@;
        let taken = has_name(profiles, i, profiles[i].name.as_str());
        proof {
            assert(names[i as int] == here[i as int].name@);
            assert(dirs[i as int] == here[i as int].config_dir@);
            if taken {
                let k = choose|k: int|
                    0 <= k < i && (#[trigger] here[k]).name@ == names[i as int];
                assert(here[k]@.name == so_far[k]);
                assert(so_far.contains(names[i as int]));
            } else {
                assert forall|k: int| 0 <= k < i implies so_far[k] != names[i as int] by {
                    assert(here[k]@.name == so_far[k]);
                }
                assert(!so_far.contains(names[i as int]));
            }
            assert forall|k: int| 0 <= k < i implies distinct_names(dirs, names, i as int + 1)[k]
                == so_far[k] by {}
        }
        if taken {
            let name = profiles[i].config_dir.clone();
            let current = &mut profiles[i];
            current.name = name;
        }
        i = i + 1;
    }
}

/// The resolution behind [`discover`]. `siblings` are the sibling profiles in
/// the home directory, `known` the directories that the hook has noted, and
/// `looks` what was seen of each of the candidates, in order.
pub fn discover_in(
    env_dir: Option<&str>,
    home: &str,
    siblings: &Vec<String>,
    known: &Vec<String>,
    looks: &[DirLook],
    assistant: &Assistant,
) -> (discovery: Discovery)
    ensures
        ({
            let primary = match env_dir {
                Some(dir) => dir@,
                None => joined_path(home@, assistant.dot_dir()),
            };
            let paths = candidate_paths(
                home@,
                texts(siblings@),
                texts(known@),
                *assistant,
            );
            &&& profile_views(discovery.profiles@) == profiles_of(
                counted(primary, paths, looks@, paths.len() as int),
                home@,
                *assistant,
            )
            &&& skip_views(discovery.skipped@) == passed_over(
                primary,
                paths,
                looks@,
                texts(known@),
                *assistant,
                paths.len() as int,
            )
        }),
{
    let primary = match env_dir {
        Some(dir) => dir.to_owned(),
        None => {
            let name = assistant.dir_name();
            join(home, name.as_str())
        },
    };
    let paths = candidates(home, siblings, known, assistant);
    let ghost all = texts(paths@);
    let ghost noted = texts(known@);
    let mut profiles: Vec<Profile> = Vec::new();
    let mut skipped: Vec<Skipped> = Vec::new();
    profiles.push(Profile::new(primary.clone(), home, true, assistant));
    proof {
        assert(dirs_in(profiles@) =~= seq![primary@]);
        assert(skip_views(skipped@) =~= Seq::empty());
    }
    let mut i: usize = 0;
    while i < paths.len()
        invariant
            i <= paths.len(),
            all == texts(paths@),
            noted == texts(known@),
            dirs_in(profiles@) == counted(primary@, all, looks@, i as int),
            skip_views(skipped@) == passed_over(
                primary@,
                all,
                looks@,
                noted,
                *assistant,
                i as int,
            ),
            profiles.len() > 0,
            forall|k: int|
                0 <= k < profiles.len() ==> (#[trigger] profiles@[k])@ == profile_of(
                    profiles@[k].config_dir@,
                    home@,
                    k == 0,
                    *assistant,
                ),
        decreases paths.len() - i,
    {
        proof {
            assert(all[i as int] == paths@[i as int]@);
        }
        if is_first_mention(primary.as_str(), &paths, i) {
            let look = if i < looks.len() {
                looks[i]
            } else {
                DirLook { is_dir: false, has_sessions: false, has_projects: false }
            };
            let dir = paths[i].clone();
            if !look.is_dir {
                if contains_path(known, dir.as_str()) {
                    let ghost before = skipped@;
                    let entry = Skipped { config_dir: dir, reason: GONE.to_owned() };
                    proof {
                        assert(skip_views(before.push(entry)) == skip_views(before).push(
                            (entry.config_dir@, entry.reason@),
                        ));
                    }
                    skipped.push(entry);
                }
            } else if !looks_like_profile(look) {
                let ghost before = skipped@;
                let entry = Skipped { config_dir: dir, reason: unused_text(assistant) };
                proof {
                    assert(skip_views(before.push(entry)) == skip_views(before).push(
                        (entry.config_dir@, entry.reason@),
                    ));
                }
                skipped.push(entry);
            } else {
                let ghost before = profiles@;
                let profile = Profile::new(dir, home, false, assistant);
                proof {
                    assert(profile@.config_dir == all[i as int]);
                    assert(dirs_in(before.push(profile)) == dirs_in(before).push(
                        profile.config_dir@,
                    ));
                }
                profiles.push(profile);
            }
        }
        i = i + 1;
    }
    let ghost dirs = counted(primary@, all, looks@, all.len() as int);
    let ghost found = profiles@;
    proof {
        assert forall|k: int| 0 <= k < found.len() implies #[trigger] names_in(found)[k]
            == short_names(dirs, home@, *assistant)[k] by {
            assert(dirs_in(found)[k] == found[k].config_dir@);
            assert(found[k]@.name == found[k].name@);
        }
        assert(names_in(found) =~= short_names(dirs, home@, *assistant));
    }
    dedupe_names(&mut profiles);
    proof {
        assert forall|k: int| 0 <= k < found.len() implies #[trigger] profile_views(profiles@)[k]
            == profiles_of(dirs, home@, *assistant)[k] by {
            assert(dirs_in(found)[k] == found[k].config_dir@);
            assert(found[k]@ == profile_of(dirs[k], home@, k == 0, *assistant));
            assert(profiles@[k]@.name == distinct_names(
                dirs,
                short_names(dirs, home@, *assistant),
                dirs.len() as int,
            )[k]);
        }
        assert(profile_views(profiles@) =~= profiles_of(dirs, home@, *assistant));
    }
    Discovery { profiles, skipped }
}

/// Discovers the profiles of this machine. `env` is `$CLAUDE_CONFIG_DIR`, which
/// counts as not set when it is empty.
pub fn discover(
    env: Option<&str>,
    home: &str,
    siblings: &Vec<String>,
    known: &Vec<String>,
    looks: &[DirLook],
    assistant: &Assistant,
) -> (discovery: Discovery)
    ensures
        ({
            let primary = config_dir_path(env, Some(home), *assistant);
            let paths = candidate_paths(
                home@,
                texts(siblings@),
                texts(known@),
                *assistant,
            );
            &&& profile_views(discovery.profiles@) == profiles_of(
                counted(primary, paths, looks@, paths.len() as int),
                home@,
                *assistant,
            )
            &&& skip_views(discovery.skipped@) == passed_over(
                primary,
                paths,
                looks@,
                texts(known@),
                *assistant,
                paths.len() as int,
            )
        }),
{
    if let Some(dir) = env {
        if !dir.is_empty() {
            return discover_in(Some(dir), home, siblings, known, looks, assistant);
        }
    }
    discover_in(None, home, siblings, known, looks, assistant)
}

/// What counts among the candidates: behind the primary directory, each is a
/// candidate that counts, and no two come from the same one.
proof fn counted_from(
    primary: Seq<char>,
    paths: Seq<Seq<char>>,
    looks: Seq<DirLook>,
    n: int,
    i: int,
) -> (k: int)
    requires
        0 <= n <= paths.len(),
        0 < i < counted(primary, paths, looks, n).len(),
    ensures
        0 <= k < n,
        counts(primary, paths, looks, k),
        counted(primary, paths, looks, n)[i] == paths[k],
        counted(primary, paths, looks, k).len() == i,
    decreases n,
{
    if counts(primary, paths, looks, n - 1) && i == counted(primary, paths, looks, n).len() - 1 {
        n - 1
    } else {
        counted_from(primary, paths, looks, n - 1, i)
    }
}

/// The primary directory heads what counts.
proof fn counted_heads(primary: Seq<char>, paths: Seq<Seq<char>>, looks: Seq<DirLook>, n: int)
    ensures
        counted(primary, paths, looks, n).len() > 0,
        counted(primary, paths, looks, n)[0] == primary,
    decreases n,
{
    if n > 0 {
        counted_heads(primary, paths, looks, n - 1);
    }
}

/// More candidates do not make what counts shorter.
proof fn counted_grows(
    primary: Seq<char>,
    paths: Seq<Seq<char>>,
    looks: Seq<DirLook>,
    m: int,
    n: int,
)
    requires
        m <= n,
    ensures
        counted(primary, paths, looks, m).len() <= counted(primary, paths, looks, n).len(),
    decreases n - m,
{
    if m < n {
        counted_grows(primary, paths, looks, m, n - 1);
    }
}

/// The primary profile always counts, comes first, and is the only one marked
/// as primary.
pub proof fn primary_comes_first(
    primary: Seq<char>,
    paths: Seq<Seq<char>>,
    looks: Seq<DirLook>,
    home: Seq<char>,
    assistant: Assistant,
)
    ensures
        ({
            let profiles = profiles_of(
                counted(primary, paths, looks, paths.len() as int),
                home,
                assistant,
            );
            &&& profiles.len() > 0
            &&& profiles[0].config_dir == primary
            &&& forall|i: int|
                0 <= i < profiles.len() ==> (#[trigger] profiles[i]).primary == (i == 0)
        }),
{
    counted_heads(primary, paths, looks, paths.len() as int);
}

/// Every profile but the primary one is a candidate that the assistant has used.
pub proof fn others_were_used(
    primary: Seq<char>,
    paths: Seq<Seq<char>>,
    looks: Seq<DirLook>,
    i: int,
)
    requires
        0 < i < counted(primary, paths, looks, paths.len() as int).len(),
    ensures
        exists|k: int|
            0 <= k < paths.len() && #[trigger] paths[k] == counted(
                primary,
                paths,
                looks,
                paths.len() as int,
            )[i] && look_at(looks, k).is_dir && look_at(looks, k).has_sessions && look_at(
                looks,
                k,
            ).has_projects,
{
    let k = counted_from(primary, paths, looks, paths.len() as int, i);
    assert(paths[k] == counted(primary, paths, looks, paths.len() as int)[i]);
}

/// Each directory is one profile at most, however often it is a candidate.
pub proof fn each_directory_once(
    primary: Seq<char>,
    paths: Seq<Seq<char>>,
    looks: Seq<DirLook>,
    i: int,
    j: int,
)
    requires
        0 <= i < j < counted(primary, paths, looks, paths.len() as int).len(),
    ensures
        !same_place(
            counted(primary, paths, looks, paths.len() as int)[i],
            counted(primary, paths, looks, paths.len() as int)[j],
        ),
{
    let n = paths.len() as int;
    counted_heads(primary, paths, looks, n);
    let l = counted_from(primary, paths, looks, n, j);
    if i > 0 {
        let k = counted_from(primary, paths, looks, n, i);
        if l <= k {
            counted_grows(primary, paths, looks, l, k);
        }
        assert(!same_place(paths[k], paths[l]));
    }
}

/// A name holds no separator.
spec fn plain_name(name: Seq<char>) -> bool {
    forall|i: int| 0 <= i < name.len() ==> #[trigger] name[i] != '/'
}

proof fn component_is_plain(s: Seq<char>)
    ensures
        plain_name(s.take(component_len(s) as int)),
    decreases s.len(),
{
    component_len_bounds(s);
    if s.len() > 0 && s[0] != '/' {
        let r = s.drop_first();
        component_is_plain(r);
        component_len_bounds(r);
        let whole = s.take(component_len(s) as int);
        let rest = r.take(component_len(r) as int);
        assert forall|i: int| 0 <= i < whole.len() implies #[trigger] whole[i] != '/' by {
            if i > 0 {
                assert(whole[i] == rest[i - 1]);
            }
        }
    }
}

proof fn components_are_plain(s: Seq<char>, at_start: bool, i: int)
    requires
        0 <= i < components(s, at_start).len(),
    ensures
        plain_name(components(s, at_start)[i]),
    decreases s.len(),
{
    if s[0] == '/' {
        components_are_plain(s.drop_first(), false, i);
    } else {
        component_len_bounds(s);
        component_is_plain(s);
        let n = component_len(s) as int;
        if s.take(n) == seq!['.'] && !at_start {
            components_are_plain(s.skip(n), false, i);
        } else if i > 0 {
            components_are_plain(s.skip(n), false, i - 1);
        }
    }
}

/// A short name is the whole path or holds no separator.
proof fn short_name_is_plain(dir: Seq<char>, is_default: bool, assistant: Assistant)
    ensures
        short_name(dir, is_default, assistant) == dir || plain_name(
            short_name(dir, is_default, assistant),
        ),
{
    if is_default {
        reveal_strlit("default");
        assert(plain_name("default"@));
    } else if last_name(dir) is Some {
        let all = components(dir, true);
        components_are_plain(dir, true, all.len() - 1);
        let folder = all.last();
        let tail = without_prefix(folder, assistant.dot_prefix());
        assert(plain_name(tail)) by {
            if begins(folder, assistant.dot_prefix()) {
                let from = assistant.dot_prefix().len() as int;
                assert forall|i: int| 0 <= i < tail.len() implies #[trigger] tail[i] != '/' by {
                    assert(tail[i] == folder[i + from]);
                }
            }
        }
        let bare = without_first(tail, '.');
        assert(plain_name(bare)) by {
            if bare.len() < tail.len() {
                assert forall|i: int| 0 <= i < bare.len() implies #[trigger] bare[i] != '/' by {
                    assert(bare[i] == tail[i + 1]);
                }
            }
        }
    }
}

/// No two profiles share a name, where their directories are different absolute
/// paths.
pub proof fn names_are_distinct(
    dirs: Seq<Seq<char>>,
    home: Seq<char>,
    assistant: Assistant,
    i: int,
    j: int,
)
    requires
        0 <= i < j < dirs.len(),
        forall|k: int| 0 <= k < dirs.len() ==> (#[trigger] dirs[k]).len() > 0 && dirs[k][0] == '/',
        dirs[i] != dirs[j],
    ensures
        profiles_of(dirs, home, assistant)[i].name != profiles_of(dirs, home, assistant)[j].name,
{
    let names = short_names(dirs, home, assistant);
    let n = dirs.len() as int;
    names_stand(dirs, names, n, i);
    names_stand(dirs, names, n, j);
    names_stand(dirs, names, j + 1, i);
    names_stand(dirs, names, j, i);
    let before = distinct_names(dirs, names, j);
    assert(before[i] == distinct_names(dirs, names, n)[i]);
    assert(before.contains(before[i]));
    assert(before.len() == j);
    assert(distinct_names(dirs, names, j + 1)[j] == (if before.contains(names[j]) {
        dirs[j]
    } else {
        names[j]
    }));
    let earlier = distinct_names(dirs, names, i);
    if i > 0 {
        names_stand(dirs, names, i, 0);
    }
    assert(earlier.len() == i);
    assert(distinct_names(dirs, names, i + 1)[i] == (if earlier.contains(names[i]) {
        dirs[i]
    } else {
        names[i]
    }));
    short_name_is_plain(dirs[i], is_default_dir(dirs[i], home, assistant), assistant);
    assert(names[i] == dirs[i] || plain_name(names[i]));
    assert(dirs[j][0] == '/');
}

// ---------------------------------------------------------------------------
// Known directories
// ---------------------------------------------------------------------------

/// The lines that hold anything, trimmed.
pub open spec fn noted_lines(lines: Seq<Seq<char>>) -> Seq<Seq<char>>
    decreases lines.len(),
{
    if lines.len() == 0 {
        Seq::empty()
    } else {
        let rest = noted_lines(lines.drop_first());
        let line = trimmed(lines[0]);
        if line.len() == 0 {
            rest
        } else {
            seq![line] + rest
        }
    }
}

/// The directories that a text lists, one per line.
pub open spec fn dirs_listed(text: Seq<char>) -> Seq<Seq<char>> {
    noted_lines(pieces(text, '\n'))
}

/// The directories in the known-directories file. One that is not there or
/// cannot be read lists none.
pub open spec fn dirs_noted(file: FileRead) -> Seq<Seq<char>> {
    match file {
        FileRead::Text(text) => dirs_listed(text@),
        _ => Seq::empty(),
    }
}

/// Reads the known-directories file. Blank lines are ignored.
pub fn read_known_dirs(file: &FileRead) -> (dirs: Vec<String>)
    ensures
        texts(dirs@) == dirs_noted(*file),
{
    let mut dirs: Vec<String> = no_lines();
    if let FileRead::Text(text) = file {
        let lines = split(text.as_str(), '\n');
        let ghost all = texts(lines@);
        let mut i: usize = 0;
        proof {
            assert(all.skip(0) == all);
            assert(texts(dirs@) + noted_lines(all) == noted_lines(all));
        }
        while i < lines.len()
            invariant
                i <= lines.len(),
                all == texts(lines@),
                texts(dirs@) + noted_lines(all.skip(i as int)) == noted_lines(all),
            decreases lines.len() - i,
        {
            let line = trim(lines[i].as_str());
            let ghost before = texts(dirs@);
            let ghost rest = noted_lines(all.skip(i as int + 1));
            proof {
                assert(all.skip(i as int).drop_first() == all.skip(i as int + 1));
                assert(all.skip(i as int)[0] == lines@[i as int]@);
                assert(before + (seq![line@] + rest) == before.push(line@) + rest);
            }
            if !line.as_str().is_empty() {
                push_line(&mut dirs, line);
            }
            i = i + 1;
        }
        proof {
            assert(all.skip(i as int) == Seq::<Seq<char>>::empty());
            assert(texts(dirs@) + Seq::<Seq<char>>::empty() == texts(dirs@));
        }
    }
    dirs
}

/// A list of directories, one per line.
pub open spec fn listing(dirs: Seq<Seq<char>>) -> Seq<char>
    decreases dirs.len(),
{
    if dirs.len() == 0 {
        Seq::empty()
    } else {
        dirs[0].push('\n') + listing(dirs.drop_first())
    }
}

/// What the known-directories file must hold for a directory to be noted, where
/// it is not yet and is not the default one.
pub open spec fn note_text(
    known: Seq<Seq<char>>,
    dir: Seq<char>,
    home: Seq<char>,
    assistant: Assistant,
) -> Option<Seq<char>> {
    if is_default_dir(dir, home, assistant) || holds_place(known, dir) {
        None
    } else {
        Some(listing(known.push(dir)))
    }
}

/// What to write to the known-directories file, so that it lists `config_dir`,
/// an absolute path: nothing when it does already, or when it is the default
/// one, which is always a candidate.
pub fn record_known_dir(
    file: &FileRead,
    config_dir: &str,
    home: &str,
    assistant: &Assistant,
) -> (body: Option<String>)
    ensures
        text_of(body) == note_text(dirs_noted(*file), config_dir@, home@, *assistant),
{
    let name = assistant.dir_name();
    let default_dir = join(home, name.as_str());
    if same_path(config_dir, default_dir.as_str()) {
        return None;
    }
    let mut known = read_known_dirs(file);
    if contains_path(&known, config_dir) {
        return None;
    }
    push_line(&mut known, config_dir.to_owned());
    let ghost all = texts(known@);
    let mut body = String::new();
    let mut i: usize = 0;
    proof {
        assert(all.skip(0) == all);
        assert(body@ + listing(all) == listing(all));
    }
    while i < known.len()
        invariant
            i <= known.len(),
            all == texts(known@),
            body@ + listing(all.skip(i as int)) == listing(all),
        decreases known.len() - i,
    {
        let ghost before = body@;
        let ghost line = known@[i as int]@;
        let ghost rest = listing(all.skip(i as int + 1));
        proof {
            assert(all.skip(i as int).drop_first() == all.skip(i as int + 1));
            assert(all.skip(i as int)[0] == line);
            assert(before + (line.push('\n') + rest) == (before + line).push('\n') + rest);
        }
        body.append(known[i].as_str());
        body.push('\n');
        i = i + 1;
    }
    proof {
        assert(all.skip(i as int) == Seq::<Seq<char>>::empty());
        assert(body@ + Seq::<char>::empty() == body@);
    }
    Some(body)
}

/// A path that one line can hold: it is not empty, has no line break in it, and
/// no white space at either end.
pub open spec fn fits_line(dir: Seq<char>) -> bool {
    &&& dir.len() > 0
    &&& trimmed(dir) == dir
    &&& forall|i: int| 0 <= i < dir.len() ==> #[trigger] dir[i] != '\n'
}

/// A line and what follows.
proof fn first_line(line: Seq<char>, rest: Seq<char>)
    requires
        forall|i: int| 0 <= i < line.len() ==> #[trigger] line[i] != '\n',
    ensures
        pieces(line.push('\n') + rest, '\n') == seq![line] + pieces(rest, '\n'),
{
    let s = line.push('\n') + rest;
    let n = piece_len(s, '\n') as int;
    piece_len_bounds(s, '\n');
    assert(s[line.len() as int] == '\n');
    if n < line.len() {
        assert(s[n] == line[n]);
    }
    assert(n == line.len());
    assert(s.take(n) == line);
    assert(s.skip(n + 1) == rest);
}

/// A list that was written is read back.
proof fn listing_reads_back(dirs: Seq<Seq<char>>)
    requires
        forall|i: int| 0 <= i < dirs.len() ==> fits_line(#[trigger] dirs[i]),
    ensures
        dirs_listed(listing(dirs)) == dirs,
    decreases dirs.len(),
{
    if dirs.len() == 0 {
        let none = Seq::<char>::empty();
        assert(pieces(none, '\n') == seq![none]);
        assert(trimmed(none).len() == 0) by {
            trim_start_is_suffix(none);
            trim_end_is_prefix(trim_start(none));
        }
        assert(seq![none].drop_first() == Seq::<Seq<char>>::empty());
        assert(noted_lines(seq![none]) == noted_lines(seq![none].drop_first()));
    } else {
        let rest = dirs.drop_first();
        assert forall|i: int| 0 <= i < rest.len() implies fits_line(#[trigger] rest[i]) by {
            assert(rest[i] == dirs[i + 1]);
        }
        listing_reads_back(rest);
        assert(fits_line(dirs[0]));
        first_line(dirs[0], listing(rest));
        let lines = pieces(listing(rest), '\n');
        assert((seq![dirs[0]] + lines).drop_first() == lines);
        assert(seq![dirs[0]] + rest == dirs);
    }
}

/// What is read from a list fits into one.
proof fn listed_fits(text: Seq<char>, i: int)
    requires
        0 <= i < dirs_listed(text).len(),
    ensures
        fits_line(dirs_listed(text)[i]),
    decreases text.len(),
{
    let n = piece_len(text, '\n') as int;
    piece_len_bounds(text, '\n');
    let lines = pieces(text, '\n');
    let first = if n < text.len() {
        text.take(n)
    } else {
        text
    };
    assert(lines[0] == first);
    assert forall|k: int| 0 <= k < first.len() implies #[trigger] first[k] != '\n' by {
        assert(first[k] == text[k]);
    }
    let line = trimmed(first);
    trim_twice(first);
    trim_start_is_suffix(first);
    trim_end_is_prefix(trim_start(first));
    assert forall|k: int| 0 <= k < line.len() implies #[trigger] line[k] != '\n' by {
        let from = first.len() - trim_start(first).len();
        assert(line[k] == trim_start(first)[k]);
        assert(line[k] == first[k + from]);
    }
    if n < text.len() {
        let rest = pieces(text.skip(n + 1), '\n');
        assert(lines.drop_first() == rest);
        if line.len() == 0 {
            assert(dirs_listed(text) == noted_lines(rest));
            listed_fits(text.skip(n + 1), i);
        } else {
            assert(dirs_listed(text) == seq![line] + noted_lines(rest));
            if i > 0 {
                listed_fits(text.skip(n + 1), i - 1);
            } else {
                assert(dirs_listed(text)[0] == line);
            }
        }
    } else {
        assert(lines.drop_first() == Seq::<Seq<char>>::empty());
        assert(noted_lines(lines.drop_first()).len() == 0);
        assert(dirs_listed(text)[0] == line);
    }
}

/// A directory that was noted is known from then on, everything known before
/// still is, in the same order, and noting it again changes nothing.
pub proof fn noted_dir_is_known(
    file: FileRead,
    dir: Seq<char>,
    home: Seq<char>,
    assistant: Assistant,
)
    requires
        fits_line(dir),
        note_text(dirs_noted(file), dir, home, assistant) is Some,
    ensures
        ({
            let text = note_text(dirs_noted(file), dir, home, assistant)->0;
            &&& dirs_listed(text) == dirs_noted(file).push(dir)
            &&& note_text(dirs_listed(text), dir, home, assistant) is None
        }),
{
    let all = dirs_noted(file).push(dir);
    assert forall|i: int| 0 <= i < all.len() implies fits_line(#[trigger] all[i]) by {
        if i < all.len() - 1 {
            listed_fits(file->Text_0@, i);
        }
    }
    listing_reads_back(all);
    assert(all[all.len() - 1] == dir);
    assert(same_place(all[all.len() - 1], dir));
}

// ---------------------------------------------------------------------------
// The report
// ---------------------------------------------------------------------------

/// One line on a profile's hook: whether it is installed, and whether it writes
/// to the right place. `here` is the profile's directory as an absolute path.
pub open spec fn hook_text(
    here: Seq<char>,
    status: StatusView,
    assistant: Assistant,
) -> Seq<char> {
    if !status.installed {
        "not installed (run `"@ + assistant.program() + " hook install`)"@
    } else {
        match status.recorded_config_dir {
            Some(dir) => if same_place(dir, here) {
                "installed"@
            } else {
                "installed, but writes its data to "@ + dir + " (run `"@ + assistant.program()
                    + " hook install` to fix)"@
            },
            None => "installed (the tray names this folder in it on its next start)"@,
        }
    }
}

/// One line on whether a profile's hook is installed and writing to the right
/// place. `here` is the profile's directory as an absolute path.
pub fn hook_state(here: &str, status: &StatusReport, assistant: &Assistant) -> (text: String)
    ensures
        text@ == hook_text(here@, status@, *assistant),
{
    let program = assistant.program_name();
    if !status.installed {
        return concat3("not installed (run `", program.as_str(), " hook install`)");
    }
    match &status.recorded_config_dir {
        Some(dir) => {
            if same_path(dir.as_str(), here) {
                "installed".to_owned()
            } else {
                let mut text = concat3(
                    "installed, but writes its data to ",
                    dir.as_str(),
                    " (run `",
                );
                text.append(program.as_str());
                text.append(" hook install` to fix)");
                text
            }
        },
        None => "installed (the tray names this folder in it on its next start)".to_owned(),
    }
}

/// What was read of a profile's directory.
#[derive(Debug)]
pub struct ProfileFiles {
    /// The directory as an absolute path.
    pub here: String,
    pub settings: FileRead,
    pub cache: FileRead,
    pub cache_mtime: Option<Timestamp>,
}

/// The block on one profile.
pub open spec fn profile_block(
    profile: ProfileView,
    files: ProfileFiles,
    now: Timestamp,
    assistant: Assistant,
) -> Seq<char> {
    let status = status_found(
        profile.config_dir,
        files.settings,
        files.cache,
        files.cache_mtime,
        now,
    );
    let mark = if profile.primary {
        "  (this shell's profile)"@
    } else {
        ""@
    };
    joined(
        seq![
            profile.name + "  "@ + profile.config_dir + mark,
            "  hook: "@ + hook_text(files.here@, status, assistant),
            "  data: "@ + freshness_text(status.cache_state, status.cache_written_at, now),
        ],
        "\n"@,
    )
}

fn block_of(profile: &Profile, files: &ProfileFiles, now: Timestamp, assistant: &Assistant) -> (text:
    String)
    ensures
        text@ == profile_block(profile@, *files, now, *assistant),
{
    let status = status_in(
        profile.config_dir.as_str(),
        &files.settings,
        &files.cache,
        files.cache_mtime,
        now,
    );
    let mut lines = no_lines();
    let mut head = concat3(profile.name.as_str(), "  ", profile.config_dir.as_str());
    head.append(
        if profile.primary {
            "  (this shell's profile)"
        } else {
            ""
        },
    );
    push_line(&mut lines, head);
    let hook = hook_state(files.here.as_str(), &status, assistant);
    push_line(&mut lines, concat2("  hook: ", hook.as_str()));
    let data = status.cache_freshness(now);
    push_line(&mut lines, concat2("  data: ", data.as_str()));
    proof {
        let mark = if profile.primary {
            "  (this shell's profile)"@
        } else {
            ""@
        };
        let found = status_found(
            profile.config_dir@,
            files.settings,
            files.cache,
            files.cache_mtime,
            now,
        );
        assert(texts(lines@) =~= seq![
            profile.name@ + "  "@ + profile.config_dir@ + mark,
            "  hook: "@ + hook_text(files.here@, found, *assistant),
            "  data: "@ + freshness_text(found.cache_state, found.cache_written_at, now),
        ]);
    }
    crate::text::join(&lines, "\n")
}

/// The line on how many profiles there are.
pub open spec fn count_line(count: nat) -> Seq<char> {
    if count == 1 {
        "Only one profile, so the tray shows it the way it always has."@
    } else {
        digits(count) + " profiles, so the tray shows a section for each."@
    }
}

/// The lines on the skipped candidates.
pub open spec fn skip_lines(skipped: Seq<(Seq<char>, Seq<char>)>) -> Seq<Seq<char>> {
    seq!["Skipped:"@] + skipped.map_values(
        |s: (Seq<char>, Seq<char>)| "  "@ + s.0 + ": "@ + s.1,
    )
}

/// The report: a block for each profile, the line on how many there are, and a
/// block for what was skipped, if anything was.
pub open spec fn report_blocks(
    profiles: Seq<ProfileView>,
    skipped: Seq<(Seq<char>, Seq<char>)>,
    files: Seq<ProfileFiles>,
    now: Timestamp,
    assistant: Assistant,
) -> Seq<Seq<char>> {
    let blocks = Seq::new(
        profiles.len(),
        |i: int| profile_block(profiles[i], files[i], now, assistant),
    ).push(count_line(profiles.len()));
    if skipped.len() > 0 {
        blocks.push(joined(skip_lines(skipped), "\n"@))
    } else {
        blocks
    }
}

fn skip_block(skipped: &Vec<Skipped>) -> (text: String)
    ensures
        text@ == joined(skip_lines(skip_views(skipped@)), "\n"@),
{
    let mut lines = no_lines();
    push_line(&mut lines, "Skipped:".to_owned());
    let ghost all = skip_lines(skip_views(skipped@));
    let mut i: usize = 0;
    proof {
        assert(texts(lines@) =~= all.take(1));
    }
    while i < skipped.len()
        invariant
            i <= skipped.len(),
            all == skip_lines(skip_views(skipped@)),
            texts(lines@) == all.take(i as int + 1),
        decreases skipped.len() - i,
    {
        let mut line = concat3("  ", skipped[i].config_dir.as_str(), ": ");
        line.append(skipped[i].reason.as_str());
        proof {
            let s = skip_views(skipped@)[i as int];
            assert(s == (skipped@[i as int].config_dir@, skipped@[i as int].reason@));
            assert(all[i as int + 1] == "  "@ + s.0 + ": "@ + s.1);
            assert(all.take(i as int + 2) == all.take(i as int + 1).push(line@));
        }
        push_line(&mut lines, line);
        i = i + 1;
    }
    proof {
        assert(all.take(i as int + 1) == all);
    }
    crate::text::join(&lines, "\n")
}

/// The `profiles` command's report. `files` is what was read of each profile's
/// directory, in order.
pub fn render(
    discovery: &Discovery,
    files: &Vec<ProfileFiles>,
    now: Timestamp,
    assistant: &Assistant,
) -> (text: String)
    requires
        files.len() == discovery.profiles.len(),
    ensures
        text@ == joined(
            report_blocks(
                profile_views(discovery.profiles@),
                skip_views(discovery.skipped@),
                files@,
                now,
                *assistant,
            ),
            "\n\n"@,
        ),
{
    let profiles = &discovery.profiles;
    let mut blocks = no_lines();
    let ghost views = profile_views(profiles@);
    let ghost all = Seq::new(views.len(), |i: int| profile_block(views[i], files@[i], now, *assistant));
    let mut i: usize = 0;
    proof {
        assert(texts(blocks@) =~= all.take(0));
    }
    while i < profiles.len()
        invariant
            i <= profiles.len() == files.len(),
            views == profile_views(profiles@),
            all == Seq::new(views.len(), |i: int| profile_block(views[i], files@[i], now, *assistant)),
            texts(blocks@) == all.take(i as int),
        decreases profiles.len() - i,
    {
        let block = block_of(&profiles[i], &files[i], now, assistant);
        proof {
            assert(views[i as int] == profiles@[i as int]@);
            assert(all.take(i as int + 1) == all.take(i as int).push(block@));
        }
        push_line(&mut blocks, block);
        i = i + 1;
    }
    proof {
        assert(all.take(i as int) == all);
    }
    if profiles.len() == 1 {
        push_line(
            &mut blocks,
            "Only one profile, so the tray shows it the way it always has.".to_owned(),
        );
    } else {
        let count = nat_text(profiles.len() as u64);
        push_line(
            &mut blocks,
            concat2(count.as_str(), " profiles, so the tray shows a section for each."),
        );
    }
    if discovery.skipped.len() > 0 {
        push_line(&mut blocks, skip_block(&discovery.skipped));
    }
    crate::text::join(&blocks, "\n\n")
}

} // verus!
