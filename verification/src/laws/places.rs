//! Laws of names and places: texts and paths, the assistant's directories, the
//! entries that start the tray with the session, and versions.

use vstd::prelude::*;
use vstd::string::*;

use crate::assistant::{capitalized, Assistant};
use crate::autostart;
use crate::binary::{first_leading, links_at, links_up_to, path_of, recorded_path, stable_links};
use crate::files::{FileRead, StepView};
use crate::hook::report::StatusView;
use crate::json::Tree;
use crate::paths::{
    component_len, component_len_bounds, components, holds_place, joined_path, last_name,
    same_place,
};
use crate::platform::macos;
use crate::portal::{about_scheme, first_preference, means_dark, preference_in, Reply};
use crate::profiles::{
    candidate_paths, count_line, counted, counts, dirs_listed, dirs_noted, distinct_names,
    hook_text, in_home, in_order, is_sibling, known_dirs_file, listing, lists_siblings, note_text,
    passed_over, profile_of, report_blocks, short_name, sibling_names, sibling_paths, skip_reason,
    DirLook, Entry, ProfileFiles, ProfileView,
};
use crate::source::{config_dir_path, home_or_here};
use crate::text::{
    all_digits, begins, digits, is_space, joined, number, number_of_digits, piece_len,
    piece_len_bounds, pieces, trimmed, unsigned, without_first,
};
use crate::time::Timestamp;
use crate::update::{newer, release_in, text_member, triple_of, update_in, version_core};

verus! {

// ---------------------------------------------------------------------------
// Texts
// ---------------------------------------------------------------------------

/// White space is made of these characters.
pub proof fn white_space_is_listed(c: char)
    ensures
        is_space(c) <==> seq![
            9u32,
            10,
            11,
            12,
            13,
            0x20,
            0x85,
            0xa0,
            0x1680,
            0x2000,
            0x2001,
            0x2002,
            0x2003,
            0x2004,
            0x2005,
            0x2006,
            0x2007,
            0x2008,
            0x2009,
            0x200a,
            0x2028,
            0x2029,
            0x202f,
            0x205f,
            0x3000,
        ].contains(c as u32),
{
    let all = seq![
        9u32,
        10,
        11,
        12,
        13,
        0x20,
        0x85,
        0xa0,
        0x1680,
        0x2000,
        0x2001,
        0x2002,
        0x2003,
        0x2004,
        0x2005,
        0x2006,
        0x2007,
        0x2008,
        0x2009,
        0x200a,
        0x2028,
        0x2029,
        0x202f,
        0x205f,
        0x3000,
    ];
    let n = c as u32;
    if is_space(c) {
        if n <= 13 {
            assert(all[n - 9] == n);
        } else if n == 0x20 {
            assert(all[5] == n);
        } else if n == 0x85 {
            assert(all[6] == n);
        } else if n == 0xa0 {
            assert(all[7] == n);
        } else if n == 0x1680 {
            assert(all[8] == n);
        } else if n <= 0x200a {
            assert(all[n - 0x2000 + 9] == n);
        } else if n == 0x2028 {
            assert(all[20] == n);
        } else if n == 0x2029 {
            assert(all[21] == n);
        } else if n == 0x202f {
            assert(all[22] == n);
        } else if n == 0x205f {
            assert(all[23] == n);
        } else {
            assert(all[24] == n);
        }
    }
}

/// A number that is written is read back, with or without a plus sign, and what
/// holds anything but digits is no number.
pub proof fn written_number_is_read(n: nat, s: Seq<char>)
    ensures
        n <= u64::MAX ==> unsigned(digits(n)) == Some(n as u64),
        n <= u64::MAX ==> unsigned(seq!['+'] + digits(n)) == Some(n as u64),
        n > u64::MAX ==> unsigned(digits(n)) is None,
        unsigned(Seq::empty()) is None,
        unsigned(s) is Some && s[0] != '+' ==> all_digits(s) && unsigned(s)->0 == number(s),
{
    number_of_digits(n);
    assert((seq!['+'] + digits(n)).drop_first() =~= digits(n));
    assert(digits(n).len() > 0);
    assert(crate::text::is_digit(digits(n)[0]));
}

/// A text is its pieces with the separator between them, and no piece holds one.
pub proof fn text_is_its_pieces(s: Seq<char>, c: char)
    ensures
        joined(pieces(s, c), seq![c]) == s,
        pieces(s, c).len() >= 1,
        forall|i: int, j: int|
            0 <= i < pieces(s, c).len() && 0 <= j < pieces(s, c)[i].len() ==> #[trigger] pieces(
                s,
                c,
            )[i][j] != c,
    decreases s.len(),
{
    piece_len_bounds(s, c);
    let n = piece_len(s, c) as int;
    let all = pieces(s, c);
    if n < s.len() {
        let rest = s.skip(n + 1);
        text_is_its_pieces(rest, c);
        assert(all == seq![s.take(n)] + pieces(rest, c));
        crate::text::joined_first(all, seq![c]);
        assert(all.drop_first() =~= pieces(rest, c));
        assert(s.take(n) + seq![c] + rest =~= s);
        assert forall|i: int, j: int| 0 <= i < all.len() && 0 <= j < all[i].len() implies
            #[trigger] all[i][j] != c by {
            if i > 0 {
                assert(all[i] == pieces(rest, c)[i - 1]);
            } else {
                assert(all[0] == s.take(n));
                assert(s.take(n)[j] == s[j]);
            }
        }
    } else {
        assert(all[0] == s);
    }
}

/// A piece, a separator and more: the piece comes first.
proof fn first_piece(head: Seq<char>, c: char, rest: Seq<char>)
    requires
        forall|i: int| 0 <= i < head.len() ==> #[trigger] head[i] != c,
    ensures
        pieces(head + seq![c] + rest, c) == seq![head] + pieces(rest, c),
        pieces(head, c) == seq![head],
{
    let s = head + seq![c] + rest;
    piece_len_bounds(s, c);
    piece_len_bounds(head, c);
    let n = piece_len(s, c) as int;
    if n < head.len() {
        assert(s[n] == head[n]);
    }
    if n > head.len() {
        assert(s[head.len() as int] == c);
    }
    assert(s.take(n) =~= head);
    assert(s.skip(n + 1) =~= rest);
}

// ---------------------------------------------------------------------------
// Paths
// ---------------------------------------------------------------------------

/// A name that is one component of a path.
pub open spec fn plain_name(name: Seq<char>) -> bool {
    &&& name.len() > 0
    &&& forall|i: int| 0 <= i < name.len() ==> #[trigger] name[i] != '/'
}

/// How long the first component is where a plain name stands at the start.
proof fn name_is_a_component(name: Seq<char>, rest: Seq<char>)
    requires
        forall|i: int| 0 <= i < name.len() ==> #[trigger] name[i] != '/',
        rest.len() == 0 || rest[0] == '/',
    ensures
        component_len(name + rest) == name.len(),
    decreases name.len(),
{
    let s = name + rest;
    if name.len() > 0 {
        assert(s.drop_first() =~= name.drop_first() + rest);
        name_is_a_component(name.drop_first(), rest);
    } else {
        assert(s =~= rest);
    }
}

/// The components of a path with a name behind it are those of the path, and the
/// name.
proof fn name_comes_last(dir: Seq<char>, name: Seq<char>, at_start: bool)
    requires
        plain_name(name),
        name != seq!['.'],
    ensures
        components(dir + (seq!['/'] + name), at_start) == components(dir, at_start).push(name),
    decreases dir.len(),
{
    let tail = seq!['/'] + name;
    let s = dir + tail;
    if dir.len() == 0 {
        assert(s =~= tail);
        assert(s.drop_first() =~= name);
        name_is_a_component(name, Seq::empty());
        assert(name + Seq::<char>::empty() =~= name);
        assert(name.take(name.len() as int) =~= name);
        assert(name.skip(name.len() as int) =~= Seq::<char>::empty());
        reveal_with_fuel(components, 3);
        assert(components(name, false) =~= seq![name]);
        assert(components(s, at_start) =~= components(dir, at_start).push(name));
    } else if dir[0] == '/' {
        assert(s.drop_first() =~= dir.drop_first() + tail);
        name_comes_last(dir.drop_first(), name, false);
    } else {
        component_len_bounds(dir);
        component_len_bounds(s);
        let n = component_len(dir) as int;
        component_ends_at_separator(dir);
        assert(dir =~= dir.take(n) + dir.skip(n));
        assert(s =~= dir.take(n) + (dir.skip(n) + tail));
        if dir.skip(n).len() > 0 {
            assert((dir.skip(n) + tail)[0] == dir[n]);
        } else {
            assert((dir.skip(n) + tail)[0] == '/');
        }
        name_is_a_component(dir.take(n), dir.skip(n) + tail);
        assert(component_len(s) == n);
        assert(s.take(n) =~= dir.take(n));
        assert(s.skip(n) =~= dir.skip(n) + tail);
        name_comes_last(dir.skip(n), name, false);
        let rest = components(dir.skip(n), false);
        assert(seq![dir.take(n)] + rest.push(name) =~= (seq![dir.take(n)] + rest).push(name));
    }
}

/// A component ends at a separator or at the end, and holds none.
proof fn component_ends_at_separator(s: Seq<char>)
    ensures
        component_len(s) < s.len() ==> s[component_len(s) as int] == '/',
        forall|i: int| 0 <= i < component_len(s) ==> #[trigger] s.take(component_len(s) as int)[i]
            != '/',
        component_len(s) <= s.len(),
    decreases s.len(),
{
    component_len_bounds(s);
    if s.len() > 0 && s[0] != '/' {
        let rest = s.drop_first();
        component_ends_at_separator(rest);
        let n = component_len(s) as int;
        assert forall|i: int| 0 <= i < n implies #[trigger] s.take(n)[i] != '/' by {
            if i > 0 {
                assert(rest.take(n - 1)[i - 1] == s[i]);
            }
        }
        if n < s.len() {
            assert(rest[n - 1] == s[n]);
        }
    }
}

/// A file in a directory is the last component of its path, behind those of the
/// directory.
pub proof fn file_is_the_last_component(dir: Seq<char>, name: Seq<char>)
    requires
        plain_name(name),
        name != seq!['.'],
    ensures
        dir.len() > 0 && dir.last() != '/' ==> components(joined_path(dir, name), true)
            == components(dir, true).push(name),
        dir.len() > 0 && dir.last() != '/' && name != ".."@ ==> last_name(joined_path(dir, name))
            == Some(name),
        dir.len() > 0 && dir.last() != '/' && name == ".."@ ==> last_name(
            joined_path(dir, name),
        ) is None,
{
    reveal_strlit(".");
    assert("."@ =~= seq!['.']);
    if dir.len() > 0 && dir.last() != '/' {
        name_comes_last(dir, name, true);
        assert(joined_path(dir, name) =~= dir + (seq!['/'] + name));
    }
}

/// Separators at the end of a path, and a `.` behind one, lead nowhere else.
pub proof fn separator_at_the_end_changes_nothing(path: Seq<char>)
    requires
        path.len() > 0,
    ensures
        same_place(path, path.push('/')),
        same_place(path, path),
{
    trailing_separator(path, true);
}

proof fn trailing_separator(path: Seq<char>, at_start: bool)
    ensures
        components(path.push('/'), at_start) == components(path, at_start),
    decreases path.len(),
{
    let s = path.push('/');
    if path.len() == 0 {
        assert(s.drop_first() =~= Seq::<char>::empty());
        reveal_with_fuel(components, 2);
    } else if path[0] == '/' {
        assert(s.drop_first() =~= path.drop_first().push('/'));
        trailing_separator(path.drop_first(), false);
    } else {
        component_len_bounds(path);
        component_len_bounds(s);
        component_ends_at_separator(path);
        let n = component_len(path) as int;
        assert(s =~= path.take(n) + path.skip(n).push('/'));
        if path.skip(n).len() > 0 {
            assert(path.skip(n).push('/')[0] == path[n]);
        }
        name_is_a_component(path.take(n), path.skip(n).push('/'));
        assert(s.take(n) =~= path.take(n));
        assert(s.skip(n) =~= path.skip(n).push('/'));
        trailing_separator(path.skip(n), false);
    }
}

/// A `.` counts only at the very start of a path; anywhere else it leads nowhere.
pub proof fn dot_counts_only_at_the_start(path: Seq<char>)
    ensures
        components(seq!['.'], true) == seq![seq!['.']],
        components(seq!['.', '/'] + path, true) == seq![seq!['.']] + components(path, false),
        components(seq!['/', '.', '/'] + path, true) == components(path, false),
        components(seq!['/'] + path, true) == components(path, false),
{
    let dot = seq!['.'];
    name_is_a_component(dot, Seq::empty());
    assert(dot + Seq::<char>::empty() =~= dot);
    assert(dot.take(1) =~= dot);
    assert(dot.skip(1) =~= Seq::<char>::empty());
    reveal_with_fuel(components, 2);
    assert(components(dot, true) =~= seq![dot]);
    let tail = seq!['/'] + path;
    name_is_a_component(dot, tail);
    let s = seq!['.', '/'] + path;
    assert(s =~= dot + tail);
    assert(s.take(1) =~= dot);
    assert(s.skip(1) =~= tail);
    assert(tail.drop_first() =~= path);
    assert(components(tail, false) == components(path, false));
    let rooted = seq!['/', '.', '/'] + path;
    assert(rooted.drop_first() =~= s);
    assert(components(s, false) == components(tail, false));
}

/// A path that begins at the root is never one that does not.
pub proof fn root_makes_a_difference(a: Seq<char>, b: Seq<char>)
    requires
        a.len() > 0,
        a[0] == '/',
        b.len() == 0 || b[0] != '/',
    ensures
        !same_place(a, b),
{
}

// ---------------------------------------------------------------------------
// The assistant
// ---------------------------------------------------------------------------

/// The assistant's name runs through the names of its files and of the tray.
pub proof fn files_are_named_after_the_assistant(assistant: Assistant)
    ensures
        assistant.program() == assistant.name@ + "-usage-tray"@,
        assistant.product() == assistant.title@ + " Code"@,
        assistant.tray_title() == assistant.title@ + " usage tray"@,
        assistant.dot_dir() == "."@ + assistant.name@,
        assistant.dot_prefix() == assistant.dot_dir() + "-"@,
        assistant.dot_json() == assistant.dot_dir() + ".json"@,
        known_dirs_file(assistant) == assistant.name@ + "-config-dirs"@,
{
}

/// A name of the assistant is made of the letters from `a` to `z`, and of at least
/// one.
pub proof fn names_are_in_small_letters(name: Seq<char>)
    ensures
        crate::assistant::small_letters(name) <==> name.len() > 0 && forall|i: int|
            0 <= i < name.len() ==> 97 <= (#[trigger] name[i]) as int <= 122,
{
    if name.len() > 0 && forall|i: int|
        0 <= i < name.len() ==> 97 <= (#[trigger] name[i]) as int <= 122 {
        assert forall|i: int| 0 <= i < name.len() implies crate::assistant::is_small(
            #[trigger] name[i],
        ) by {}
    }
    if crate::assistant::small_letters(name) {
        assert forall|i: int| 0 <= i < name.len() implies 97 <= (#[trigger] name[i]) as int
            <= 122 by {
            assert(crate::assistant::is_small(name[i]));
        }
    }
}

/// A title is the name with its first letter in capitals, and the rest as it is.
pub proof fn title_has_a_capital(name: Seq<char>)
    requires
        crate::assistant::small_letters(name),
    ensures
        capitalized(name).len() == name.len(),
        capitalized(name)[0] as int == name[0] as int - ('a' as int - 'A' as int),
        'A' <= capitalized(name)[0] <= 'Z',
        capitalized(name).drop_first() == name.drop_first(),
{
    assert(crate::assistant::is_small(name[0]));
    assert(capitalized(name).drop_first() =~= name.drop_first());
}

/// The assistant's directory is the one that the environment names, unless that
/// is empty; else it is the default one in the home directory.
pub proof fn environment_names_the_directory(env: &str, home: &str, assistant: Assistant)
    ensures
        env@.len() > 0 ==> config_dir_path(Some(env), Some(home), assistant) == env@,
        env@.len() == 0 ==> config_dir_path(Some(env), Some(home), assistant) == joined_path(
            home@,
            assistant.dot_dir(),
        ),
        config_dir_path(None, Some(home), assistant) == joined_path(home@, assistant.dot_dir()),
        config_dir_path(None, None, assistant) == joined_path("."@, assistant.dot_dir()),
        home_or_here(Some(home)) == home@,
        home_or_here(None) == "."@,
{
}

/// Each file has its place: the config file, the fixture, the last version and
/// the noted directories in the tray's own directory, the cache and the record in
/// the assistant's, and the entries that start the tray where the system looks.
pub proof fn files_have_their_places(
    config: &str,
    home: &str,
    env: &str,
    dir: Seq<char>,
    assistant: Assistant,
)
    ensures
        ({
            let own = joined_path(config@, assistant.name@ + "-usage-tray"@);
            &&& crate::config::config_path_of(Some(config), assistant) == joined_path(
                own,
                "config.toml"@,
            )
            &&& crate::source::fixture_path_of(Some(config), assistant) == joined_path(
                own,
                "kayfabe.json"@,
            )
            &&& crate::greeting::record_path_of(Some(config), assistant) == joined_path(
                own,
                "last-version"@,
            )
            &&& crate::profiles::known_path_of(Some(config), assistant) == joined_path(
                own,
                assistant.name@ + "-config-dirs"@,
            )
        }),
        env@.len() > 0 ==> crate::source::cache_path_of(Some(env), Some(home), assistant)
            == joined_path(env@, "usage-tray-statusline.json"@),
        crate::source::cache_path_of(None, Some(home), assistant) == joined_path(
            joined_path(home@, "."@ + assistant.name@),
            "usage-tray-statusline.json"@,
        ),
        env@.len() > 0 ==> crate::appcache::app_cache_at(Some(env), Some(home), assistant)
            == joined_path(env@, "."@ + assistant.name@ + ".json"@),
        env@.len() == 0 ==> crate::appcache::app_cache_at(Some(env), Some(home), assistant)
            == joined_path(home@, "."@ + assistant.name@ + ".json"@),
        crate::appcache::app_cache_at(None, Some(home), assistant) == joined_path(
            home@,
            "."@ + assistant.name@ + ".json"@,
        ),
        autostart::session_entries(Some(config)) == joined_path(config@, "autostart"@),
        autostart::session_entries(None) == joined_path("."@, "autostart"@),
        macos::autostart::user_agents(Some(home)) == joined_path(
            joined_path(home@, "Library"@),
            "LaunchAgents"@,
        ),
        crate::instance::lock_in(dir, assistant) == joined_path(
            dir,
            assistant.name@ + "-usage-tray"@ + ".lock"@,
        ),
{
}

/// A directory is called `default` where it is; `work` where it is the sibling
/// with that ending; else by its folder, without a leading dot.
pub proof fn directory_has_its_short_name(
    dir: Seq<char>,
    folder: Seq<char>,
    ending: Seq<char>,
    assistant: Assistant,
)
    requires
        last_name(dir) == Some(folder),
    ensures
        short_name(dir, true, assistant) == "default"@,
        folder == "."@ + assistant.name@ + "-"@ + ending && ending.len() > 0 && ending[0] != '.'
            ==> short_name(dir, false, assistant) == ending,
        !begins(folder, "."@ + assistant.name@ + "-"@) && folder.len() > 1
            && folder[0] == '.' ==> short_name(dir, false, assistant) == folder.drop_first(),
        !begins(folder, "."@ + assistant.name@ + "-"@) && folder.len() > 0
            && folder[0] != '.' ==> short_name(dir, false, assistant) == folder,
{
    let prefix = "."@ + assistant.name@ + "-"@;
    if folder == prefix + ending {
        assert(folder.take(prefix.len() as int) =~= prefix);
        assert(folder.skip(prefix.len() as int) =~= ending);
    }
}

/// The files of a profile stand in its directory, but the record of the default
/// one, which is in the home directory.
pub proof fn profile_has_its_files(
    dir: Seq<char>,
    home: Seq<char>,
    primary: bool,
    assistant: Assistant,
)
    ensures
        ({
            let profile = profile_of(dir, home, primary, assistant);
            let default = same_place(dir, joined_path(home, "."@ + assistant.name@));
            &&& profile.config_dir == dir
            &&& profile.primary == primary
            &&& profile.cache_path == joined_path(dir, "usage-tray-statusline.json"@)
            &&& default ==> profile.app_cache_path == joined_path(
                home,
                "."@ + assistant.name@ + ".json"@,
            ) && profile.name == "default"@
            &&& !default ==> profile.app_cache_path == joined_path(
                dir,
                "."@ + assistant.name@ + ".json"@,
            ) && profile.name == short_name(dir, false, assistant)
        }),
{
}

/// Names are put in order by the first character in which they differ; a shorter
/// one comes before those that it begins.
pub proof fn names_come_in_order(
    head: Seq<char>,
    a: char,
    b: char,
    rest: Seq<char>,
    more: Seq<char>,
)
    ensures
        in_order(head, head + rest),
        rest.len() > 0 ==> !in_order(head + rest, head),
        a < b ==> in_order(head + (seq![a] + rest), head + (seq![b] + more)),
        a < b ==> !in_order(head + (seq![b] + more), head + (seq![a] + rest)),
    decreases head.len(),
{
    if head.len() > 0 {
        names_come_in_order(head.drop_first(), a, b, rest, more);
        let tail = head.drop_first();
        assert((head + rest).drop_first() =~= tail + rest);
        assert((head + (seq![a] + rest)).drop_first() =~= tail + (seq![a] + rest));
        assert((head + (seq![b] + more)).drop_first() =~= tail + (seq![b] + more));
        assert((head + rest)[0] == head[0]);
    } else {
        assert(head + (seq![a] + rest) =~= seq![a] + rest);
        assert(head + (seq![b] + more) =~= seq![b] + more);
    }
}

/// Sibling profiles are the directories whose names begin as the default one's
/// does, with a dash behind.
pub proof fn siblings_are_told_by_their_names(entry: Entry, assistant: Assistant)
    ensures
        is_sibling(entry, assistant) <==> entry.is_dir && begins(
            entry.name@,
            "."@ + assistant.name@ + "-"@,
        ),
{
}

/// The siblings that are found are those in the home directory, all of them and
/// nothing else, and each as often as it is there; they come in the order of
/// their names.
pub proof fn all_siblings_are_found(
    paths: Seq<Seq<char>>,
    home: Seq<char>,
    entries: Seq<Entry>,
    assistant: Assistant,
    k: int,
    i: int,
    j: int,
)
    requires
        sibling_paths(paths, home, entries, assistant),
    ensures
        0 <= k < entries.len() && entries[k].is_dir && begins(
            entries[k].name@,
            "."@ + assistant.name@ + "-"@,
        ) ==> paths.contains(joined_path(home, entries[k].name@)),
        0 <= i < paths.len() ==> exists|n: int|
            0 <= n < entries.len() && (#[trigger] entries[n]).is_dir && begins(
                entries[n].name@,
                "."@ + assistant.name@ + "-"@,
            ) && paths[i] == joined_path(home, entries[n].name@),
        paths.len() <= entries.len(),
        (forall|n: int| 0 <= n < entries.len() ==> is_sibling(#[trigger] entries[n], assistant))
            ==> paths.len() == entries.len(),
        0 <= i < j < paths.len() ==> exists|a: Seq<char>, b: Seq<char>| #[trigger]
            in_order(a, b) && paths[i] == joined_path(home, a) && paths[j] == joined_path(home, b),
{
    let names = choose|names: Seq<Seq<char>>| #[trigger]
        lists_siblings(names, entries, assistant) && paths == in_home(names, home);
    let found = sibling_names(entries, assistant);
    names.to_multiset_ensures();
    found.to_multiset_ensures();
    assert(names.len() == found.len());
    if 0 <= k < entries.len() && is_sibling(entries[k], assistant) {
        sibling_is_named(entries, assistant, k);
        let name = entries[k].name@;
        assert(found.to_multiset().contains(name));
        assert(names.contains(name));
        let at = choose|at: int| 0 <= at < names.len() && names[at] == name;
        assert(paths[at] == joined_path(home, name));
    }
    if 0 <= i < paths.len() {
        assert(names.contains(names[i]));
        assert(names.to_multiset().contains(names[i]));
        assert(found.contains(names[i]));
        let at = choose|at: int| 0 <= at < found.len() && found[at] == names[i];
        let n = name_is_of_a_sibling(entries, assistant, at);
        assert(is_sibling(entries[n], assistant));
    }
    siblings_are_some(entries, assistant);
    if 0 <= i < j < paths.len() {
        assert(in_order(names[i], names[j]));
    }
}

/// A sibling's name is among the names.
proof fn sibling_is_named(entries: Seq<Entry>, assistant: Assistant, k: int)
    requires
        0 <= k < entries.len(),
        is_sibling(entries[k], assistant),
    ensures
        sibling_names(entries, assistant).contains(entries[k].name@),
    decreases entries.len(),
{
    let all = sibling_names(entries, assistant);
    let before = sibling_names(entries.drop_last(), assistant);
    if k == entries.len() - 1 {
        assert(all[before.len() as int] == entries[k].name@);
    } else {
        sibling_is_named(entries.drop_last(), assistant, k);
        let at = choose|at: int| 0 <= at < before.len() && before[at] == entries[k].name@;
        assert(all[at] == entries[k].name@);
    }
}

/// A name among the names is a sibling's.
proof fn name_is_of_a_sibling(entries: Seq<Entry>, assistant: Assistant, at: int) -> (n: int)
    requires
        0 <= at < sibling_names(entries, assistant).len(),
    ensures
        0 <= n < entries.len(),
        is_sibling(entries[n], assistant),
        entries[n].name@ == sibling_names(entries, assistant)[at],
    decreases entries.len(),
{
    let before = sibling_names(entries.drop_last(), assistant);
    if at < before.len() {
        name_is_of_a_sibling(entries.drop_last(), assistant, at)
    } else {
        entries.len() - 1
    }
}

/// There are no more siblings than entries, and as many where all are siblings.
proof fn siblings_are_some(entries: Seq<Entry>, assistant: Assistant)
    ensures
        sibling_names(entries, assistant).len() <= entries.len(),
        (forall|n: int| 0 <= n < entries.len() ==> is_sibling(#[trigger] entries[n], assistant))
            ==> sibling_names(entries, assistant).len() == entries.len(),
    decreases entries.len(),
{
    if entries.len() > 0 {
        siblings_are_some(entries.drop_last(), assistant);
        assert(entries[entries.len() - 1] == entries.last());
    }
}

/// The candidates are the default directory, then the siblings, then those that
/// were noted, each in their order.
pub proof fn candidates_come_in_order(
    home: Seq<char>,
    siblings: Seq<Seq<char>>,
    known: Seq<Seq<char>>,
    assistant: Assistant,
    i: int,
)
    ensures
        ({
            let all = candidate_paths(home, siblings, known, assistant);
            &&& all.len() == 1 + siblings.len() + known.len()
            &&& all[0] == joined_path(home, "."@ + assistant.name@)
            &&& 0 <= i < siblings.len() ==> all[1 + i] == siblings[i]
            &&& 0 <= i < known.len() ==> all[1 + siblings.len() + i] == known[i]
        }),
{
}

/// A candidate is a profile exactly where it is neither the primary directory nor
/// an earlier candidate, and a directory that holds both sessions and projects.
/// One that is not is told of where it is a directory, and where it was noted and
/// is gone.
pub proof fn candidate_counts_where_it_was_used(
    primary: Seq<char>,
    paths: Seq<Seq<char>>,
    looks: Seq<DirLook>,
    known: Seq<Seq<char>>,
    assistant: Assistant,
    i: int,
)
    requires
        0 <= i < paths.len(),
        i < looks.len(),
    ensures
        ({
            let news = !same_place(primary, paths[i]) && forall|j: int|
                0 <= j < i ==> !same_place(#[trigger] paths[j], paths[i]);
            let used = looks[i].is_dir && looks[i].has_sessions && looks[i].has_projects;
            let reason = skip_reason(primary, paths, looks, known, assistant, i);
            &&& counts(primary, paths, looks, i) <==> news && used
            &&& !news || used ==> reason is None
            &&& news && !used && looks[i].is_dir ==> reason == Some(
                "no sessions/ and projects/ folders, so "@ + assistant.title@ + " Code"@
                    + " has not used it"@,
            )
            &&& news && !looks[i].is_dir && holds_place(known, paths[i]) ==> reason == Some(
                "no longer exists"@,
            )
            &&& news && !looks[i].is_dir && !holds_place(known, paths[i]) ==> reason is None
        }),
{
    assert("no sessions/ and projects/ folders, so "@ + (assistant.title@ + " Code"@)
        + " has not used it"@ =~= "no sessions/ and projects/ folders, so "@ + assistant.title@
        + " Code"@ + " has not used it"@);
}

/// A profile has its short name where no earlier one is called so, and else the
/// path of its directory.
pub proof fn later_namesake_is_called_by_its_path(
    dirs: Seq<Seq<char>>,
    names: Seq<Seq<char>>,
    n: int,
    i: int,
)
    requires
        0 <= i < n,
    ensures
        ({
            let given = distinct_names(dirs, names, n);
            let taken = exists|k: int| 0 <= k < i && #[trigger] given[k] == names[i];
            &&& given.len() == n
            &&& taken ==> given[i] == dirs[i]
            &&& !taken ==> given[i] == names[i]
        }),
    decreases n,
{
    let before = distinct_names(dirs, names, n - 1);
    let given = distinct_names(dirs, names, n);
    if n > 1 {
        later_namesake_is_called_by_its_path(
            dirs,
            names,
            n - 1,
            if i < n - 1 {
                i
            } else {
                0
            },
        );
    } else {
        assert(before.len() == 0);
    }
    assert(before.len() == n - 1);
    assert forall|k: int| 0 <= k < n - 1 implies #[trigger] given[k] == before[k] by {}
    if i < n - 1 {
        if exists|k: int| 0 <= k < i && #[trigger] given[k] == names[i] {
            let k = choose|k: int| 0 <= k < i && #[trigger] given[k] == names[i];
            assert(before[k] == names[i]);
        }
        if exists|k: int| 0 <= k < i && #[trigger] before[k] == names[i] {
            let k = choose|k: int| 0 <= k < i && #[trigger] before[k] == names[i];
            assert(given[k] == names[i]);
        }
    } else {
        if before.contains(names[i]) {
            let k = choose|k: int| 0 <= k < before.len() && before[k] == names[i];
            assert(given[k] == names[i]);
        }
        if exists|k: int| 0 <= k < i && #[trigger] given[k] == names[i] {
            let k = choose|k: int| 0 <= k < i && #[trigger] given[k] == names[i];
            assert(before[k] == names[i]);
        }
    }
}

/// Every candidate that counts is among the profiles, behind the primary one, and
/// every one that is told of is among the skipped ones with its reason.
pub proof fn every_candidate_is_dealt_with(
    primary: Seq<char>,
    paths: Seq<Seq<char>>,
    looks: Seq<DirLook>,
    known: Seq<Seq<char>>,
    assistant: Assistant,
    n: int,
    i: int,
)
    requires
        0 <= i < n,
    ensures
        counted(primary, paths, looks, n)[0] == primary,
        counted(primary, paths, looks, n).len() > 0,
        counts(primary, paths, looks, i) ==> counted(primary, paths, looks, n).contains(paths[i]),
        skip_reason(primary, paths, looks, known, assistant, i) matches Some(reason)
            ==> passed_over(primary, paths, looks, known, assistant, n).contains(
            (paths[i], reason),
        ),
        counted(primary, paths, looks, n).len() <= 1 + n,
        passed_over(primary, paths, looks, known, assistant, n).len() <= n,
    decreases n,
{
    let before = counted(primary, paths, looks, n - 1);
    let skipped = passed_over(primary, paths, looks, known, assistant, n - 1);
    let all = counted(primary, paths, looks, n);
    let over = passed_over(primary, paths, looks, known, assistant, n);
    if n > 1 {
        every_candidate_is_dealt_with(
            primary,
            paths,
            looks,
            known,
            assistant,
            n - 1,
            if i < n - 1 {
                i
            } else {
                0
            },
        );
    } else {
        assert(before == seq![primary]);
    }
    if i == n - 1 {
        if counts(primary, paths, looks, i) {
            assert(all[before.len() as int] == paths[i]);
        }
        if let Some(reason) = skip_reason(primary, paths, looks, known, assistant, i) {
            assert(over[skipped.len() as int] == (paths[i], reason));
        }
    } else {
        if counts(primary, paths, looks, i) {
            let k = choose|k: int| 0 <= k < before.len() && before[k] == paths[i];
            assert(all[k] == paths[i]);
        }
        if let Some(reason) = skip_reason(primary, paths, looks, known, assistant, i) {
            let k = choose|k: int| 0 <= k < skipped.len() && skipped[k] == (paths[i], reason);
            assert(over[k] == (paths[i], reason));
        }
    }
}

/// A directory is noted exactly where it is neither the default one nor known
/// already; the list then holds what it held, and the directory behind it.
pub proof fn new_directory_is_noted(
    known: Seq<Seq<char>>,
    dir: Seq<char>,
    home: Seq<char>,
    assistant: Assistant,
)
    ensures
        note_text(known, dir, home, assistant) is None <==> same_place(
            dir,
            joined_path(home, "."@ + assistant.name@),
        ) || exists|i: int| 0 <= i < known.len() && same_place(#[trigger] known[i], dir),
        note_text(known, dir, home, assistant) matches Some(text) ==> text == listing(known) + dir
            + seq!['\n'],
{
    listing_grows(known, dir);
}

proof fn listing_grows(known: Seq<Seq<char>>, dir: Seq<char>)
    ensures
        listing(known.push(dir)) == listing(known) + dir + seq!['\n'],
    decreases known.len(),
{
    let all = known.push(dir);
    if known.len() == 0 {
        assert(all.drop_first() =~= Seq::<Seq<char>>::empty());
        reveal_with_fuel(listing, 2);
        assert(listing(all) =~= listing(known) + dir + seq!['\n']);
    } else {
        assert(all.drop_first() =~= known.drop_first().push(dir));
        listing_grows(known.drop_first(), dir);
        assert(listing(all) =~= listing(known) + dir + seq!['\n']);
    }
}

/// A file of noted directories that cannot be read notes none.
pub proof fn unreadable_list_is_empty(file: FileRead)
    ensures
        !(file is Text) ==> dirs_noted(file).len() == 0,
        file matches FileRead::Text(text) ==> dirs_noted(file) == dirs_listed(text@),
{
}

/// The report says of a hook whether it is installed, and whether it writes to
/// the profile's own directory.
pub proof fn hook_is_reported_by_its_directory(
    here: Seq<char>,
    status: StatusView,
    assistant: Assistant,
)
    ensures
        ({
            let text = hook_text(here, status, assistant);
            &&& !status.installed ==> text == "not installed (run `"@ + assistant.program()
                + " hook install`)"@
            &&& status.installed && status.recorded_config_dir is None ==> text
                == "installed (the tray names this folder in it on its next start)"@
            &&& status.installed ==> (status.recorded_config_dir matches Some(dir) ==> {
                &&& same_place(dir, here) ==> text == "installed"@
                &&& !same_place(dir, here) ==> text == "installed, but writes its data to "@ + dir
                    + " (run `"@ + assistant.program() + " hook install` to fix)"@
            })
        }),
{
}

/// A profile's block names it, its directory and, for the primary one alone, that
/// it is this shell's; then it tells of its hook and of its data.
pub proof fn block_tells_of_the_profile(
    profile: ProfileView,
    files: ProfileFiles,
    now: Timestamp,
    assistant: Assistant,
)
    ensures
        ({
            let status = crate::hook::report::status_found(
                profile.config_dir,
                files.settings,
                files.cache,
                files.cache_mtime,
                now,
            );
            let first = profile.name + "  "@ + profile.config_dir;
            let hook = "  hook: "@ + hook_text(files.here@, status, assistant);
            let data = "  data: "@ + crate::hook::report::freshness_text(
                status.cache_state,
                status.cache_written_at,
                now,
            );
            let block = crate::profiles::profile_block(profile, files, now, assistant);
            &&& profile.primary ==> block == first + "  (this shell's profile)"@ + "\n"@ + hook
                + "\n"@ + data
            &&& !profile.primary ==> block == first + "\n"@ + hook + "\n"@ + data
        }),
{
    reveal_strlit("");
    reveal_with_fuel(joined, 3);
    let status = crate::hook::report::status_found(
        profile.config_dir,
        files.settings,
        files.cache,
        files.cache_mtime,
        now,
    );
    let first = profile.name + "  "@ + profile.config_dir + (if profile.primary {
        "  (this shell's profile)"@
    } else {
        ""@
    });
    let hook = "  hook: "@ + hook_text(files.here@, status, assistant);
    let data = "  data: "@ + crate::hook::report::freshness_text(
        status.cache_state,
        status.cache_written_at,
        now,
    );
    let lines = seq![first, hook, data];
    assert(lines.drop_last() =~= seq![first, hook]);
    assert(lines.drop_last().drop_last() =~= seq![first]);
    assert(joined(lines, "\n"@) == first + "\n"@ + hook + "\n"@ + data);
    if !profile.primary {
        assert(first =~= profile.name + "  "@ + profile.config_dir);
    }
}

/// What was skipped is told under a heading, each directory with its reason.
pub proof fn skipped_directories_are_told(skipped: Seq<(Seq<char>, Seq<char>)>, i: int)
    requires
        0 <= i < skipped.len(),
    ensures
        ({
            let lines = crate::profiles::skip_lines(skipped);
            &&& lines.len() == 1 + skipped.len()
            &&& lines[0] == "Skipped:"@
            &&& lines[1 + i] == "  "@ + skipped[i].0 + ": "@ + skipped[i].1
        }),
{
}

/// Every line that holds anything is a directory, without the white space around
/// it; a blank line is none.
pub proof fn lines_list_directories(line: Seq<char>, rest: Seq<Seq<char>>)
    ensures
        trimmed(line).len() > 0 ==> crate::profiles::noted_lines(seq![line] + rest) == seq![
            trimmed(line),
        ] + crate::profiles::noted_lines(rest),
        trimmed(line).len() == 0 ==> crate::profiles::noted_lines(seq![line] + rest)
            == crate::profiles::noted_lines(rest),
        crate::profiles::noted_lines(Seq::empty()).len() == 0,
{
    assert((seq![line] + rest).drop_first() =~= rest);
}

/// The report has a block for each profile, in their order, then the line on how
/// many there are, and what was skipped only where anything was.
pub proof fn report_has_a_block_for_each(
    profiles: Seq<ProfileView>,
    skipped: Seq<(Seq<char>, Seq<char>)>,
    files: Seq<ProfileFiles>,
    now: Timestamp,
    assistant: Assistant,
    count: nat,
    i: int,
)
    ensures
        ({
            let blocks = report_blocks(profiles, skipped, files, now, assistant);
            let n = profiles.len() as int;
            &&& blocks.len() == n + 1 + (if skipped.len() > 0 {
                1int
            } else {
                0
            })
            &&& 0 <= i < n ==> blocks[i] == crate::profiles::profile_block(
                profiles[i],
                files[i],
                now,
                assistant,
            )
            &&& blocks[n] == count_line(profiles.len())
        }),
        count == 1 ==> count_line(count)
            == "Only one profile, so the tray shows it the way it always has."@,
        count != 1 ==> count_line(count) == digits(count)
            + " profiles, so the tray shows a section for each."@,
{
}

// ---------------------------------------------------------------------------
// Starting with the session
// ---------------------------------------------------------------------------

/// Switching autostart on writes the entry for the tray's own path, and off
/// removes that same file; without a path it cannot be switched on.
pub proof fn autostart_is_one_file(
    dir: Seq<char>,
    exec: Seq<char>,
    known: Option<Seq<char>>,
    assistant: Assistant,
)
    ensures
        ({
            let path = joined_path(dir, assistant.program() + ".desktop"@);
            &&& autostart::wanted_step(true, dir, Some(exec), assistant) == Some(
                StepView::Write { path, body: autostart::entry_text(exec, assistant) },
            )
            &&& autostart::wanted_step(false, dir, known, assistant) == Some(
                StepView::Remove { path },
            )
            &&& autostart::wanted_step(true, dir, None, assistant) is None
        }),
        ({
            let path = joined_path(
                dir,
                "com.patrickdappollonio."@ + assistant.program() + ".plist"@,
            );
            &&& macos::autostart::wanted_step(true, dir, Some(exec), assistant) == Some(
                StepView::Write {
                    path,
                    body: macos::autostart::plist_text(
                        exec,
                        "com.patrickdappollonio."@ + assistant.program(),
                    ),
                },
            )
            &&& macos::autostart::wanted_step(false, dir, known, assistant) == Some(
                StepView::Remove { path },
            )
            &&& macos::autostart::wanted_step(true, dir, None, assistant) is None
        }),
{
}

/// Whether a text holds another.
pub open spec fn holds(text: Seq<char>, part: Seq<char>) -> bool {
    exists|at: int| #[trigger]
        begins(text.skip(at), part) && 0 <= at <= text.len()
}

/// A part between two others is held by the whole.
proof fn middle_is_held(before: Seq<char>, part: Seq<char>, after: Seq<char>)
    ensures
        holds(before + part + after, part),
{
    let all = before + part + after;
    let at = before.len() as int;
    assert(all.skip(at) =~= part + after);
    assert(all.skip(at).take(part.len() as int) =~= part);
    assert(begins(all.skip(at), part));
}

/// The desktop entry runs the tray by its path, outside of a terminal, and is
/// switched on. It is called by the tray's name.
pub proof fn desktop_entry_runs_the_tray(exec: Seq<char>, assistant: Assistant)
    ensures
        ({
            let text = autostart::entry_text(exec, assistant);
            &&& begins(text, "[Desktop Entry]\nType=Application\n"@)
            &&& holds(text, "\nName="@ + assistant.title@ + " Usage Tray\n"@)
            &&& holds(text, "\nExec="@ + exec + "\n"@)
            &&& holds(text, "\nTerminal=false\n"@)
            &&& holds(text, "\nX-GNOME-Autostart-enabled=true\n"@)
        }),
{
    reveal_strlit("[Desktop Entry]\nType=Application\nName=");
    reveal_strlit("[Desktop Entry]\nType=Application\n");
    reveal_strlit("[Desktop Entry]\nType=Application");
    reveal_strlit("Name=");
    reveal_strlit("\nName=");
    reveal_strlit(" Usage Tray\n");
    reveal_strlit(" Usage Tray\nComment=");
    reveal_strlit("Comment=");
    reveal_strlit(" subscription usage in the system tray\nExec=");
    reveal_strlit(" subscription usage in the system tray");
    reveal_strlit("\nExec=");
    reveal_strlit("\n");
    reveal_strlit("\nTerminal=false\nX-GNOME-Autostart-enabled=true\n");
    reveal_strlit("Terminal=false\nX-GNOME-Autostart-enabled=true\n");
    reveal_strlit("\nTerminal=false\n");
    reveal_strlit("X-GNOME-Autostart-enabled=true\n");
    reveal_strlit("\nX-GNOME-Autostart-enabled=true\n");
    reveal_strlit("\nTerminal=false");
    let text = autostart::entry_text(exec, assistant);
    let title = assistant.title@;
    let product = assistant.product();
    let head = "[Desktop Entry]\nType=Application\nName="@ + title;
    let middle = " Usage Tray\nComment="@ + product
        + " subscription usage in the system tray\nExec="@ + exec;
    let tail = "\nTerminal=false\nX-GNOME-Autostart-enabled=true\n"@;
    assert(text =~= head + middle + tail);
    let first = "[Desktop Entry]\nType=Application\n"@;
    assert(text.take(first.len() as int) =~= first);
    let name = "\nName="@ + title + " Usage Tray\n"@;
    let after_name = "Comment="@ + product + " subscription usage in the system tray\nExec="@ + exec
        + tail;
    assert(text =~= "[Desktop Entry]\nType=Application"@ + name + after_name);
    middle_is_held("[Desktop Entry]\nType=Application"@, name, after_name);
    let before_exec = head + (" Usage Tray\nComment="@ + product
        + " subscription usage in the system tray"@);
    let line = "\nExec="@ + exec + "\n"@;
    let after_exec = "Terminal=false\nX-GNOME-Autostart-enabled=true\n"@;
    assert(text =~= before_exec + line + after_exec);
    middle_is_held(before_exec, line, after_exec);
    let quiet = "\nTerminal=false\n"@;
    assert(text =~= head + middle + quiet + "X-GNOME-Autostart-enabled=true\n"@);
    middle_is_held(head + middle, quiet, "X-GNOME-Autostart-enabled=true\n"@);
    let on = "\nX-GNOME-Autostart-enabled=true\n"@;
    let before_on = head + middle + "\nTerminal=false"@;
    assert(text =~= before_on + on + Seq::<char>::empty());
    middle_is_held(before_on, on, Seq::empty());
}

/// The agent is called by its label, runs the tray by its path in the foreground,
/// and does so when it is loaded.
pub proof fn launch_agent_runs_the_tray(exec: Seq<char>, label: Seq<char>)
    ensures
        ({
            let text = macos::autostart::plist_text(exec, label);
            &&& holds(text, "<key>Label</key>\n\t<string>"@ + label + "</string>"@)
            &&& holds(
                text,
                "<string>"@ + macos::autostart::xml_escaped(exec)
                    + "</string>\n\t\t<string>--foreground</string>"@,
            )
            &&& holds(text, "<key>RunAtLoad</key>\n\t<true/>"@)
        }),
{
    reveal_strlit("<plist version=\"1.0\">\n<dict>\n\t<key>Label</key>\n\t<string>");
    reveal_strlit("<plist version=\"1.0\">\n<dict>\n\t");
    reveal_strlit("<key>Label</key>\n\t<string>");
    reveal_strlit("</string>");
    reveal_strlit("<string>");
    reveal_strlit("</string>\n\t<key>ProgramArguments</key>\n\t<array>\n\t\t<string>");
    reveal_strlit("\n\t<key>ProgramArguments</key>\n\t<array>\n\t\t<string>");
    reveal_strlit("</string>\n\t<key>ProgramArguments</key>\n\t<array>\n\t\t");
    reveal_strlit("</string>\n\t\t<string>--foreground</string>\n\t</array>\n");
    reveal_strlit("</string>\n\t\t<string>--foreground</string>");
    reveal_strlit("\n\t</array>\n");
    reveal_strlit("\t<key>RunAtLoad</key>\n\t<true/>\n</dict>\n</plist>\n");
    reveal_strlit("\t");
    reveal_strlit("<key>RunAtLoad</key>\n\t<true/>");
    reveal_strlit("\n</dict>\n</plist>\n");
    let text = macos::autostart::plist_text(exec, label);
    let path = macos::autostart::xml_escaped(exec);
    let a = "<?xml version=\"1.0\" encoding=\"UTF-8\"?>\n"@
        + "<!DOCTYPE plist PUBLIC \"-//Apple//DTD PLIST 1.0//EN\" \"http://www.apple.com/DTDs/PropertyList-1.0.dtd\">\n"@;
    let c = "<plist version=\"1.0\">\n<dict>\n\t<key>Label</key>\n\t<string>"@;
    let d = "</string>\n\t<key>ProgramArguments</key>\n\t<array>\n\t\t<string>"@;
    let e = "</string>\n\t\t<string>--foreground</string>\n\t</array>\n"@;
    let f = "\t<key>RunAtLoad</key>\n\t<true/>\n</dict>\n</plist>\n"@;
    assert(text == a + c + label + d + path + e + f);
    let named = "<key>Label</key>\n\t<string>"@ + label + "</string>"@;
    let c0 = "<plist version=\"1.0\">\n<dict>\n\t"@;
    let d0 = "\n\t<key>ProgramArguments</key>\n\t<array>\n\t\t<string>"@;
    assert(c =~= c0 + "<key>Label</key>\n\t<string>"@);
    assert(d =~= "</string>"@ + d0);
    assert(text =~= (a + c0) + named + (d0 + path + e + f));
    middle_is_held(a + c0, named, d0 + path + e + f);
    let run = "<string>"@ + path + "</string>\n\t\t<string>--foreground</string>"@;
    let d1 = "</string>\n\t<key>ProgramArguments</key>\n\t<array>\n\t\t"@;
    let e1 = "\n\t</array>\n"@;
    assert(d =~= d1 + "<string>"@);
    assert(e =~= "</string>\n\t\t<string>--foreground</string>"@ + e1);
    assert(text =~= (a + c + label + d1) + run + (e1 + f));
    middle_is_held(a + c + label + d1, run, e1 + f);
    let load = "<key>RunAtLoad</key>\n\t<true/>"@;
    assert(f =~= "\t"@ + load + "\n</dict>\n</plist>\n"@);
    let g = a + c + label + d + path + e + "\t"@;
    assert(text =~= g + load + "\n</dict>\n</plist>\n"@);
    middle_is_held(g, load, "\n</dict>\n</plist>\n"@);
}

/// XML text is escaped character by character, by the five entities.
pub proof fn xml_is_escaped_by_character(a: Seq<char>, b: Seq<char>, c: char)
    ensures
        macos::autostart::xml_escaped(a + b) == macos::autostart::xml_escaped(a)
            + macos::autostart::xml_escaped(b),
        c == '&' ==> macos::autostart::xml_escaped(seq![c]) == "&amp;"@,
        c == '<' ==> macos::autostart::xml_escaped(seq![c]) == "&lt;"@,
        c == '>' ==> macos::autostart::xml_escaped(seq![c]) == "&gt;"@,
        c == '"' ==> macos::autostart::xml_escaped(seq![c]) == "&quot;"@,
        c == '\'' ==> macos::autostart::xml_escaped(seq![c]) == "&apos;"@,
        c != '&' && c != '<' && c != '>' && c != '"' && c != '\''
            ==> macos::autostart::xml_escaped(seq![c]) == seq![c],
    decreases b.len(),
{
    reveal_with_fuel(macos::autostart::xml_escaped, 2);
    assert(seq![c].drop_last() =~= Seq::<char>::empty());
    assert(Seq::<char>::empty() + macos::autostart::xml_entity(c)
        =~= macos::autostart::xml_entity(c));
    if b.len() == 0 {
        assert(a + b =~= a);
        assert(macos::autostart::xml_escaped(a) + macos::autostart::xml_escaped(b)
            =~= macos::autostart::xml_escaped(a));
    } else {
        xml_is_escaped_by_character(a, b.drop_last(), c);
        assert((a + b).drop_last() =~= a + b.drop_last());
        assert((a + b).last() == b.last());
        assert(macos::autostart::xml_escaped(a + b) =~= macos::autostart::xml_escaped(a)
            + macos::autostart::xml_escaped(b));
    }
}

/// A script's text is escaped character by character: a backslash stands before
/// each backslash and each quote.
pub proof fn script_is_escaped_by_character(a: Seq<char>, b: Seq<char>, c: char)
    ensures
        macos::script_escaped(a + b) == macos::script_escaped(a) + macos::script_escaped(b),
        c == '\\' || c == '"' ==> macos::script_escaped(seq![c]) == seq!['\\', c],
        c != '\\' && c != '"' ==> macos::script_escaped(seq![c]) == seq![c],
        macos::script_text(a, b) == "display notification \""@ + macos::script_escaped(b)
            + "\" with title \""@ + macos::script_escaped(a) + "\""@,
    decreases b.len(),
{
    reveal_with_fuel(macos::script_escaped, 2);
    assert(seq![c].drop_last() =~= Seq::<char>::empty());
    assert(macos::script_escaped(Seq::<char>::empty()) =~= Seq::<char>::empty());
    if c == '\\' || c == '"' {
        assert(macos::script_escaped(seq![c]) =~= seq!['\\', c]);
    } else {
        assert(macos::script_escaped(seq![c]) =~= seq![c]);
    }
    if b.len() == 0 {
        assert(a + b =~= a);
        assert(macos::script_escaped(a) + macos::script_escaped(b) =~= macos::script_escaped(a));
    } else {
        script_is_escaped_by_character(a, b.drop_last(), c);
        assert((a + b).drop_last() =~= a + b.drop_last());
        assert((a + b).last() == b.last());
        assert(macos::script_escaped(a + b) =~= macos::script_escaped(a) + macos::script_escaped(
            b,
        ));
    }
}

// ---------------------------------------------------------------------------
// The desktop's preference
// ---------------------------------------------------------------------------

/// A desktop is dark where it says so with a one, and where it says nothing.
pub proof fn desktop_is_dark_by_a_one(n: u32)
    ensures
        means_dark(None),
        means_dark(Some(n)) <==> n == 1,
{
}

/// The first way of asking that gives a preference counts.
pub proof fn first_answer_counts(n: u32, other: Option<u32>)
    ensures
        first_preference(Some(n), other) == Some(n),
        first_preference(None, other) == other,
{
}

/// Only the color scheme of the appearance settings is the preference.
pub proof fn scheme_has_its_place(namespace: Seq<char>, key: Seq<char>)
    ensures
        about_scheme(namespace, key) <==> namespace == "org.freedesktop.appearance"@ && key
            == "color-scheme"@,
{
}

/// A value that is wrapped in another says what it says by itself, as long as
/// there are looks left; a number is the preference where it can be one.
pub proof fn wrapping_changes_no_preference(inner: Reply, n: int, looks: nat)
    ensures
        preference_in(inner, 0) is None,
        preference_in(Reply::Nested(Box::new(inner)), looks + 1) == preference_in(inner, looks),
        0 <= n <= u32::MAX ==> preference_in(Reply::Number(n), looks + 1) == Some(n as u32),
        n < 0 || n > u32::MAX ==> preference_in(Reply::Number(n), looks) is None,
        preference_in(Reply::Other, looks) is None,
        crate::portal::MAX_LAYERS == 8,
{
}

// ---------------------------------------------------------------------------
// Versions
// ---------------------------------------------------------------------------

/// A version of three numbers.
pub open spec fn version_text(a: nat, b: nat, c: nat) -> Seq<char> {
    digits(a) + seq!['.'] + (digits(b) + seq!['.'] + digits(c))
}

/// The digits of a number are none of the characters that divide a version.
proof fn digits_divide_nothing(n: nat)
    ensures
        digits(n).len() > 0,
        forall|i: int|
            0 <= i < digits(n).len() ==> #[trigger] digits(n)[i] != '.' && digits(n)[i] != '-'
                && digits(n)[i] != 'v' && !is_space(digits(n)[i]),
{
    number_of_digits(n);
    assert forall|i: int| 0 <= i < digits(n).len() implies #[trigger] digits(n)[i] != '.'
        && digits(n)[i] != '-' && digits(n)[i] != 'v' && !is_space(digits(n)[i]) by {
        assert(crate::text::is_digit(digits(n)[i]));
    }
}

/// A version holds no dash, no `v` and no white space.
proof fn version_is_plain(a: nat, b: nat, c: nat)
    ensures
        version_text(a, b, c).len() > 0,
        forall|i: int|
            0 <= i < version_text(a, b, c).len() ==> #[trigger] version_text(a, b, c)[i] != '-'
                && version_text(a, b, c)[i] != 'v' && !is_space(version_text(a, b, c)[i]),
{
    let core = version_text(a, b, c);
    digits_divide_nothing(a);
    digits_divide_nothing(b);
    digits_divide_nothing(c);
    let n = digits(a).len();
    let m = digits(b).len();
    assert forall|i: int| 0 <= i < core.len() implies #[trigger] core[i] != '-' && core[i] != 'v'
        && !is_space(core[i]) by {
        if i < n {
            assert(core[i] == digits(a)[i]);
        } else if i == n {
            assert(core[i] == '.');
        } else if i < n + 1 + m {
            assert(core[i] == digits(b)[i - n - 1]);
        } else if i == n + 1 + m {
            assert(core[i] == '.');
        } else {
            assert(core[i] == digits(c)[i - n - m - 2]);
        }
    }
}

/// The dots of a version part its numbers.
proof fn dots_part_the_numbers(a: nat, b: nat, c: nat)
    ensures
        pieces(version_text(a, b, c), '.') == seq![digits(a), digits(b), digits(c)],
{
    digits_divide_nothing(a);
    digits_divide_nothing(b);
    digits_divide_nothing(c);
    first_piece(digits(a), '.', digits(b) + seq!['.'] + digits(c));
    first_piece(digits(b), '.', digits(c));
    first_piece(digits(c), '.', Seq::empty());
    assert(pieces(version_text(a, b, c), '.') =~= seq![digits(a), digits(b), digits(c)]);
}

/// A version that comes down to three numbers is those numbers.
proof fn core_is_its_numbers(version: Seq<char>, a: nat, b: nat, c: nat)
    requires
        a <= u64::MAX,
        b <= u64::MAX,
        c <= u64::MAX,
        version_core(version) == version_text(a, b, c),
    ensures
        triple_of(version) == Some((a as u64, b as u64, c as u64)),
{
    version_is_plain(a, b, c);
    dots_part_the_numbers(a, b, c);
    written_number_is_read(a, Seq::empty());
    written_number_is_read(b, Seq::empty());
    written_number_is_read(c, Seq::empty());
    let parts = pieces(version_text(a, b, c), '.');
    assert(parts[0] == digits(a) && parts[1] == digits(b) && parts[2] == digits(c));
}

/// The version that three numbers make is read as those numbers, also behind a
/// `v` and before a dash with anything behind it.
pub proof fn version_is_its_numbers(a: nat, b: nat, c: nat, mark: Seq<char>)
    requires
        a <= u64::MAX,
        b <= u64::MAX,
        c <= u64::MAX,
    ensures
        triple_of(version_text(a, b, c)) == Some((a as u64, b as u64, c as u64)),
        triple_of(seq!['v'] + version_text(a, b, c)) == Some((a as u64, b as u64, c as u64)),
        triple_of(version_text(a, b, c) + seq!['-'] + mark) == Some((a as u64, b as u64, c as u64)),
{
    let core = version_text(a, b, c);
    version_is_plain(a, b, c);
    nothing_to_trim(core);
    first_piece(core, '-', mark);
    let with_v = seq!['v'] + core;
    assert forall|i: int| 0 <= i < with_v.len() implies #[trigger] with_v[i] != '-' by {
        if i > 0 {
            assert(with_v[i] == core[i - 1]);
        }
    }
    first_piece(with_v, '-', mark);
    assert(with_v.drop_first() =~= core);
    assert(core[0] != 'v');
    core_is_its_numbers(core, a, b, c);
    core_is_its_numbers(with_v, a, b, c);
    core_is_its_numbers(core + seq!['-'] + mark, a, b, c);
}

/// Numbers that a version does not give are zero.
pub proof fn missing_numbers_are_zero(a: nat, b: nat)
    requires
        a <= u64::MAX,
        b <= u64::MAX,
    ensures
        triple_of(digits(a)) == Some((a as u64, 0u64, 0u64)),
        triple_of(digits(a) + seq!['.'] + digits(b)) == Some((a as u64, b as u64, 0u64)),
{
    digits_divide_nothing(a);
    digits_divide_nothing(b);
    written_number_is_read(a, Seq::empty());
    written_number_is_read(b, Seq::empty());
    first_piece(digits(a), '.', digits(b));
    first_piece(digits(b), '.', Seq::empty());
    first_piece(digits(a), '-', Seq::empty());
    nothing_to_trim(digits(a));
    assert(version_core(digits(a)) == digits(a));
    assert(pieces(digits(a), '.')[0] == digits(a));
    let two = digits(a) + seq!['.'] + digits(b);
    assert forall|i: int| 0 <= i < two.len() implies #[trigger] two[i] != '-' && two[i] != 'v'
        && !is_space(two[i]) by {
        let n = digits(a).len();
        if i < n {
            assert(two[i] == digits(a)[i]);
        } else if i == n {
            assert(two[i] == '.');
        } else {
            assert(two[i] == digits(b)[i - n - 1]);
        }
    }
    first_piece(two, '-', Seq::empty());
    nothing_to_trim(two);
    assert(two[0] != 'v');
    assert(version_core(two) == two);
    let parts = pieces(two, '.');
    assert(parts =~= seq![digits(a), digits(b)]);
    assert(parts[0] == digits(a) && parts[1] == digits(b));
}

/// A text without white space has nothing to trim.
proof fn nothing_to_trim(s: Seq<char>)
    requires
        forall|i: int| 0 <= i < s.len() ==> !is_space(#[trigger] s[i]),
    ensures
        trimmed(s) == s,
{
    if s.len() > 0 {
        assert(!is_space(s[0]));
        assert(!is_space(s[s.len() - 1]));
    }
}

/// Of two versions the newer one has the larger first number in which they
/// differ.
pub proof fn newer_version_has_larger_numbers(
    a: (u64, u64, u64),
    b: (u64, u64, u64),
    latest: Seq<char>,
    current: Seq<char>,
)
    requires
        triple_of(latest) == Some(a),
        triple_of(current) == Some(b),
    ensures
        a.0 != b.0 ==> (newer(latest, current) <==> a.0 > b.0),
        a.0 == b.0 && a.1 != b.1 ==> (newer(latest, current) <==> a.1 > b.1),
        a.0 == b.0 && a.1 == b.1 ==> (newer(latest, current) <==> a.2 > b.2),
{
}

/// What is no version is never newer, nor is anything newer than it.
pub proof fn no_version_is_never_newer(latest: Seq<char>, current: Seq<char>)
    ensures
        triple_of(latest) is None || triple_of(current) is None ==> !newer(latest, current),
{
}

/// A release is described by the texts under its two keys, white space aside; the
/// version is the tag without its `v`. Neither may be empty.
pub proof fn release_is_described_by_two_texts(
    members: Map<Seq<char>, Tree>,
    tag: Seq<char>,
    url: Seq<char>,
)
    requires
        members.contains_key("tag_name"@),
        members.contains_key("html_url"@),
        members["tag_name"@] == Tree::Text(tag),
        members["html_url"@] == Tree::Text(url),
    ensures
        ({
            let version = without_first(trimmed(tag), 'v');
            &&& version.len() > 0 && trimmed(url).len() > 0 ==> release_in(Tree::Object(members))
                == Some((version, trimmed(url)))
            &&& version.len() == 0 || trimmed(url).len() == 0 ==> release_in(
                Tree::Object(members),
            ) is None
        }),
{
}

/// Without both texts there is no release.
pub proof fn release_needs_both_texts(tree: Tree)
    ensures
        text_member(tree, "tag_name"@) is None || text_member(tree, "html_url"@) is None
            ==> release_in(tree) is None,
        !(tree is Object) ==> release_in(tree) is None,
{
}

/// An update is announced exactly where a release is newer than this program.
pub proof fn update_is_a_newer_release(body: Seq<char>, version: Seq<char>, url: Seq<char>)
    ensures
        crate::update::release_in_text(body) is None ==> update_in(body) is None,
        crate::update::release_in_text(body) == Some((version, url)) ==> (update_in(body) is Some
            <==> newer(version, "0.1.0"@)) && (update_in(body) is Some ==> update_in(body) == Some(
            (version, url),
        )),
{
}

// ---------------------------------------------------------------------------
// The program's own path
// ---------------------------------------------------------------------------

/// The first link that leads to the binary is recorded, and the binary's own path
/// where none does.
pub proof fn first_leading_link_is_recorded(exe: Seq<char>, leads: Seq<bool>, i: int)
    requires
        leads.len() == stable_links(exe).len(),
        0 <= i <= leads.len(),
        forall|k: int| 0 <= k < i ==> !#[trigger] leads[k],
        i < leads.len() ==> leads[i],
    ensures
        i < leads.len() ==> recorded_path(exe, leads) == stable_links(exe)[i],
        i == leads.len() ==> recorded_path(exe, leads) == exe,
{
    first_of_all(leads, 0, i);
}

proof fn first_of_all(leads: Seq<bool>, from: int, i: int)
    requires
        0 <= from <= i <= leads.len(),
        forall|k: int| from <= k < i ==> !#[trigger] leads[k],
        i < leads.len() ==> leads[i],
    ensures
        first_leading(leads, from, leads.len() as int) == (if i < leads.len() {
            Some(i)
        } else {
            None
        }),
    decreases i - from,
{
    if from < i {
        first_of_all(leads, from + 1, i);
    }
}

/// A binary in a versioned directory, where there is one root of such directories
/// in its path: a formula's has the link in `bin` and the one in `opt`, and any
/// other just the link in `bin`. A binary elsewhere has none.
pub proof fn versioned_binary_has_its_links(exe: Seq<char>, name: Seq<char>, index: int)
    requires
        last_name(exe) == Some(name),
        0 <= index < components(exe, true).len(),
        forall|k: int|
            0 <= k < components(exe, true).len() && k != index ==> #[trigger] components(
                exe,
                true,
            )[k] != "Cellar"@ && components(exe, true)[k] != "Caskroom"@,
    ensures
        ({
            let parts = components(exe, true);
            let absolute = exe.len() > 0 && exe[0] == '/';
            let prefix = path_of(absolute, parts.take(index));
            let in_bin = joined_path(joined_path(prefix, "bin"@), name);
            let rest = joined(parts.skip(index + 3), "/"@);
            let links = stable_links(exe);
            &&& parts[index] != "Cellar"@ && parts[index] != "Caskroom"@ ==> links.len() == 0
            &&& index + 2 >= parts.len() ==> links.len() == 0
            &&& parts[index] == "Caskroom"@ && index + 2 < parts.len() ==> links == seq![in_bin]
            &&& parts[index] == "Cellar"@ && index + 2 < parts.len() && rest.len() == 0 ==> links
                == seq![in_bin]
            &&& parts[index] == "Cellar"@ && index + 2 < parts.len() && rest.len() > 0 ==> links
                == seq![
                in_bin,
                joined_path(joined_path(joined_path(prefix, "opt"@), parts[index + 1]), rest),
            ]
        }),
{
    reveal_strlit("Cellar");
    reveal_strlit("Caskroom");
    assert("Cellar"@.len() == 6 && "Caskroom"@.len() == 8);
    let parts = components(exe, true);
    let absolute = exe.len() > 0 && exe[0] == '/';
    one_root_gives_the_links(absolute, parts, parts.len(), name, index);
}

proof fn one_root_gives_the_links(
    absolute: bool,
    parts: Seq<Seq<char>>,
    count: nat,
    name: Seq<char>,
    index: int,
)
    requires
        count <= parts.len(),
        forall|k: int|
            0 <= k < parts.len() && k != index ==> #[trigger] parts[k] != "Cellar"@ && parts[k]
                != "Caskroom"@,
    ensures
        links_up_to(absolute, parts, count, name) == (if 0 <= index < count {
            links_at(absolute, parts, index, name)
        } else {
            seq![]
        }),
    decreases count,
{
    if count > 0 {
        one_root_gives_the_links(absolute, parts, (count - 1) as nat, name, index);
        let here = links_at(absolute, parts, count - 1, name);
        assert(Seq::<Seq<char>>::empty() + here =~= here);
        if count - 1 != index {
            assert(here =~= Seq::<Seq<char>>::empty());
            let before = links_up_to(absolute, parts, (count - 1) as nat, name);
            assert(before + here =~= before);
        }
    }
}

} // verus!
