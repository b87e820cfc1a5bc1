//! The program's own file: the path to record for it, and the moment it is
//! replaced by an upgrade.

use vstd::prelude::*;
use vstd::string::*;

use crate::paths::{components, file_name, is_absolute, join, joined_path, last_name, split_path};
use crate::text::{chars_of, joined, same_text, texts};

verus! {

/// A path put together from components.
pub open spec fn path_of(absolute: bool, parts: Seq<Seq<char>>) -> Seq<char> {
    if absolute {
        "/"@ + joined(parts, "/"@)
    } else {
        joined(parts, "/"@)
    }
}

/// The links that may stand for a binary when the component at `index` is the
/// root of versioned directories: the one in `bin`, and for a formula the one
/// in `opt`.
pub open spec fn links_at(
    absolute: bool,
    parts: Seq<Seq<char>>,
    index: int,
    file_name: Seq<char>,
) -> Seq<Seq<char>> {
    let root = parts[index];
    if (root == "Cellar"@ || root == "Caskroom"@) && index + 2 < parts.len() {
        let prefix = path_of(absolute, parts.take(index));
        let rest = joined(parts.skip(index + 3), "/"@);
        let in_bin = joined_path(joined_path(prefix, "bin"@), file_name);
        if root == "Cellar"@ && rest.len() > 0 {
            seq![
                in_bin,
                joined_path(joined_path(joined_path(prefix, "opt"@), parts[index + 1]), rest),
            ]
        } else {
            seq![in_bin]
        }
    } else {
        seq![]
    }
}

/// The links that may stand for a binary, looking at its first `count`
/// components.
pub open spec fn links_up_to(
    absolute: bool,
    parts: Seq<Seq<char>>,
    count: nat,
    file_name: Seq<char>,
) -> Seq<Seq<char>>
    decreases count,
{
    if count == 0 {
        seq![]
    } else {
        links_up_to(absolute, parts, (count - 1) as nat, file_name) + links_at(
            absolute,
            parts,
            count - 1,
            file_name,
        )
    }
}

/// The links that may stand for a binary inside a versioned directory, in the
/// order in which they are preferred.
pub open spec fn stable_links(exe: Seq<char>) -> Seq<Seq<char>> {
    let parts = components(exe, true);
    match last_name(exe) {
        Some(name) => links_up_to(exe.len() > 0 && exe[0] == '/', parts, parts.len(), name),
        None => seq![],
    }
}

/// A path put together from the components `parts[from..to]`.
fn path_from(absolute: bool, parts: &Vec<String>, from: usize, to: usize) -> (path: String)
    requires
        from <= to <= parts.len(),
    ensures
        path@ == path_of(absolute, texts(parts@).subrange(from as int, to as int)),
{
    let mut some: Vec<String> = Vec::new();
    let ghost all = texts(parts@);
    let mut i: usize = from;
    proof {
        assert(texts(some@) == all.subrange(from as int, from as int));
    }
    while i < to
        invariant
            from <= i <= to <= parts.len(),
            all == texts(parts@),
            texts(some@) == all.subrange(from as int, i as int),
        decreases to - i,
    {
        let ghost before = some@;
        let part = parts[i].clone();
        proof {
            assert(texts(before.push(part)) == texts(before).push(part@));
            assert(all[i as int] == part@);
            assert(all.subrange(from as int, i as int + 1) == all.subrange(
                from as int,
                i as int,
            ).push(all[i as int]));
        }
        some.push(part);
        i = i + 1;
    }
    let inner = crate::text::join(&some, "/");
    if absolute {
        let mut path = "/".to_owned();
        path.append(inner.as_str());
        path
    } else {
        inner
    }
}

/// The links that may stand for the binary `exe`, in the order in which they
/// are preferred. The versioned layouts are `<prefix>/Cellar/<name>/<version>`
/// and `<prefix>/Caskroom/<name>/<version>`; the links are
/// `<prefix>/bin/<binary>` and, for the first layout, the one under
/// `<prefix>/opt/<name>`.
pub fn link_candidates(exe: &str) -> (links: Vec<String>)
    ensures
        texts(links@) == stable_links(exe@),
{
    let mut links: Vec<String> = Vec::new();
    proof {
        assert(texts(links@) == Seq::<Seq<char>>::empty());
    }
    let name = match file_name(exe) {
        Some(name) => name,
        None => {
            return links;
        },
    };
    let absolute = is_absolute(exe);
    let chars = chars_of(exe);
    let parts = split_path(&chars);
    let ghost all = components(exe@, true);
    let mut i: usize = 0;
    while i < parts.len()
        invariant
            i <= parts.len(),
            all == texts(parts@),
            absolute == (exe@.len() > 0 && exe@[0] == '/'),
            texts(links@) == links_up_to(absolute, all, i as nat, name@),
        decreases parts.len() - i,
    {
        let ghost before = links@;
        proof {
            assert(all[i as int] == parts@[i as int]@);
            assert(links_up_to(absolute, all, (i + 1) as nat, name@) == links_up_to(
                absolute,
                all,
                i as nat,
                name@,
            ) + links_at(absolute, all, i as int, name@));
        }
        let in_cellar = same_text(parts[i].as_str(), "Cellar");
        if (in_cellar || same_text(parts[i].as_str(), "Caskroom")) && parts.len() - i > 2 {
            proof {
                assert(all.subrange(0, i as int) == all.take(i as int));
                assert(all.subrange(i as int + 3, all.len() as int) == all.skip(i as int + 3));
                assert(all[i as int + 1] == parts@[i as int + 1]@);
            }
            let prefix = path_from(absolute, &parts, 0, i);
            let rest = path_from(false, &parts, i + 3, parts.len());
            let bin = join(prefix.as_str(), "bin");
            let in_bin = join(bin.as_str(), name.as_str());
            let ghost first = in_bin@;
            links.push(in_bin);
            proof {
                assert(texts(links@) == texts(before).push(first));
            }
            if in_cellar && !rest.as_str().is_empty() {
                let opt = join(prefix.as_str(), "opt");
                let keg = join(opt.as_str(), parts[i + 1].as_str());
                let in_opt = join(keg.as_str(), rest.as_str());
                let ghost second = in_opt@;
                let ghost middle = links@;
                links.push(in_opt);
                proof {
                    assert(texts(links@) == texts(middle).push(second));
                    assert(texts(links@) == texts(before) + seq![first, second]);
                }
            } else {
                proof {
                    assert(texts(links@) == texts(before) + seq![first]);
                }
            }
        } else {
            proof {
                assert(texts(before) + Seq::<Seq<char>>::empty() == texts(before));
            }
        }
        i = i + 1;
    }
    links
}

/// The first link that leads to the binary, if one does.
pub open spec fn first_leading(leads: Seq<bool>, from: int, to: int) -> Option<int>
    decreases to - from,
{
    if from >= to {
        None
    } else if leads[from] {
        Some(from)
    } else {
        first_leading(leads, from + 1, to)
    }
}

/// The path to record for a binary: the first of its links that leads to the
/// very same file, else the binary's own path.
pub open spec fn recorded_path(exe: Seq<char>, leads: Seq<bool>) -> Seq<char> {
    let links = stable_links(exe);
    let count = if leads.len() < links.len() {
        leads.len()
    } else {
        links.len()
    };
    match first_leading(leads, 0, count as int) {
        Some(i) => links[i],
        None => exe,
    }
}

/// Maps a binary inside a versioned directory to a link that keeps leading to
/// the installed version, and anything else to itself. `leads` says of each of
/// the [`link_candidates`] whether it leads to the very file that `exe` names;
/// it is empty when that file cannot be found.
pub fn stable_path(exe: &str, leads: &[bool]) -> (path: String)
    ensures
        path@ == recorded_path(exe@, leads@),
{
    let links = link_candidates(exe);
    let ghost all = stable_links(exe@);
    let count: usize = if leads.len() < links.len() {
        leads.len()
    } else {
        links.len()
    };
    let mut i: usize = 0;
    while i < count
        invariant
            i <= count <= links.len(),
            count <= leads@.len(),
            all == texts(links@),
            first_leading(leads@, 0, count as int) == first_leading(leads@, i as int, count as int),
            count == (if leads@.len() < all.len() {
                leads@.len()
            } else {
                all.len()
            }),
            all == stable_links(exe@),
        decreases count - i,
    {
        if leads[i] {
            proof {
                assert(all[i as int] == links@[i as int]@);
            }
            return links[i].clone();
        }
        i = i + 1;
    }
    exe.to_owned()
}

/// Only a link that leads to the binary takes its place.
pub proof fn only_a_leading_link_is_recorded(exe: Seq<char>, leads: Seq<bool>)
    ensures
        recorded_path(exe, leads) == exe || exists|i: int|
            0 <= i < leads.len() && i < stable_links(exe).len() && leads[i] && recorded_path(
                exe,
                leads,
            ) == #[trigger] stable_links(exe)[i],
{
    let links = stable_links(exe);
    let count = if leads.len() < links.len() {
        leads.len()
    } else {
        links.len()
    };
    first_leading_leads(leads, 0, count as int);
}

proof fn first_leading_leads(leads: Seq<bool>, from: int, to: int)
    requires
        0 <= from,
        to <= leads.len(),
    ensures
        first_leading(leads, from, to) matches Some(i) ==> from <= i < to && leads[i],
    decreases to - from,
{
    if from < to && !leads[from] {
        first_leading_leads(leads, from + 1, to);
    }
}

// ---------------------------------------------------------------------------
// Upgrades
// ---------------------------------------------------------------------------

/// What tells one file from another, and a rewritten file from what it was.
#[derive(Clone, Copy, Debug, PartialEq, Eq, Structural)]
pub struct BinaryIdentity {
    pub dev: u64,
    pub ino: u64,
    pub mtime_secs: i64,
    pub mtime_nanos: i64,
}

/// Watches one path for the moment its file is replaced. The detection
/// latches: it is reported once.
#[derive(Debug)]
pub struct BinaryWatch {
    path: String,
    /// The file to compare against; none until there was one.
    baseline: Option<BinaryIdentity>,
    swapped: bool,
}

/// The state of a [`BinaryWatch`].
pub ghost struct WatchView {
    pub path: Seq<char>,
    pub baseline: Option<BinaryIdentity>,
    pub swapped: bool,
}

impl View for BinaryWatch {
    type V = WatchView;

    closed spec fn view(&self) -> WatchView {
        WatchView { path: self.path@, baseline: self.baseline, swapped: self.swapped }
    }
}

/// Whether a look at the path finds the file replaced for the first time.
pub open spec fn finds_swap(watch: WatchView, seen: Option<BinaryIdentity>) -> bool {
    !watch.swapped && match (watch.baseline, seen) {
        (Some(b), Some(s)) => b != s,
        _ => false,
    }
}

/// The state after a look at the path. A file that is gone right now is no
/// news; the first file that is ever seen is what later ones are compared to.
pub open spec fn after_look(watch: WatchView, seen: Option<BinaryIdentity>) -> WatchView {
    WatchView {
        baseline: if !watch.swapped && watch.baseline is None {
            seen
        } else {
            watch.baseline
        },
        swapped: watch.swapped || finds_swap(watch, seen),
        ..watch
    }
}

impl BinaryWatch {
    /// Starts watching `path`, where `seen` is there right now.
    pub fn new(path: String, seen: Option<BinaryIdentity>) -> (watch: Self)
        ensures
            watch@ == (WatchView { path: path@, baseline: seen, swapped: false }),
    {
        BinaryWatch { path, baseline: seen, swapped: false }
    }

    /// The path being watched.
    pub fn path(&self) -> (path: &str)
        ensures
            path@ == self@.path,
    {
        self.path.as_str()
    }

    /// Whether the swap has been reported.
    pub fn swapped(&self) -> (swapped: bool)
        ensures
            swapped == self@.swapped,
    {
        self.swapped
    }

    /// Takes in what is at the path now. True only on the first look that finds
    /// a different file there.
    pub fn check(&mut self, seen: Option<BinaryIdentity>) -> (found: bool)
        ensures
            found == finds_swap(old(self)@, seen),
            final(self)@ == after_look(old(self)@, seen),
    {
        if self.swapped {
            return false;
        }
        let current = match seen {
            Some(current) => current,
            None => {
                return false;
            },
        };
        match self.baseline {
            None => {
                self.baseline = Some(current);
                false
            },
            Some(baseline) => {
                if baseline == current {
                    false
                } else {
                    self.swapped = true;
                    true
                }
            },
        }
    }
}

/// A swap is reported once: after the look that found it, no look finds one.
pub proof fn swap_is_reported_once(
    watch: WatchView,
    seen: Option<BinaryIdentity>,
    next: Option<BinaryIdentity>,
)
    requires
        finds_swap(watch, seen) || watch.swapped,
    ensures
        !finds_swap(after_look(watch, seen), next),
        after_look(after_look(watch, seen), next).swapped,
{
}

} // verus!
