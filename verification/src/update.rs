//! The optional update check: reading a release description, and deciding
//! whether it is newer than what is running.

use vstd::prelude::*;
use vstd::string::*;

use crate::json::{json_of_value, parsed_json, value_of_text, Json, Tree};
use crate::text::{
    parse_unsigned, pieces, split, strip_first, texts, trim, trimmed, unsigned, without_first,
};

verus! {

/// The version of this program.
pub const VERSION: &'static str = "0.1.0";

/// The version this program was built as.
pub fn current_version() -> (version: &'static str)
    ensures
        version@ == VERSION@,
{
    VERSION
}

/// A release newer than the running program.
#[derive(Clone, Debug, PartialEq, Eq)]
pub struct Update {
    /// The release's version, such as `0.2.0`.
    pub version: String,
    /// The release page.
    pub url: String,
}

/// How the menu announces a version.
pub open spec fn label_of(version: Seq<char>) -> Seq<char> {
    "⬆ Update available: v"@ + version
}

impl Update {
    /// The menu row's label.
    pub fn label(&self) -> (text: String)
        ensures
            text@ == "⬆ Update available: v"@ + self.version@,
            text@ == label_of(self.version@),
    {
        let mut text = "⬆ Update available: v".to_owned();
        text.append(self.version.as_str());
        text
    }
}

/// The text of an object's member, white space at its ends aside.
pub open spec fn text_member(tree: Tree, key: Seq<char>) -> Option<Seq<char>> {
    match tree.member(key) {
        Some(member) => match member.text() {
            Some(s) => Some(trimmed(s)),
            None => None,
        },
        None => None,
    }
}

/// The version and the page that a release description names: both must be
/// there as texts of more than white space.
pub open spec fn release_in(tree: Tree) -> Option<(Seq<char>, Seq<char>)> {
    match (text_member(tree, "tag_name"@), text_member(tree, "html_url"@)) {
        (Some(tag), Some(url)) => {
            let version = without_first(tag, 'v');
            if url.len() == 0 || version.len() == 0 {
                None
            } else {
                Some((version, url))
            }
        },
        _ => None,
    }
}

fn text_in(document: &Json, key: &str) -> (text: Option<String>)
    ensures
        match text_member(document.tree(), key@) {
            Some(s) => text matches Some(t) && t@ == s,
            None => text is None,
        },
{
    match document.get(key) {
        Some(member) => match member.as_str() {
            Some(s) => Some(trim(s)),
            None => None,
        },
        None => None,
    }
}

/// Reads the version and the page out of a release description.
pub fn release_of(document: &Json) -> (release: Option<(String, String)>)
    ensures
        match release_in(document.tree()) {
            Some((version, url)) => release matches Some((v, u)) && v@ == version && u@ == url,
            None => release is None,
        },
{
    let tag = match text_in(document, "tag_name") {
        Some(tag) => tag,
        None => {
            return None;
        },
    };
    let url = match text_in(document, "html_url") {
        Some(url) => url,
        None => {
            return None;
        },
    };
    if url.as_str().is_empty() {
        return None;
    }
    let version = strip_first(tag.as_str(), 'v');
    if version.as_str().is_empty() {
        return None;
    }
    Some((version, url))
}

/// What a response says of a release.
pub open spec fn release_in_text(body: Seq<char>) -> Option<(Seq<char>, Seq<char>)> {
    match parsed_json(body) {
        Ok(tree) => release_in(tree),
        Err(_) => None,
    }
}

/// Pulls version and page out of a response. None for anything that is not an
/// object with both as non-empty texts.
pub fn parse_release_json(body: &str) -> (release: Option<(String, String)>)
    ensures
        match release_in_text(body@) {
            Some((version, url)) => release matches Some((v, u)) && v@ == version && u@ == url,
            None => release is None,
        },
{
    match value_of_text(body) {
        Ok(value) => {
            let document = json_of_value(&value);
            release_of(&document)
        },
        Err(_) => None,
    }
}

/// The part of a version that counts: what stands before the first dash,
/// without a leading `v` and without white space at its ends.
pub open spec fn version_core(version: Seq<char>) -> Seq<char> {
    trimmed(without_first(pieces(version, '-')[0], 'v'))
}

/// The number at a position of a version, zero where there is none.
pub open spec fn component(parts: Seq<Seq<char>>, i: int) -> u64 {
    if i < parts.len() {
        unsigned(parts[i])->0
    } else {
        0
    }
}

/// The three numbers of a version: none when some component is no number.
pub open spec fn triple_of(version: Seq<char>) -> Option<(u64, u64, u64)> {
    let core = version_core(version);
    let parts = pieces(core, '.');
    if core.len() == 0 || exists|i: int|
        0 <= i < parts.len() && unsigned(#[trigger] parts[i]) is None {
        None
    } else {
        Some((component(parts, 0), component(parts, 1), component(parts, 2)))
    }
}

/// Splits a version into its three numbers. Missing components are zero, and
/// anything from the first dash on is ignored.
pub fn numeric_triple(version: &str) -> (triple: Option<(u64, u64, u64)>)
    ensures
        triple == triple_of(version@),
{
    let sections = split(version, '-');
    proof {
        assert(texts(sections@)[0] == sections@[0]@);
    }
    let unmarked = strip_first(sections[0].as_str(), 'v');
    let core = trim(unmarked.as_str());
    if core.as_str().is_empty() {
        return None;
    }
    let parts = split(core.as_str(), '.');
    let ghost all = pieces(core@, '.');
    let mut numbers: Vec<u64> = Vec::new();
    let mut i: usize = 0;
    while i < parts.len()
        invariant
            i <= parts.len(),
            all == texts(parts@),
            numbers.len() == i,
            core@ == version_core(version@),
            all == pieces(core@, '.'),
            core@.len() > 0,
            forall|k: int|
                0 <= k < i ==> unsigned(#[trigger] all[k]) is Some && numbers@[k] == unsigned(
                    all[k],
                )->0,
        decreases parts.len() - i,
    {
        proof {
            assert(all[i as int] == parts@[i as int]@);
        }
        match parse_unsigned(parts[i].as_str()) {
            Some(number) => {
                numbers.push(number);
            },
            None => {
                proof {
                    assert(unsigned(all[i as int]) is None);
                }
                return None;
            },
        }
        i = i + 1;
    }
    let major: u64 = numbers[0];
    let minor: u64 = if numbers.len() > 1 {
        numbers[1]
    } else {
        0
    };
    let patch: u64 = if numbers.len() > 2 {
        numbers[2]
    } else {
        0
    };
    Some((major, minor, patch))
}

/// Whether three numbers come after three others.
pub open spec fn later_triple(a: (u64, u64, u64), b: (u64, u64, u64)) -> bool {
    a.0 > b.0 || (a.0 == b.0 && (a.1 > b.1 || (a.1 == b.1 && a.2 > b.2)))
}

/// Whether one version is newer than another, by their numbers alone.
pub open spec fn newer(latest: Seq<char>, current: Seq<char>) -> bool {
    match (triple_of(latest), triple_of(current)) {
        (Some(l), Some(c)) => later_triple(l, c),
        _ => false,
    }
}

/// Whether `latest` is a newer release than `current`. Only the numbers
/// decide: a prerelease marker is ignored, and a version that is not numeric
/// is never newer.
pub fn is_newer(latest: &str, current: &str) -> (is: bool)
    ensures
        is == newer(latest@, current@),
{
    match (numeric_triple(latest), numeric_triple(current)) {
        (Some(l), Some(c)) => l.0 > c.0 || (l.0 == c.0 && (l.1 > c.1 || (l.1 == c.1 && l.2 > c.2))),
        _ => false,
    }
}

/// No version is newer than itself, no two are newer than each other, and what
/// is newer than a newer version is newer.
pub proof fn newer_is_an_order(a: Seq<char>, b: Seq<char>, c: Seq<char>)
    ensures
        !newer(a, a),
        newer(a, b) ==> !newer(b, a),
        newer(a, b) && newer(b, c) ==> newer(a, c),
{
}

/// What comes after the first dash of a version does not matter, nor does a
/// leading `v`.
pub proof fn prerelease_marker_is_ignored(a: Seq<char>, b: Seq<char>, current: Seq<char>)
    requires
        version_core(a) == version_core(b),
    ensures
        newer(a, current) == newer(b, current),
        newer(current, a) == newer(current, b),
        !newer(a, b),
{
}

/// The update that a response announces, if it is newer than the running
/// version.
pub open spec fn update_in(body: Seq<char>) -> Option<(Seq<char>, Seq<char>)> {
    match release_in_text(body) {
        Some((version, url)) => if newer(version, VERSION@) {
            Some((version, url))
        } else {
            None
        },
        None => None,
    }
}

/// The update that a release gives, if it is newer than the running version.
pub fn update_from(version: String, url: String) -> (update: Option<Update>)
    ensures
        if newer(version@, VERSION@) {
            update matches Some(u) && u.version@ == version@ && u.url@ == url@
        } else {
            update is None
        },
{
    if is_newer(version.as_str(), current_version()) {
        Some(Update { version, url })
    } else {
        None
    }
}

/// The whole check on a response: parse, then compare. None means that there is
/// nothing to say: no update, or no answer.
pub fn check(response: Option<&str>) -> (update: Option<Update>)
    ensures
        match response {
            Some(body) => match update_in(body@) {
                Some((version, url)) => update matches Some(u) && u.version@ == version && u.url@
                    == url,
                None => update is None,
            },
            None => update is None,
        },
{
    let body = match response {
        Some(body) => body,
        None => {
            return None;
        },
    };
    match parse_release_json(body) {
        Some((version, url)) => update_from(version, url),
        None => None,
    }
}

} // verus!
