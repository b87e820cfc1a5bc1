//! File system paths, as text, with the meaning they have on Unix.

use vstd::prelude::*;
use vstd::string::*;

use crate::text::{chars_of, same_text, string_of, texts};

verus! {

/// `base` followed by `part`: an absolute `part` stands alone, and a separator
/// comes between the two where `base` has none at its end.
pub open spec fn joined_path(base: Seq<char>, part: Seq<char>) -> Seq<char> {
    if part.len() > 0 && part[0] == '/' {
        part
    } else if base.len() == 0 || base.last() == '/' {
        base + part
    } else {
        base.push('/') + part
    }
}

/// Appends `part` to the path `base`.
pub fn join(base: &str, part: &str) -> (path: String)
    ensures
        path@ == joined_path(base@, part@),
{
    let head = chars_of(base);
    let tail = chars_of(part);
    if tail.len() > 0 && tail[0] == '/' {
        return part.to_owned();
    }
    let mut path = base.to_owned();
    if head.len() > 0 && head[head.len() - 1] != '/' {
        path.push('/');
    }
    path.append(part);
    path
}

/// The end of the component that begins `s`: the next separator or the end.
pub open spec fn component_len(s: Seq<char>) -> nat
    decreases s.len(),
{
    if s.len() == 0 || s[0] == '/' {
        0
    } else {
        1 + component_len(s.drop_first())
    }
}

/// A component ends within the text that it begins.
pub proof fn component_len_bounds(s: Seq<char>)
    ensures
        component_len(s) <= s.len(),
        s.len() > 0 && s[0] != '/' ==> component_len(s) > 0,
    decreases s.len(),
{
    if s.len() > 0 && s[0] != '/' {
        component_len_bounds(s.drop_first());
    }
}

/// The components of a path: what stands between separators. An empty
/// component does not count, nor does a `.` that is not at the very start.
pub open spec fn components(s: Seq<char>, at_start: bool) -> Seq<Seq<char>>
    decreases s.len(),
{
    if s.len() == 0 {
        seq![]
    } else if s[0] == '/' {
        components(s.drop_first(), false)
    } else {
        proof {
            component_len_bounds(s);
        }
        let n = component_len(s) as int;
        let rest = components(s.skip(n), false);
        if s.take(n) == seq!['.'] && !at_start {
            rest
        } else {
            seq![s.take(n)] + rest
        }
    }
}

/// What a path leads to: whether it is absolute, and its components.
pub open spec fn parts(s: Seq<char>) -> (bool, Seq<Seq<char>>) {
    (s.len() > 0 && s[0] == '/', components(s, true))
}

/// Whether two paths are one: the same components from the same start.
pub open spec fn same_place(a: Seq<char>, b: Seq<char>) -> bool {
    parts(a) == parts(b)
}

/// Whether a path begins at the root.
pub fn is_absolute(path: &str) -> (absolute: bool)
    ensures
        absolute == (path@.len() > 0 && path@[0] == '/'),
{
    let chars = chars_of(path);
    chars.len() > 0 && chars[0] == '/'
}

/// The components of the path `chars`.
pub fn split_path(chars: &Vec<char>) -> (found: Vec<String>)
    ensures
        texts(found@) == components(chars@, true),
{
    let mut found: Vec<String> = Vec::new();
    let mut i: usize = 0;
    let mut at_start = true;
    let ghost all = components(chars@, true);
    proof {
        assert(chars@.skip(0) == chars@);
        assert(texts(found@) + all == all);
    }
    while i < chars.len()
        invariant
            i <= chars.len(),
            all == texts(found@) + components(chars@.skip(i as int), at_start),
        decreases chars.len() - i,
    {
        let ghost here = chars@.skip(i as int);
        if chars[i] == '/' {
            proof {
                assert(here.drop_first() == chars@.skip(i as int + 1));
            }
            i = i + 1;
            at_start = false;
        } else {
            proof {
                component_len_bounds(here);
            }
            let end = component_end(chars, i);
            let text = string_of(chars, i, end);
            proof {
                assert(text@ == here.take(component_len(here) as int));
                assert(here.skip(component_len(here) as int) == chars@.skip(end as int));
                reveal_strlit(".");
                assert("."@ == seq!['.']);
            }
            if at_start || !same_text(text.as_str(), ".") {
                let ghost before = found@;
                let ghost rest = components(chars@.skip(end as int), false);
                proof {
                    assert(texts(before.push(text)) == texts(before).push(text@));
                    assert(texts(before).push(text@) + rest == texts(before) + (seq![text@]
                        + rest));
                }
                found.push(text);
            }
            i = end;
            at_start = false;
        }
    }
    proof {
        assert(chars@.skip(i as int).len() == 0);
        assert(texts(found@) + Seq::<Seq<char>>::empty() == texts(found@));
    }
    found
}

/// Where the component that begins at `from` ends.
fn component_end(chars: &Vec<char>, from: usize) -> (end: usize)
    requires
        from < chars.len(),
        chars@[from as int] != '/',
    ensures
        from < end <= chars.len(),
        end == from + component_len(chars@.skip(from as int)),
{
    let mut i: usize = from;
    while i < chars.len() && chars[i] != '/'
        invariant
            from <= i <= chars.len(),
            component_len(chars@.skip(from as int)) == i - from + component_len(
                chars@.skip(i as int),
            ),
        decreases chars.len() - i,
    {
        proof {
            assert(chars@.skip(i as int).drop_first() == chars@.skip(i as int + 1));
        }
        i = i + 1;
    }
    proof {
        component_len_bounds(chars@.skip(from as int));
    }
    i
}

/// Whether two paths are one.
pub fn same_path(a: &str, b: &str) -> (same: bool)
    ensures
        same == same_place(a@, b@),
{
    let left = chars_of(a);
    let right = chars_of(b);
    let left_root = left.len() > 0 && left[0] == '/';
    let right_root = right.len() > 0 && right[0] == '/';
    if left_root != right_root {
        return false;
    }
    let left_parts = split_path(&left);
    let right_parts = split_path(&right);
    let ghost l = components(a@, true);
    let ghost r = components(b@, true);
    if left_parts.len() != right_parts.len() {
        proof {
            assert(l.len() != r.len());
        }
        return false;
    }
    let mut i: usize = 0;
    while i < left_parts.len()
        invariant
            i <= left_parts.len() == right_parts.len(),
            l == texts(left_parts@),
            l == components(a@, true),
            r == texts(right_parts@),
            r == components(b@, true),
            l.take(i as int) == r.take(i as int),
        decreases left_parts.len() - i,
    {
        proof {
            assert(l[i as int] == left_parts@[i as int]@);
            assert(r[i as int] == right_parts@[i as int]@);
        }
        if !same_text(left_parts[i].as_str(), right_parts[i].as_str()) {
            return false;
        }
        proof {
            assert(l.take(i as int + 1) == l.take(i as int).push(l[i as int]));
            assert(r.take(i as int + 1) == r.take(i as int).push(r[i as int]));
        }
        i = i + 1;
    }
    proof {
        assert(l.take(l.len() as int) == l);
        assert(r.take(r.len() as int) == r);
    }
    true
}

/// The name of the file or directory that a path leads to: its last component,
/// unless that is `.` or `..`.
pub open spec fn last_name(s: Seq<char>) -> Option<Seq<char>> {
    let all = components(s, true);
    if all.len() == 0 || all.last() == "."@ || all.last() == ".."@ {
        None
    } else {
        Some(all.last())
    }
}

/// The name of the file or directory that `path` leads to.
pub fn file_name(path: &str) -> (name: Option<String>)
    ensures
        match last_name(path@) {
            Some(n) => name matches Some(s) && s@ == n,
            None => name is None,
        },
{
    let chars = chars_of(path);
    let all = split_path(&chars);
    if all.len() == 0 {
        return None;
    }
    let last = &all[all.len() - 1];
    proof {
        assert(texts(all@).last() == last@);
    }
    if same_text(last.as_str(), ".") || same_text(last.as_str(), "..") {
        None
    } else {
        Some(last.clone())
    }
}

/// Whether some path in `places` is `path`.
pub open spec fn holds_place(places: Seq<Seq<char>>, path: Seq<char>) -> bool {
    exists|i: int| 0 <= i < places.len() && same_place(#[trigger] places[i], path)
}

/// Whether some path in `places` is `path`.
pub fn contains_path(places: &Vec<String>, path: &str) -> (found: bool)
    ensures
        found == holds_place(texts(places@), path@),
{
    let mut i: usize = 0;
    while i < places.len()
        invariant
            i <= places.len(),
            forall|k: int| 0 <= k < i ==> !same_place(#[trigger] texts(places@)[k], path@),
        decreases places.len() - i,
    {
        proof {
            assert(texts(places@)[i as int] == places@[i as int]@);
        }
        if same_path(places[i].as_str(), path) {
            return true;
        }
        i = i + 1;
    }
    false
}

} // verus!
