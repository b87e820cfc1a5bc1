//! Cleanup of the shell blocks that earlier releases wrote into statusline
//! scripts.

use vstd::prelude::*;
use vstd::string::*;

use crate::text::{begins, chars_of, skip_spaces, starts_at, string_of, trim_start};

verus! {

/// Suffix of the backup of a statusline script.
pub const SCRIPT_BACKUP_SUFFIX: &'static str = ".bak-usage-tray";

/// The two forms a block's markers have had.
#[derive(Clone, Copy, Debug, PartialEq, Eq, Structural)]
pub enum BlockKind {
    /// `# --- PROGRAM hook` up to `# --- end PROGRAM hook`.
    Plain,
    /// `# >>> PROGRAM hook` up to `# <<< PROGRAM hook`.
    Versioned,
}

/// Length of the first line of `s`, its newline included.
pub open spec fn line_len(s: Seq<char>) -> nat
    decreases s.len(),
{
    if s.len() == 0 {
        0
    } else if s[0] == '\n' {
        1
    } else {
        1 + line_len(s.drop_first())
    }
}

/// The first line is not empty unless `s` is, and ends at its only newline or
/// at the end of `s`.
pub proof fn line_len_bounds(s: Seq<char>)
    ensures
        line_len(s) <= s.len(),
        s.len() > 0 ==> line_len(s) > 0,
        forall|i: int| 0 <= i < line_len(s) - 1 ==> #[trigger] s[i] != '\n',
        line_len(s) < s.len() ==> s[line_len(s) - 1] == '\n',
    decreases s.len(),
{
    if s.len() > 0 && s[0] != '\n' {
        let r = s.drop_first();
        line_len_bounds(r);
        assert forall|i: int| 0 <= i < line_len(s) - 1 implies #[trigger] s[i] != '\n' by {
            if i > 0 {
                assert(s[i] == r[i - 1]);
            }
        }
        if line_len(s) < s.len() {
            assert(s[line_len(s) - 1] == r[line_len(r) - 1]);
        }
    }
}

/// The lines of `s`, each with its newline.
pub open spec fn lines(s: Seq<char>) -> Seq<Seq<char>>
    decreases s.len(),
{
    if s.len() == 0 {
        seq![]
    } else {
        proof {
            line_len_bounds(s);
        }
        seq![s.take(line_len(s) as int)] + lines(s.skip(line_len(s) as int))
    }
}

/// `line` begins with `marker`, white space aside.
pub open spec fn marked(line: Seq<char>, marker: Seq<char>) -> bool {
    begins(trim_start(line), marker)
}

/// What begins the first line of a block that the program `program` wrote.
pub open spec fn opening(kind: BlockKind, program: Seq<char>) -> Seq<char> {
    match kind {
        BlockKind::Plain => "# --- "@ + program + " hook"@,
        BlockKind::Versioned => "# >>> "@ + program + " hook"@,
    }
}

/// What begins the last line of such a block.
pub open spec fn closing(kind: BlockKind, program: Seq<char>) -> Seq<char> {
    match kind {
        BlockKind::Plain => "# --- end "@ + program + " hook"@,
        BlockKind::Versioned => "# <<< "@ + program + " hook"@,
    }
}

/// The kind of block that `line` opens.
pub open spec fn opens(line: Seq<char>, program: Seq<char>) -> Option<BlockKind> {
    if marked(line, opening(BlockKind::Plain, program)) {
        Some(BlockKind::Plain)
    } else if marked(line, opening(BlockKind::Versioned, program)) {
        Some(BlockKind::Versioned)
    } else {
        None
    }
}

/// Whether `line` closes a block of that kind.
pub open spec fn closes(kind: BlockKind, line: Seq<char>, program: Seq<char>) -> bool {
    marked(line, closing(kind, program))
}

/// Whether some line opens a block.
pub open spec fn has_block(ls: Seq<Seq<char>>, program: Seq<char>) -> bool {
    exists|i: int| 0 <= i < ls.len() && opens(#[trigger] ls[i], program) is Some
}

/// The lines outside of blocks put together, reading from inside a block of
/// kind `within` if there is one. None when a block is never closed.
pub open spec fn outside_blocks(
    ls: Seq<Seq<char>>,
    within: Option<BlockKind>,
    program: Seq<char>,
) -> Option<Seq<char>>
    decreases ls.len(),
{
    if ls.len() == 0 {
        match within {
            Some(_) => None,
            None => Some(seq![]),
        }
    } else {
        match within {
            Some(kind) => outside_blocks(
                ls.drop_first(),
                if closes(kind, ls[0], program) {
                    None
                } else {
                    within
                },
                program,
            ),
            None => match opens(ls[0], program) {
                Some(kind) => outside_blocks(ls.drop_first(), Some(kind), program),
                None => match outside_blocks(ls.drop_first(), None, program) {
                    Some(rest) => Some(ls[0] + rest),
                    None => None,
                },
            },
        }
    }
}

/// `body` without its blocks: none where it has no block, and none where a
/// block is left open.
pub open spec fn stripped(body: Seq<char>, program: Seq<char>) -> Option<Seq<char>> {
    if has_block(lines(body), program) {
        outside_blocks(lines(body), None, program)
    } else {
        None
    }
}

/// Where the line that begins at `from` ends.
fn line_end(chars: &Vec<char>, from: usize) -> (end: usize)
    requires
        from < chars.len(),
    ensures
        from < end <= chars.len(),
        end == from + line_len(chars@.skip(from as int)),
{
    let mut i: usize = from;
    while i < chars.len()
        invariant
            from <= i <= chars.len(),
            line_len(chars@.skip(from as int)) == i - from + line_len(chars@.skip(i as int)),
        decreases chars.len() - i,
    {
        proof {
            assert(chars@.skip(i as int).drop_first() == chars@.skip(i as int + 1));
        }
        if chars[i] == '\n' {
            return i + 1;
        }
        i = i + 1;
    }
    i
}

/// Whether `line` begins with `marker`, white space aside.
fn is_marked(line: &Vec<char>, marker: &str) -> (found: bool)
    ensures
        found == marked(line@, marker@),
{
    let start = skip_spaces(line);
    starts_at(line, start, marker)
}

/// A marker of blocks that the program `program` wrote.
fn marker(before: &str, program: &str) -> (text: String)
    ensures
        text@ == before@ + program@ + " hook"@,
{
    let mut text = before.to_owned();
    text.append(program);
    text.append(" hook");
    text
}

/// Strips blocks that earlier releases injected out of a statusline script.
///
/// None means "leave this file alone": either there was nothing to strip, or a
/// block was opened and never closed, in which case guessing where it ends
/// could take the user's own code with it.
pub fn strip_legacy_blocks(body: &str, program: &str) -> (cleaned: Option<String>)
    ensures
        match stripped(body@, program@) {
            Some(text) => cleaned matches Some(c) && c@ == text,
            None => cleaned is None,
        },
{
    let chars = chars_of(body);
    let plain = marker("# --- ", program);
    let plain_end = marker("# --- end ", program);
    let versioned = marker("# >>> ", program);
    let versioned_end = marker("# <<< ", program);
    let mut out = String::new();
    let mut within: Option<BlockKind> = None;
    let mut removed_any = false;
    let mut i: usize = 0;
    let ghost mut seen: int = 0;
    let ghost all = lines(body@);
    proof {
        assert(chars@.skip(0) == body@);
        assert(all.skip(0) == all);
        if let Some(rest) = outside_blocks(all, None, program@) {
            assert(out@ + rest == rest);
        }
    }
    while i < chars.len()
        invariant
            i <= chars.len(),
            all == lines(body@),
            plain@ == opening(BlockKind::Plain, program@),
            plain_end@ == closing(BlockKind::Plain, program@),
            versioned@ == opening(BlockKind::Versioned, program@),
            versioned_end@ == closing(BlockKind::Versioned, program@),
            0 <= seen <= all.len(),
            lines(chars@.skip(i as int)) == all.skip(seen),
            match outside_blocks(all.skip(seen), within, program@) {
                Some(rest) => outside_blocks(all, None, program@) == Some(out@ + rest),
                None => outside_blocks(all, None, program@) is None,
            },
            removed_any == exists|k: int| 0 <= k < seen && opens(#[trigger] all[k], program@) is Some,
            within is Some ==> removed_any,
        decreases chars.len() - i,
    {
        let ghost here = chars@.skip(i as int);
        proof {
            line_len_bounds(here);
        }
        let end = line_end(&chars, i);
        let line = slice_of(&chars, i, end);
        let ghost before = out@;
        let ghost left = all.skip(seen);
        proof {
            assert(line@ == here.take(line_len(here) as int));
            assert(here.skip(line_len(here) as int) == chars@.skip(end as int));
            assert(left[0] == line@);
            assert(left[0] == all[seen]);
            assert(left.drop_first() == all.skip(seen + 1));
            assert(lines(here).drop_first() == lines(chars@.skip(end as int)));
        }
        match within {
            Some(kind) => {
                let ends = match kind {
                    BlockKind::Plain => is_marked(&line, plain_end.as_str()),
                    BlockKind::Versioned => is_marked(&line, versioned_end.as_str()),
                };
                if ends {
                    within = None;
                }
            },
            None => {
                if is_marked(&line, plain.as_str()) {
                    within = Some(BlockKind::Plain);
                    removed_any = true;
                    proof {
                        assert(opens(all[seen], program@) is Some);
                    }
                } else if is_marked(&line, versioned.as_str()) {
                    within = Some(BlockKind::Versioned);
                    removed_any = true;
                    proof {
                        assert(opens(all[seen], program@) is Some);
                    }
                } else {
                    let text = string_of(&chars, i, end);
                    out.append(text.as_str());
                    proof {
                        if let Some(rest) = outside_blocks(all.skip(seen + 1), None, program@) {
                            assert(before + line@ + rest == before + (line@ + rest));
                        }
                    }
                }
            },
        }
        proof {
            seen = seen + 1;
        }
        i = end;
    }
    proof {
        assert(all.skip(seen).len() == 0);
        assert(out@ + Seq::<char>::empty() == out@);
    }
    if !removed_any {
        return None;
    }
    match within {
        Some(_) => None,
        None => Some(out),
    }
}

/// The characters `chars[from..to]`.
fn slice_of(chars: &Vec<char>, from: usize, to: usize) -> (part: Vec<char>)
    requires
        from <= to <= chars.len(),
    ensures
        part@ == chars@.subrange(from as int, to as int),
{
    let mut part: Vec<char> = Vec::new();
    let mut i: usize = from;
    while i < to
        invariant
            from <= i <= to <= chars.len(),
            part@ == chars@.subrange(from as int, i as int),
        decreases to - i,
    {
        proof {
            assert(chars@.subrange(from as int, i as int + 1) == chars@.subrange(
                from as int,
                i as int,
            ).push(chars@[i as int]));
        }
        part.push(chars[i]);
        i = i + 1;
    }
    part
}

/// The first line of a line followed by more text is that line, when the line
/// ends in its only newline.
proof fn first_line(line: Seq<char>, rest: Seq<char>)
    requires
        line.len() > 0,
        forall|i: int| 0 <= i < line.len() - 1 ==> #[trigger] line[i] != '\n',
        line.last() == '\n' || rest.len() == 0,
    ensures
        line_len(line + rest) == line.len(),
    decreases line.len(),
{
    let s = line + rest;
    assert(s[0] == line[0]);
    if line.len() == 1 {
        if line[0] != '\n' {
            assert(line_len(s.drop_first()) == 0);
        }
    } else {
        let tail = line.drop_first();
        assert(s[0] != '\n');
        assert forall|i: int| 0 <= i < tail.len() - 1 implies #[trigger] tail[i] != '\n' by {
            assert(tail[i] == line[i + 1]);
        }
        first_line(tail, rest);
        assert(s.drop_first() == tail + rest);
    }
}

/// What is left outside of blocks, read line by line, opens no block.
proof fn left_lines_open_nothing(
    body: Seq<char>,
    within: Option<BlockKind>,
    program: Seq<char>,
)
    ensures
        outside_blocks(lines(body), within, program) matches Some(text) ==> !has_block(
            lines(text),
            program,
        ),
    decreases body.len(),
{
    if body.len() > 0 {
        line_len_bounds(body);
        let n = line_len(body) as int;
        let line = body.take(n);
        let rest = body.skip(n);
        assert(lines(body)[0] == line);
        assert(lines(body).drop_first() == lines(rest));
        match within {
            Some(kind) => {
                left_lines_open_nothing(
                    rest,
                    if closes(kind, line, program) {
                        None
                    } else {
                        within
                    },
                    program,
                );
            },
            None => match opens(line, program) {
                Some(kind) => {
                    left_lines_open_nothing(rest, Some(kind), program);
                },
                None => {
                    left_lines_open_nothing(rest, None, program);
                    if let Some(text) = outside_blocks(lines(rest), None, program) {
                        if rest.len() == 0 {
                            assert(text == Seq::<char>::empty());
                        }
                        assert forall|i: int| 0 <= i < line.len() - 1 implies #[trigger] line[i]
                            != '\n' by {
                            assert(line[i] == body[i]);
                        }
                        if n < body.len() {
                            assert(line.last() == body[n - 1]);
                        }
                        first_line(line, text);
                        let s = line + text;
                        assert(s.take(line.len() as int) == line);
                        assert(s.skip(line.len() as int) == text);
                        let ls = lines(s);
                        assert(ls == seq![line] + lines(text));
                        assert forall|i: int| 0 <= i < ls.len() implies opens(
                            #[trigger] ls[i],
                            program,
                        ) is None by {
                            if i > 0 {
                                assert(ls[i] == lines(text)[i - 1]);
                            }
                        }
                    }
                },
            },
        }
    } else {
        assert(lines(body).len() == 0);
        assert(lines(Seq::<char>::empty()).len() == 0);
    }
}

/// Stripping is done once and for all: a script that was cleaned has no block
/// left, and cleaning it again leaves it alone.
pub proof fn strip_once(body: Seq<char>, program: Seq<char>)
    ensures
        stripped(body, program) matches Some(text) ==> !has_block(lines(text), program) && stripped(
            text,
            program,
        ) is None,
{
    left_lines_open_nothing(body, None, program);
}

} // verus!
