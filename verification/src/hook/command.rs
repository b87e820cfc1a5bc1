//! Command strings: splitting and quoting words as a shell does, and the form
//! of the command that the hook records.

use vstd::prelude::*;
use vstd::string::*;

use crate::text::{
    blank, chars_of, is_blank, is_space, is_whitespace, joined, joined_first, same_text, texts,
};

verus! {

/// The subcommand word by which a recorded command is recognized as this
/// program's own, whatever the binary is called.
pub const MARKER_ARG: &'static str = "statusline";

/// The option that introduces the wrapped command.
pub const EXEC_OPTION: &'static str = "--exec";

// ---------------------------------------------------------------------------
// Splitting
// ---------------------------------------------------------------------------

/// What follows an opening single quote: the text up to the closing quote,
/// and what comes after it. None when the quote is never closed.
pub open spec fn single_quoted(s: Seq<char>) -> Option<(Seq<char>, Seq<char>)>
    decreases s.len(),
{
    if s.len() == 0 {
        None
    } else if s[0] == '\'' {
        Some((seq![], s.drop_first()))
    } else {
        match single_quoted(s.drop_first()) {
            Some((text, rest)) => Some((seq![s[0]] + text, rest)),
            None => None,
        }
    }
}

/// The characters that a backslash escapes inside double quotes.
pub open spec fn escapable(c: char) -> bool {
    c == '"' || c == '\\' || c == '$' || c == '`'
}

/// What follows an opening double quote: the text up to the closing quote with
/// its escapes undone, and what comes after. A backslash before a character
/// that needs no escape stands for itself.
pub open spec fn double_quoted(s: Seq<char>) -> Option<(Seq<char>, Seq<char>)>
    decreases s.len(),
{
    if s.len() == 0 {
        None
    } else if s[0] == '"' {
        Some((seq![], s.drop_first()))
    } else if s[0] == '\\' {
        if s.len() == 1 {
            None
        } else {
            match double_quoted(s.skip(2)) {
                Some((text, rest)) => Some(
                    (
                        if escapable(s[1]) {
                            seq![s[1]] + text
                        } else {
                            seq!['\\', s[1]] + text
                        },
                        rest,
                    ),
                ),
                None => None,
            }
        }
    } else {
        match double_quoted(s.drop_first()) {
            Some((text, rest)) => Some((seq![s[0]] + text, rest)),
            None => None,
        }
    }
}

/// One piece of a word, where `s` begins with a character that is not white
/// space: a quoted stretch, an escaped character, or a character that stands
/// for itself. Gives the piece's text and what comes after it.
pub open spec fn piece(s: Seq<char>) -> Option<(Seq<char>, Seq<char>)> {
    if s[0] == '\'' {
        single_quoted(s.drop_first())
    } else if s[0] == '"' {
        double_quoted(s.drop_first())
    } else if s[0] == '\\' {
        if s.len() == 1 {
            None
        } else {
            Some((seq![s[1]], s.skip(2)))
        }
    } else {
        Some((seq![s[0]], s.drop_first()))
    }
}

proof fn single_quoted_shrinks(s: Seq<char>)
    ensures
        single_quoted(s) matches Some((text, rest)) ==> rest.len() < s.len(),
    decreases s.len(),
{
    if s.len() > 0 && s[0] != '\'' {
        single_quoted_shrinks(s.drop_first());
    }
}

proof fn double_quoted_shrinks(s: Seq<char>)
    ensures
        double_quoted(s) matches Some((text, rest)) ==> rest.len() < s.len(),
    decreases s.len(),
{
    if s.len() > 0 && s[0] != '"' {
        if s[0] == '\\' {
            if s.len() > 1 {
                double_quoted_shrinks(s.skip(2));
            }
        } else {
            double_quoted_shrinks(s.drop_first());
        }
    }
}

/// A piece takes at least one character.
pub proof fn piece_shrinks(s: Seq<char>)
    requires
        s.len() > 0,
    ensures
        piece(s) matches Some((text, rest)) ==> rest.len() < s.len(),
{
    single_quoted_shrinks(s.drop_first());
    double_quoted_shrinks(s.drop_first());
}

/// The pieces up to the next white space or the end, put together, and what
/// comes after them.
pub open spec fn word(s: Seq<char>) -> Option<(Seq<char>, Seq<char>)>
    decreases s.len(),
{
    if s.len() == 0 || is_space(s[0]) {
        Some((seq![], s))
    } else {
        proof {
            piece_shrinks(s);
        }
        match piece(s) {
            None => None,
            Some((text, rest)) => if rest.len() < s.len() {
                match word(rest) {
                    None => None,
                    Some((more, left)) => Some((text + more, left)),
                }
            } else {
                None
            },
        }
    }
}

/// A word that begins with a character other than white space takes at least
/// that character, and stops at white space or at the end.
pub proof fn word_shrinks(s: Seq<char>)
    ensures
        word(s) matches Some((text, rest)) ==> {
            &&& rest.len() <= s.len()
            &&& s.len() > 0 && !is_space(s[0]) ==> rest.len() < s.len()
            &&& rest.len() == 0 || is_space(rest[0])
        },
    decreases s.len(),
{
    if s.len() > 0 && !is_space(s[0]) {
        piece_shrinks(s);
        if let Some((text, rest)) = piece(s) {
            word_shrinks(rest);
        }
    }
}

/// The words of a command line: none when a quote or an escape is left open.
pub open spec fn words(s: Seq<char>) -> Option<Seq<Seq<char>>>
    decreases s.len(),
{
    if s.len() == 0 {
        Some(seq![])
    } else if is_space(s[0]) {
        words(s.drop_first())
    } else {
        proof {
            word_shrinks(s);
        }
        match word(s) {
            None => None,
            Some((text, rest)) => if rest.len() < s.len() {
                match words(rest) {
                    None => None,
                    Some(more) => Some(seq![text] + more),
                }
            } else {
                None
            },
        }
    }
}

/// Appends the text of a single-quoted stretch whose opening quote stands just
/// before `from`, and gives the position after its closing quote.
fn take_single_quoted(chars: &Vec<char>, from: usize, out: &mut String) -> (next: Option<usize>)
    requires
        from <= chars.len(),
    ensures
        match single_quoted(chars@.skip(from as int)) {
            Some((text, rest)) => {
                &&& next matches Some(n) && from < n <= chars.len() && chars@.skip(n as int) == rest
                &&& final(out)@ == old(out)@ + text
            },
            None => next is None,
        },
{
    let ghost before = out@;
    let ghost mut added: Seq<char> = seq![];
    let mut i: usize = from;
    proof {
        if let Some((text, rest)) = single_quoted(chars@.skip(from as int)) {
            assert(added + text == text);
        }
        assert(before + added == before);
    }
    while i < chars.len()
        invariant
            from <= i <= chars.len(),
            out@ == before + added,
            match single_quoted(chars@.skip(i as int)) {
                Some((text, rest)) => single_quoted(chars@.skip(from as int)) == Some(
                    (added + text, rest),
                ),
                None => single_quoted(chars@.skip(from as int)) is None,
            },
            before == old(out)@,
        decreases chars.len() - i,
    {
        let c = chars[i];
        proof {
            assert(chars@.skip(i as int).drop_first() == chars@.skip(i as int + 1));
        }
        if c == '\'' {
            proof {
                assert(added + Seq::<char>::empty() == added);
            }
            return Some(i + 1);
        }
        proof {
            if let Some((text, rest)) = single_quoted(chars@.skip(i as int + 1)) {
                assert(added.push(c) + text == added + (seq![c] + text));
            }
            assert((before + added).push(c) == before + added.push(c));
            added = added.push(c);
        }
        out.push(c);
        i = i + 1;
    }
    None
}

/// As [`take_single_quoted`], for double quotes.
fn take_double_quoted(chars: &Vec<char>, from: usize, out: &mut String) -> (next: Option<usize>)
    requires
        from <= chars.len(),
    ensures
        match double_quoted(chars@.skip(from as int)) {
            Some((text, rest)) => {
                &&& next matches Some(n) && from < n <= chars.len() && chars@.skip(n as int) == rest
                &&& final(out)@ == old(out)@ + text
            },
            None => next is None,
        },
{
    let ghost before = out@;
    let ghost mut added: Seq<char> = seq![];
    let mut i: usize = from;
    proof {
        if let Some((text, rest)) = double_quoted(chars@.skip(from as int)) {
            assert(added + text == text);
        }
        assert(before + added == before);
    }
    while i < chars.len()
        invariant
            from <= i <= chars.len(),
            out@ == before + added,
            match double_quoted(chars@.skip(i as int)) {
                Some((text, rest)) => double_quoted(chars@.skip(from as int)) == Some(
                    (added + text, rest),
                ),
                None => double_quoted(chars@.skip(from as int)) is None,
            },
            before == old(out)@,
        decreases chars.len() - i,
    {
        let c = chars[i];
        let ghost here = chars@.skip(i as int);
        proof {
            assert(here.drop_first() == chars@.skip(i as int + 1));
        }
        if c == '"' {
            proof {
                assert(added + Seq::<char>::empty() == added);
            }
            return Some(i + 1);
        }
        if c == '\\' {
            if i + 1 == chars.len() {
                return None;
            }
            let escaped = chars[i + 1];
            let ghost told = added;
            proof {
                assert(here.skip(2) == chars@.skip(i as int + 2));
                assert(here[1] == escaped);
            }
            if escaped == '"' || escaped == '\\' || escaped == '$' || escaped == '`' {
                out.push(escaped);
                proof {
                    assert((before + told).push(escaped) == before + told.push(escaped));
                    added = told.push(escaped);
                }
            } else {
                out.push('\\');
                out.push(escaped);
                proof {
                    assert((before + told).push('\\').push(escaped) == before + told.push(
                        '\\',
                    ).push(escaped));
                    added = told.push('\\').push(escaped);
                }
            }
            proof {
                if let Some((text, rest)) = double_quoted(chars@.skip(i as int + 2)) {
                    assert(told.push(escaped) + text == told + (seq![escaped] + text));
                    assert(told.push('\\').push(escaped) + text == told + (seq!['\\', escaped]
                        + text));
                }
            }
            i = i + 2;
        } else {
            proof {
                if let Some((text, rest)) = double_quoted(chars@.skip(i as int + 1)) {
                    assert(added.push(c) + text == added + (seq![c] + text));
                }
                assert((before + added).push(c) == before + added.push(c));
                added = added.push(c);
            }
            out.push(c);
            i = i + 1;
        }
    }
    None
}

/// Appends one piece of a word and gives the position after it.
fn take_piece(chars: &Vec<char>, from: usize, out: &mut String) -> (next: Option<usize>)
    requires
        from < chars.len(),
    ensures
        match piece(chars@.skip(from as int)) {
            Some((text, rest)) => {
                &&& next matches Some(n) && from < n <= chars.len() && chars@.skip(n as int) == rest
                &&& final(out)@ == old(out)@ + text
            },
            None => next is None,
        },
{
    let c = chars[from];
    let ghost s = chars@.skip(from as int);
    let ghost before = out@;
    proof {
        assert(s.drop_first() == chars@.skip(from as int + 1));
    }
    if c == '\'' {
        take_single_quoted(chars, from + 1, out)
    } else if c == '"' {
        take_double_quoted(chars, from + 1, out)
    } else if c == '\\' {
        if from + 1 == chars.len() {
            None
        } else {
            let escaped = chars[from + 1];
            proof {
                assert(s.skip(2) == chars@.skip(from as int + 2));
                assert(before.push(escaped) == before + seq![escaped]);
            }
            out.push(escaped);
            Some(from + 2)
        }
    } else {
        proof {
            assert(before.push(c) == before + seq![c]);
        }
        out.push(c);
        Some(from + 1)
    }
}

/// Reads the word that begins at `from`.
fn take_word(chars: &Vec<char>, from: usize) -> (read: Option<(String, usize)>)
    requires
        from < chars.len(),
        !is_space(chars@[from as int]),
    ensures
        match word(chars@.skip(from as int)) {
            Some((text, rest)) => read matches Some((w, n)) && w@ == text && from < n
                <= chars.len() && chars@.skip(n as int) == rest,
            None => read is None,
        },
{
    let mut out = String::new();
    let mut i: usize = from;
    let ghost s = chars@.skip(from as int);
    while i < chars.len() && !is_whitespace(chars[i])
        invariant
            from <= i <= chars.len(),
            s == chars@.skip(from as int),
            match word(chars@.skip(i as int)) {
                Some((text, rest)) => word(s) == Some((out@ + text, rest)),
                None => word(s) is None,
            },
            from < chars.len(),
            !is_space(chars@[from as int]),
        decreases chars.len() - i,
    {
        let ghost before = out@;
        let ghost here = chars@.skip(i as int);
        proof {
            piece_shrinks(here);
        }
        match take_piece(chars, i, &mut out) {
            None => {
                return None;
            },
            Some(next) => {
                proof {
                    let (text, rest) = piece(here).unwrap();
                    if let Some((more, left)) = word(rest) {
                        assert(before + text + more == before + (text + more));
                    }
                }
                i = next;
            },
        }
    }
    proof {
        word_shrinks(s);
        assert(out@ + Seq::<char>::empty() == out@);
        assert(chars@.skip(i as int).len() < s.len());
    }
    Some((out, i))
}

/// Splits a command string the way `sh` would, for the small subset that can
/// appear here: white space between words, single quotes, double quotes and
/// backslash escapes. None means that a quote or an escape is left open, in
/// which case the string is not interpreted at all.
pub fn shell_split(command: &str) -> (tokens: Option<Vec<String>>)
    ensures
        match words(command@) {
            Some(w) => tokens matches Some(t) && texts(t@) == w,
            None => tokens is None,
        },
{
    let chars = chars_of(command);
    let mut tokens: Vec<String> = Vec::new();
    let mut i: usize = 0;
    proof {
        assert(chars@.skip(0) == command@);
        if let Some(more) = words(command@) {
            assert(texts(tokens@) + more == more);
        }
    }
    while i < chars.len()
        invariant
            i <= chars.len(),
            match words(chars@.skip(i as int)) {
                Some(more) => words(command@) == Some(texts(tokens@) + more),
                None => words(command@) is None,
            },
        decreases chars.len() - i,
    {
        let ghost here = chars@.skip(i as int);
        if is_whitespace(chars[i]) {
            proof {
                assert(here.drop_first() == chars@.skip(i as int + 1));
            }
            i = i + 1;
        } else {
            proof {
                word_shrinks(here);
            }
            match take_word(&chars, i) {
                None => {
                    return None;
                },
                Some((token, next)) => {
                    let ghost before = tokens@;
                    proof {
                        let rest = chars@.skip(next as int);
                        assert(texts(before.push(token)) == texts(before).push(token@));
                        if let Some(more) = words(rest) {
                            assert(texts(before).push(token@) + more == texts(before) + (
                            seq![token@] + more));
                        }
                    }
                    tokens.push(token);
                    i = next;
                },
            }
        }
    }
    proof {
        assert(words(chars@.skip(i as int)) == Some(Seq::<Seq<char>>::empty()));
        assert(texts(tokens@) + Seq::<Seq<char>>::empty() == texts(tokens@));
    }
    Some(tokens)
}

// ---------------------------------------------------------------------------
// Quoting
// ---------------------------------------------------------------------------

/// `s` with every single quote written as `'\''`: closed, escaped, reopened.
pub open spec fn quotes_escaped(s: Seq<char>) -> Seq<char>
    decreases s.len(),
{
    if s.len() == 0 {
        seq![]
    } else if s[0] == '\'' {
        seq!['\'', '\\', '\'', '\''] + quotes_escaped(s.drop_first())
    } else {
        seq![s[0]] + quotes_escaped(s.drop_first())
    }
}

/// `s` in single quotes.
pub open spec fn quoted(s: Seq<char>) -> Seq<char> {
    seq!['\''] + quotes_escaped(s) + seq!['\'']
}

/// Wraps `word` in single quotes so that a shell passes it through verbatim.
pub fn shell_quote(word: &str) -> (text: String)
    ensures
        text@ == quoted(word@),
{
    let chars = chars_of(word);
    let mut text = String::new();
    text.push('\'');
    let mut i: usize = 0;
    proof {
        assert(chars@.skip(0) == word@);
        assert(text@ + quotes_escaped(chars@.skip(0)) == seq!['\''] + quotes_escaped(word@));
    }
    while i < chars.len()
        invariant
            i <= chars.len(),
            text@ + quotes_escaped(chars@.skip(i as int)) == seq!['\''] + quotes_escaped(word@),
        decreases chars.len() - i,
    {
        let c = chars[i];
        let ghost before = text@;
        let ghost rest = quotes_escaped(chars@.skip(i as int + 1));
        proof {
            assert(chars@.skip(i as int).drop_first() == chars@.skip(i as int + 1));
        }
        if c == '\'' {
            text.push('\'');
            text.push('\\');
            text.push('\'');
            text.push('\'');
            proof {
                assert(text@ + rest == before + (seq!['\'', '\\', '\'', '\''] + rest));
            }
        } else {
            text.push(c);
            proof {
                assert(text@ + rest == before + (seq![c] + rest));
            }
        }
        i = i + 1;
    }
    proof {
        assert(text@ + Seq::<char>::empty() == text@);
        assert(text@.push('\'') == quoted(word@));
    }
    text.push('\'');
    text
}

/// The characters that a shell takes as they are.
pub open spec fn plain_char(c: char) -> bool {
    ||| 'a' <= c <= 'z'
    ||| 'A' <= c <= 'Z'
    ||| '0' <= c <= '9'
    ||| c == '.'
    ||| c == '_'
    ||| c == '-'
    ||| c == '/'
    ||| c == ':'
    ||| c == '='
    ||| c == '@'
    ||| c == '+'
    ||| c == ','
    ||| c == '%'
    ||| c == '~'
}

/// Whether `s` needs no quotes.
pub open spec fn plain(s: Seq<char>) -> bool {
    s.len() > 0 && forall|i: int| 0 <= i < s.len() ==> plain_char(#[trigger] s[i])
}

/// True when `word` is safe to hand to a shell unquoted.
pub fn is_plain(word: &str) -> (safe: bool)
    ensures
        safe == plain(word@),
{
    let chars = chars_of(word);
    if chars.len() == 0 {
        return false;
    }
    let mut i: usize = 0;
    while i < chars.len()
        invariant
            i <= chars.len(),
            chars@ == word@,
            forall|k: int| 0 <= k < i ==> plain_char(#[trigger] chars@[k]),
        decreases chars.len() - i,
    {
        let c = chars[i];
        let safe = ('a' <= c && c <= 'z') || ('A' <= c && c <= 'Z') || ('0' <= c && c <= '9') || c
            == '.' || c == '_' || c == '-' || c == '/' || c == ':' || c == '=' || c == '@' || c
            == '+' || c == ',' || c == '%' || c == '~';
        if !safe {
            proof {
                assert(!plain_char(chars@[i as int]));
            }
            return false;
        }
        i = i + 1;
    }
    true
}

/// `s` itself where it needs no quotes, else `s` in single quotes.
pub open spec fn quoted_if_needed(s: Seq<char>) -> Seq<char> {
    if plain(s) {
        s
    } else {
        quoted(s)
    }
}

/// Quotes only what needs it, so that the common case stays readable.
pub fn quote_if_needed(word: &str) -> (text: String)
    ensures
        text@ == quoted_if_needed(word@),
{
    if is_plain(word) {
        word.to_owned()
    } else {
        shell_quote(word)
    }
}

// ---------------------------------------------------------------------------
// The recorded command
// ---------------------------------------------------------------------------

/// A command recognized as one that this program recorded.
#[derive(Clone, Debug, PartialEq, Eq)]
pub struct OurCommand {
    /// The binary path recorded in the settings.
    pub exe: String,
    /// The user's own statusline command, if one is wrapped.
    pub original: Option<String>,
}

/// The contents of an [`OurCommand`].
pub ghost struct OurCommandView {
    pub exe: Seq<char>,
    pub original: Option<Seq<char>>,
}

/// The characters of an optional string.
pub open spec fn text_of(s: Option<String>) -> Option<Seq<char>> {
    match s {
        Some(s) => Some(s@),
        None => None,
    }
}

/// The characters of an optional string slice.
pub open spec fn slice_text(s: Option<&str>) -> Option<Seq<char>> {
    match s {
        Some(s) => Some(s@),
        None => None,
    }
}

impl View for OurCommand {
    type V = OurCommandView;

    open spec fn view(&self) -> OurCommandView {
        OurCommandView { exe: self.exe@, original: text_of(self.original) }
    }
}

/// A command worth wrapping: one that is not blank.
pub open spec fn wrappable(command: Option<Seq<char>>) -> Option<Seq<char>> {
    match command {
        Some(c) => if blank(c) {
            None
        } else {
            Some(c)
        },
        None => None,
    }
}

/// The command that runs `exe` as the statusline, wrapping `original` if that
/// is more than blank.
pub open spec fn command_text(exe: Seq<char>, original: Option<Seq<char>>) -> Seq<char> {
    match wrappable(original) {
        Some(o) => quoted_if_needed(exe) + " "@ + MARKER_ARG@ + " "@ + EXEC_OPTION@ + " "@ + quoted(o),
        None => quoted_if_needed(exe) + " "@ + MARKER_ARG@,
    }
}

/// Builds the `statusLine.command` value for this binary, optionally wrapping
/// the user's existing command.
pub fn build_command(exe: &str, original: Option<&str>) -> (command: String)
    ensures
        command@ == command_text(exe@, slice_text(original)),
{
    let mut command = quote_if_needed(exe);
    command.append(" ");
    command.append(MARKER_ARG);
    if let Some(original) = original {
        if !is_blank(original) {
            command.append(" ");
            command.append(EXEC_OPTION);
            command.append(" ");
            let wrapped = shell_quote(original);
            command.append(wrapped.as_str());
        }
    }
    command
}

/// What a command's words say, if the second is the marker: the binary and the
/// wrapped command.
pub open spec fn our_command(words: Seq<Seq<char>>) -> Option<OurCommandView> {
    if words.len() >= 2 && words[1] == MARKER_ARG@ {
        Some(
            OurCommandView {
                exe: words[0],
                original: if words.len() >= 4 && words[2] == EXEC_OPTION@ {
                    wrappable(Some(words[3]))
                } else {
                    None
                },
            },
        )
    } else {
        None
    }
}

/// The command that `s` records, if it is one of ours.
pub open spec fn recorded_command(s: Seq<char>) -> Option<OurCommandView> {
    match words(s) {
        Some(w) => our_command(w),
        None => None,
    }
}

/// Recognizes one of our own commands and recovers the wrapped original.
/// Recognition is by the marker argument, not by the binary's name.
pub fn parse_our_command(command: &str) -> (ours: Option<OurCommand>)
    ensures
        match recorded_command(command@) {
            Some(view) => ours matches Some(o) && o@ == view,
            None => ours is None,
        },
{
    let tokens = match shell_split(command) {
        Some(tokens) => tokens,
        None => {
            return None;
        },
    };
    let ghost w = texts(tokens@);
    if tokens.len() < 2 {
        return None;
    }
    proof {
        assert(w[0] == tokens@[0]@);
        assert(w[1] == tokens@[1]@);
    }
    if !same_text(tokens[1].as_str(), MARKER_ARG) {
        return None;
    }
    let mut original: Option<String> = None;
    if tokens.len() >= 4 {
        proof {
            assert(w[2] == tokens@[2]@);
            assert(w[3] == tokens@[3]@);
        }
        if same_text(tokens[2].as_str(), EXEC_OPTION) && !is_blank(tokens[3].as_str()) {
            original = Some(tokens[3].clone());
        }
    }
    Some(OurCommand { exe: tokens[0].clone(), original })
}

// ---------------------------------------------------------------------------
// Laws
// ---------------------------------------------------------------------------

/// A quoted stretch, once its opening quote has been read, gives back the text
/// that was quoted.
proof fn quoted_tail_reads_back(w: Seq<char>, rest: Seq<char>)
    requires
        rest.len() == 0 || is_space(rest[0]),
    ensures
        word(seq!['\''] + (quotes_escaped(w) + seq!['\''] + rest)) == Some((w, rest)),
    decreases w.len(),
{
    let tail = quotes_escaped(w) + seq!['\''] + rest;
    let s = seq!['\''] + tail;
    assert(s.drop_first() == tail);
    piece_shrinks(s);
    if w.len() == 0 {
        assert(tail.drop_first() == rest);
        assert(single_quoted(tail) == Some((Seq::<char>::empty(), rest)));
        assert(word(rest) == Some((Seq::<char>::empty(), rest)));
        assert(w + Seq::<char>::empty() == w);
        assert(Seq::<char>::empty() + Seq::<char>::empty() == w);
    } else {
        let inner = w.drop_first();
        let next = quotes_escaped(inner) + seq!['\''] + rest;
        quoted_tail_reads_back(inner, rest);
        assert(seq![w[0]] + inner == w);
        if w[0] == '\'' {
            let after = seq!['\\', '\''] + (seq!['\''] + next);
            assert(tail == seq!['\''] + after);
            assert(tail.drop_first() == after);
            assert(single_quoted(tail) == Some((Seq::<char>::empty(), after)));
            assert(after.skip(2) == seq!['\''] + next);
            piece_shrinks(after);
            assert(piece(after) == Some((seq![after[1]], seq!['\''] + next)));
            assert(word(after) == Some((seq!['\''] + inner, rest)));
            assert(Seq::<char>::empty() + (seq!['\''] + inner) == w);
        } else {
            assert(tail == seq![w[0]] + next);
            assert(tail.drop_first() == next);
            let again = seq!['\''] + next;
            assert(again.drop_first() == next);
            piece_shrinks(again);
            let (text, left) = single_quoted(next).unwrap();
            let (more, end) = word(left).unwrap();
            assert(single_quoted(tail) == Some((seq![w[0]] + text, left)));
            assert((seq![w[0]] + text) + more == seq![w[0]] + (text + more));
        }
    }
}

/// A word in single quotes, followed by white space or by nothing, reads back
/// as that word.
pub proof fn quoted_reads_back(w: Seq<char>, rest: Seq<char>)
    requires
        rest.len() == 0 || is_space(rest[0]),
    ensures
        word(quoted(w) + rest) == Some((w, rest)),
{
    quoted_tail_reads_back(w, rest);
    assert(quoted(w) + rest == seq!['\''] + (quotes_escaped(w) + seq!['\''] + rest));
}

/// A plain word, followed by white space or by nothing, reads back as itself.
pub proof fn plain_reads_back(w: Seq<char>, rest: Seq<char>)
    requires
        rest.len() == 0 || is_space(rest[0]),
        forall|i: int| 0 <= i < w.len() ==> plain_char(#[trigger] w[i]),
    ensures
        word(w + rest) == Some((w, rest)),
    decreases w.len(),
{
    let s = w + rest;
    if w.len() == 0 {
        assert(s == rest);
    } else {
        let inner = w.drop_first();
        assert forall|i: int| 0 <= i < inner.len() implies plain_char(#[trigger] inner[i]) by {
            assert(inner[i] == w[i + 1]);
        }
        plain_reads_back(inner, rest);
        assert(plain_char(w[0]));
        assert(s[0] == w[0]);
        assert(s.drop_first() == inner + rest);
        assert(seq![w[0]] + inner == w);
    }
}

/// Whatever the quoting decided, the word reads back.
pub proof fn quoted_if_needed_reads_back(w: Seq<char>, rest: Seq<char>)
    requires
        rest.len() == 0 || is_space(rest[0]),
    ensures
        word(quoted_if_needed(w) + rest) == Some((w, rest)),
        quoted_if_needed(w).len() > 0,
        !is_space(quoted_if_needed(w)[0]),
{
    if plain(w) {
        plain_reads_back(w, rest);
        assert(plain_char(w[0]));
    } else {
        quoted_reads_back(w, rest);
    }
}

/// Splitting undoes quoting: a quoted word is the one word of the line that
/// holds it, whatever characters it has.
pub proof fn split_undoes_quote(w: Seq<char>)
    ensures
        words(quoted(w)) == Some(seq![w]),
        words(quoted_if_needed(w)) == Some(seq![w]),
{
    let none = Seq::<char>::empty();
    quoted_reads_back(w, none);
    quoted_if_needed_reads_back(w, none);
    assert(quoted(w) + none == quoted(w));
    assert(quoted_if_needed(w) + none == quoted_if_needed(w));
    assert(words(none) == Some(Seq::<Seq<char>>::empty()));
    assert(seq![w] + Seq::<Seq<char>>::empty() == seq![w]);
}

/// One word, a space, and a line: the words are that word and the line's.
proof fn words_of_word_then_line(first: Seq<char>, w: Seq<char>, line: Seq<char>)
    requires
        first.len() > 0,
        !is_space(first[0]),
        word(first + (" "@ + line)) == Some((w, " "@ + line)),
    ensures
        words(first + " "@ + line) == (match words(line) {
            Some(more) => Some(seq![w] + more),
            None => None,
        }),
{
    reveal_strlit(" ");
    let s = first + (" "@ + line);
    assert(first + " "@ + line == s);
    assert(s[0] == first[0]);
    assert((" "@ + line)[0] == ' ');
    assert((" "@ + line).drop_first() == line);
    assert(words(" "@ + line) == words(line));
}

/// Words, each in single quotes, with spaces between them.
pub open spec fn quoted_line(ws: Seq<Seq<char>>) -> Seq<char> {
    joined(ws.map_values(|w: Seq<char>| quoted(w)), " "@)
}

/// Words, each in quotes where it needs them, with spaces between them.
pub open spec fn line_of_words(ws: Seq<Seq<char>>) -> Seq<char> {
    joined(ws.map_values(|w: Seq<char>| quoted_if_needed(w)), " "@)
}

/// Splitting undoes quoting of a whole line: the words that were quoted and
/// joined by spaces are the words of the line, whatever characters they have.
pub proof fn split_undoes_quotes(ws: Seq<Seq<char>>)
    ensures
        words(quoted_line(ws)) == Some(ws),
        words(line_of_words(ws)) == Some(ws),
    decreases ws.len(),
{
    let a = ws.map_values(|w: Seq<char>| quoted(w));
    let b = ws.map_values(|w: Seq<char>| quoted_if_needed(w));
    if ws.len() == 0 {
        assert(ws == Seq::<Seq<char>>::empty());
    } else if ws.len() == 1 {
        split_undoes_quote(ws[0]);
        assert(a[0] == quoted(ws[0]) && b[0] == quoted_if_needed(ws[0]));
        assert(seq![ws[0]] == ws);
    } else {
        reveal_strlit(" ");
        let rest = ws.drop_first();
        split_undoes_quotes(rest);
        joined_first(a, " "@);
        joined_first(b, " "@);
        assert(a.drop_first() == rest.map_values(|w: Seq<char>| quoted(w)));
        assert(b.drop_first() == rest.map_values(|w: Seq<char>| quoted_if_needed(w)));
        let (x, y) = (quoted_line(rest), line_of_words(rest));
        assert(is_space((" "@ + x)[0]) && is_space((" "@ + y)[0]));
        quoted_reads_back(ws[0], " "@ + x);
        words_of_word_then_line(quoted(ws[0]), ws[0], x);
        quoted_if_needed_reads_back(ws[0], " "@ + y);
        words_of_word_then_line(quoted_if_needed(ws[0]), ws[0], y);
        assert(seq![ws[0]] + rest == ws);
    }
}

/// A command that was built is recognized as ours, and gives back the binary
/// and the wrapped command that it was built from.
pub proof fn parse_undoes_build(exe: Seq<char>, original: Option<Seq<char>>)
    ensures
        recorded_command(command_text(exe, original)) == Some(
            OurCommandView { exe, original: wrappable(original) },
        ),
{
    reveal_strlit(" ");
    reveal_strlit("statusline");
    reveal_strlit("--exec");
    let first = quoted_if_needed(exe);
    let marker = MARKER_ARG@;
    let option = EXEC_OPTION@;
    let none = Seq::<char>::empty();
    assert(words(none) == Some(Seq::<Seq<char>>::empty()));
    match wrappable(original) {
        Some(o) => {
            let last = quoted(o);
            split_undoes_quote(o);
            let l2 = option + " "@ + last;
            assert(is_space((" "@ + last)[0]));
            plain_reads_back(option, " "@ + last);
            words_of_word_then_line(option, option, last);
            assert(words(l2) == Some(seq![option] + seq![o]));
            let l1 = marker + " "@ + l2;
            assert(is_space((" "@ + l2)[0]));
            plain_reads_back(marker, " "@ + l2);
            words_of_word_then_line(marker, marker, l2);
            assert(is_space((" "@ + l1)[0]));
            quoted_if_needed_reads_back(exe, " "@ + l1);
            words_of_word_then_line(first, exe, l1);
            assert(command_text(exe, original) == first + " "@ + l1);
            let w = seq![exe] + (seq![marker] + (seq![option] + seq![o]));
            assert(words(command_text(exe, original)) == Some(w));
            assert(w[2] == option);
            assert(w[3] == o);
        },
        None => {
            plain_reads_back(marker, none);
            assert(marker + none == marker);
            assert(seq![marker] + Seq::<Seq<char>>::empty() == seq![marker]);
            assert(words(marker) == Some(seq![marker]));
            assert(is_space((" "@ + marker)[0]));
            quoted_if_needed_reads_back(exe, " "@ + marker);
            words_of_word_then_line(first, exe, marker);
            let w = seq![exe] + seq![marker];
            assert(words(command_text(exe, original)) == Some(w));
            assert(w[1] == marker);
        },
    }
}

} // verus!
