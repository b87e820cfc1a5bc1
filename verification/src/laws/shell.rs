//! Laws of command lines: how words are told apart, and how a command of the
//! hook is made.

use vstd::prelude::*;
use vstd::string::*;

use crate::hook::command::{
    command_text, double_quoted, escapable, our_command, piece, plain, plain_char, quoted,
    quoted_if_needed, single_quoted, word, words, wrappable,
};
use crate::text::{begins, blank, decimal, digits, is_space, joined, without_first};

verus! {

// ---------------------------------------------------------------------------
// Words
// ---------------------------------------------------------------------------

/// White space between words and around them does not count.
pub proof fn space_divides_words(s: Seq<char>, c: char)
    requires
        is_space(c),
    ensures
        words(seq![c] + s) == words(s),
        words(Seq::empty()) == Some(Seq::<Seq<char>>::empty()),
{
    assert((seq![c] + s).drop_first() =~= s);
}

/// A word of plain characters ends at white space: it is the first word, and the
/// others are those of what follows.
pub proof fn plain_words_are_told_apart(w: Seq<char>, c: char, rest: Seq<char>)
    requires
        plain(w),
        is_space(c),
    ensures
        words(w + (seq![c] + rest)) == (match words(rest) {
            Some(more) => Some(seq![w] + more),
            None => None,
        }),
        words(w) == Some(seq![w]),
{
    let tail = seq![c] + rest;
    crate::hook::command::plain_reads_back(w, tail);
    crate::hook::command::split_undoes_quote(w);
    assert(plain_char(w[0]));
    let s = w + tail;
    assert(s[0] == w[0]);
    crate::hook::command::word_shrinks(s);
    space_divides_words(rest, c);
    assert(words(tail) == words(rest));
}

/// Inside single quotes every character stands for itself, up to the closing
/// quote; without one there is no word.
pub proof fn single_quotes_hold_text(text: Seq<char>, rest: Seq<char>)
    requires
        forall|i: int| 0 <= i < text.len() ==> #[trigger] text[i] != '\'',
    ensures
        single_quoted(text + (seq!['\''] + rest)) == Some((text, rest)),
        single_quoted(text) is None,
        piece(seq!['\''] + (text + (seq!['\''] + rest))) == Some((text, rest)),
    decreases text.len(),
{
    let s = text + (seq!['\''] + rest);
    if text.len() == 0 {
        assert(s =~= seq!['\''] + rest);
        assert(s.drop_first() =~= rest);
    } else {
        single_quotes_hold_text(text.drop_first(), rest);
        assert(s.drop_first() =~= text.drop_first() + (seq!['\''] + rest));
        assert(seq![text[0]] + text.drop_first() =~= text);
    }
    assert((seq!['\''] + s).drop_first() =~= s);
}

/// Text as it is written inside double quotes: a backslash before each of the
/// four characters that need one.
pub open spec fn doubly_escaped(text: Seq<char>) -> Seq<char>
    decreases text.len(),
{
    if text.len() == 0 {
        seq![]
    } else if text[0] == '"' || text[0] == '\\' || text[0] == '$' || text[0] == '`' {
        seq!['\\', text[0]] + doubly_escaped(text.drop_first())
    } else {
        seq![text[0]] + doubly_escaped(text.drop_first())
    }
}

/// Inside double quotes a backslash takes the meaning of four characters away,
/// and every other character stands for itself.
pub proof fn double_quotes_hold_escaped_text(text: Seq<char>, rest: Seq<char>)
    ensures
        double_quoted(doubly_escaped(text) + (seq!['"'] + rest)) == Some((text, rest)),
        double_quoted(doubly_escaped(text)) is None,
        piece(seq!['"'] + (doubly_escaped(text) + (seq!['"'] + rest))) == Some((text, rest)),
    decreases text.len(),
{
    let inner = doubly_escaped(text);
    let tail = seq!['"'] + rest;
    let s = inner + tail;
    if text.len() == 0 {
        assert(s =~= tail);
        assert(s.drop_first() =~= rest);
    } else {
        let more = doubly_escaped(text.drop_first());
        double_quotes_hold_escaped_text(text.drop_first(), rest);
        assert(seq![text[0]] + text.drop_first() =~= text);
        if escapable(text[0]) {
            assert(inner =~= seq!['\\', text[0]] + more);
            assert(s.skip(2) =~= more + tail);
            assert(inner.skip(2) =~= more);
            assert(s[0] == '\\' && s[1] == text[0]);
        } else {
            assert(inner =~= seq![text[0]] + more);
            assert(s.drop_first() =~= more + tail);
            assert(inner.drop_first() =~= more);
        }
    }
    assert((seq!['"'] + s).drop_first() =~= s);
}

/// A backslash before any other character inside double quotes stands for itself,
/// and outside of quotes it makes the next character stand for itself.
pub proof fn backslash_outside_quotes_escapes(c: char, rest: Seq<char>)
    ensures
        piece(seq!['\\', c] + rest) == Some((seq![c], rest)),
        piece(seq!['\\']) is None,
        c != '"' && c != '\\' && c != '$' && c != '`' ==> double_quoted(
            seq!['\\', c] + (seq!['"'] + rest),
        ) == Some((seq!['\\', c], rest)),
{
    assert((seq!['\\', c] + rest).skip(2) =~= rest);
    let s = seq!['\\', c] + (seq!['"'] + rest);
    assert(s.skip(2) =~= seq!['"'] + rest);
    assert((seq!['"'] + rest).drop_first() =~= rest);
    assert(seq!['\\', c] + Seq::<char>::empty() =~= seq!['\\', c]);
    reveal_with_fuel(double_quoted, 2);
}

/// Pieces that stand together make one word.
pub proof fn pieces_make_a_word(s: Seq<char>, text: Seq<char>, rest: Seq<char>)
    requires
        s.len() > 0,
        !is_space(s[0]),
        piece(s) == Some((text, rest)),
    ensures
        word(s) == (match word(rest) {
            Some((more, left)) => Some((text + more, left)),
            None => None,
        }),
        rest.len() == 0 || is_space(rest[0]) ==> word(s) == Some((text, rest)),
{
    crate::hook::command::piece_shrinks(s);
    assert(text + Seq::<char>::empty() =~= text);
}

/// What goes without quotes holds no character that a shell gives a meaning to:
/// neither space nor quote, nor any sign of expansion, joining or redirection.
pub proof fn plain_text_is_inert(s: Seq<char>, i: int)
    requires
        plain(s),
        0 <= i < s.len(),
    ensures
        !is_space(s[i]),
        s[i] != '\'' && s[i] != '"' && s[i] != '\\' && s[i] != '$' && s[i] != '`',
        s[i] != ';' && s[i] != '&' && s[i] != '|' && s[i] != '<' && s[i] != '>',
        s[i] != '(' && s[i] != ')' && s[i] != '*' && s[i] != '?' && s[i] != '[' && s[i] != ']',
        s[i] != '#' && s[i] != '!' && s[i] != '{' && s[i] != '}' && s[i] != '^',
        plain_char(s[i]),
{
    assert(plain_char(s[i]));
}

/// Letters, digits and the signs of ordinary paths go without quotes.
pub proof fn ordinary_paths_are_plain(s: Seq<char>)
    requires
        s.len() > 0,
        forall|i: int|
            0 <= i < s.len() ==> ('a' <= #[trigger] s[i] <= 'z') || ('A' <= s[i] <= 'Z') || ('0'
                <= s[i] <= '9') || s[i] == '/' || s[i] == '.' || s[i] == '_' || s[i] == '-',
    ensures
        quoted_if_needed(s) == s,
{
    assert forall|i: int| 0 <= i < s.len() implies plain_char(#[trigger] s[i]) by {}
}

/// The hook's command runs the binary with the marker, and with the wrapped
/// command in quotes behind its option where there is one.
pub proof fn command_runs_the_binary(exe: Seq<char>, original: Seq<char>)
    ensures
        command_text(exe, None) == quoted_if_needed(exe) + " "@ + "statusline"@,
        blank(original) ==> command_text(exe, Some(original)) == command_text(exe, None),
        !blank(original) ==> command_text(exe, Some(original)) == quoted_if_needed(exe) + " "@
            + "statusline"@ + " "@ + "--exec"@ + " "@ + quoted(original),
{
}

/// A command is one of ours by its second word, whatever the binary is called,
/// and wraps what its option names.
pub proof fn marker_tells_our_commands(ws: Seq<Seq<char>>)
    ensures
        our_command(ws) is Some <==> ws.len() >= 2 && ws[1] == "statusline"@,
        our_command(ws) matches Some(ours) ==> ours.exe == ws[0],
        our_command(ws) matches Some(ours) ==> (ours.original is Some <==> ws.len() >= 4 && ws[2]
            == "--exec"@ && !blank(ws[3])),
        our_command(ws) matches Some(ours) ==> (ours.original matches Some(o) ==> o == ws[3]),
{
}

/// A command is worth wrapping unless it is blank.
pub proof fn blank_command_is_not_wrapped(command: Seq<char>)
    ensures
        wrappable(None) is None,
        blank(command) ==> wrappable(Some(command)) is None,
        !blank(command) ==> wrappable(Some(command)) == Some(command),
{
}

// ---------------------------------------------------------------------------
// Texts
// ---------------------------------------------------------------------------

/// A text begins with another where that is its head.
pub proof fn text_begins_with_its_head(head: Seq<char>, rest: Seq<char>, s: Seq<char>)
    ensures
        begins(head + rest, head),
        begins(s, head) ==> s == head + s.skip(head.len() as int),
        begins(s, Seq::empty()),
        head.len() > 0 ==> !begins(Seq::empty(), head),
        s.len() > 0 && head.len() > 0 && s[0] != head[0] ==> !begins(s, head),
{
    assert((head + rest).take(head.len() as int) =~= head);
    if begins(s, head) {
        assert(s =~= head + s.skip(head.len() as int));
        if head.len() > 0 {
            assert(s.take(head.len() as int)[0] == s[0]);
        }
    }
    assert(s.take(0) =~= Seq::<char>::empty());
}

/// Pieces are joined with the separator between each two, and nowhere else.
pub proof fn pieces_are_joined(parts: Seq<Seq<char>>, last: Seq<char>, sep: Seq<char>)
    ensures
        joined(Seq::empty(), sep).len() == 0,
        joined(seq![last], sep) == last,
        parts.len() > 0 ==> joined(parts.push(last), sep) == joined(parts, sep) + sep + last,
{
    if parts.len() > 0 {
        assert(parts.push(last).drop_last() =~= parts);
    }
}

/// A number is written in digits, with a minus sign in front of them where it is
/// negative.
pub proof fn number_is_written_with_its_sign(n: int)
    ensures
        n >= 0 ==> decimal(n) == digits(n as nat),
        n < 0 ==> decimal(n) == seq!['-'] + digits((-n) as nat),
        n >= 0 ==> crate::text::number(decimal(n)) == n,
        n >= 0 ==> crate::text::all_digits(decimal(n)),
{
    if n >= 0 {
        crate::text::number_of_digits(n as nat);
    }
}

/// One leading character of a kind is taken off, and nothing else.
pub proof fn one_leading_character_goes(s: Seq<char>, c: char)
    ensures
        without_first(seq![c] + s, c) == s,
        s.len() == 0 || s[0] != c ==> without_first(s, c) == s,
{
    assert((seq![c] + s).drop_first() =~= s);
}

} // verus!
