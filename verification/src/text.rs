//! Characters and strings: the small vocabulary every other module states its
//! contracts in. A string is its sequence of characters.

use vstd::prelude::*;
use vstd::string::*;

verus! {

/// `String::push` appends one character.
pub assume_specification[ String::push ](s: &mut String, ch: char)
    ensures
        final(s)@ == old(s)@.push(ch),
;

/// The characters of `text`, in order.
pub fn chars_of(text: &str) -> (chars: Vec<char>)
    ensures
        chars@ == text@,
{
    let mut chars: Vec<char> = Vec::new();
    for c in it: text.chars()
        invariant
            it.seq() == text@,
            chars@ == text@.take(it.index()),
    {
        proof {
            assert(text@.take(it.index() + 1) == text@.take(it.index()).push(c));
        }
        chars.push(c);
    }
    proof {
        assert(text@.take(text@.len() as int) == text@);
    }
    chars
}

/// The string made of the characters in `chars[from..to]`.
pub fn string_of(chars: &Vec<char>, from: usize, to: usize) -> (text: String)
    requires
        from <= to <= chars.len(),
    ensures
        text@ == chars@.subrange(from as int, to as int),
{
    let mut text = String::new();
    let mut i: usize = from;
    while i < to
        invariant
            from <= i <= to <= chars.len(),
            text@ == chars@.subrange(from as int, i as int),
        decreases to - i,
    {
        proof {
            assert(chars@.subrange(from as int, i as int + 1) == chars@.subrange(
                from as int,
                i as int,
            ).push(chars@[i as int]));
        }
        text.push(chars[i]);
        i = i + 1;
    }
    text
}

/// White space as Unicode's `White_Space` property defines it.
pub open spec fn is_space(c: char) -> bool {
    let n = c as u32;
    ||| 9 <= n <= 13
    ||| n == 0x20
    ||| n == 0x85
    ||| n == 0xa0
    ||| n == 0x1680
    ||| 0x2000 <= n <= 0x200a
    ||| n == 0x2028
    ||| n == 0x2029
    ||| n == 0x202f
    ||| n == 0x205f
    ||| n == 0x3000
}

/// Whether `c` is white space.
pub fn is_whitespace(c: char) -> (space: bool)
    ensures
        space == is_space(c),
{
    let n: u32 = c as u32;
    (9 <= n && n <= 13) || n == 0x20 || n == 0x85 || n == 0xa0 || n == 0x1680 || (0x2000 <= n && n
        <= 0x200a) || n == 0x2028 || n == 0x2029 || n == 0x202f || n == 0x205f || n == 0x3000
}

/// Two strings are the same when their characters are.
pub fn same_text(a: &str, b: &str) -> (same: bool)
    ensures
        same == (a@ == b@),
{
    a.to_owned() == b.to_owned()
}

/// `s` without its leading white space.
pub open spec fn trim_start(s: Seq<char>) -> Seq<char>
    decreases s.len(),
{
    if s.len() > 0 && is_space(s[0]) {
        trim_start(s.drop_first())
    } else {
        s
    }
}

/// `s` without its trailing white space.
pub open spec fn trim_end(s: Seq<char>) -> Seq<char>
    decreases s.len(),
{
    if s.len() > 0 && is_space(s.last()) {
        trim_end(s.drop_last())
    } else {
        s
    }
}

/// `s` without white space at either end.
pub open spec fn trimmed(s: Seq<char>) -> Seq<char> {
    trim_end(trim_start(s))
}

/// Whether `s` holds nothing but white space.
pub open spec fn blank(s: Seq<char>) -> bool {
    forall|i: int| 0 <= i < s.len() ==> is_space(#[trigger] s[i])
}

/// What trimming at the front removes, and what it leaves.
pub proof fn trim_start_is_suffix(s: Seq<char>)
    ensures
        trim_start(s).len() <= s.len(),
        trim_start(s) == s.skip(s.len() - trim_start(s).len()),
        forall|i: int| 0 <= i < s.len() - trim_start(s).len() ==> is_space(#[trigger] s[i]),
        trim_start(s).len() > 0 ==> !is_space(trim_start(s)[0]),
    decreases s.len(),
{
    if s.len() > 0 && is_space(s[0]) {
        let r = s.drop_first();
        trim_start_is_suffix(r);
        let t = trim_start(r);
        assert(t == s.skip(s.len() - t.len()));
        assert forall|i: int| 0 <= i < s.len() - t.len() implies is_space(#[trigger] s[i]) by {
            if i > 0 {
                assert(s[i] == r[i - 1]);
            }
        }
    } else {
        assert(s == s.skip(0));
    }
}

/// What trimming at the back removes, and what it leaves.
pub proof fn trim_end_is_prefix(s: Seq<char>)
    ensures
        trim_end(s).len() <= s.len(),
        trim_end(s) == s.take(trim_end(s).len() as int),
        forall|i: int| trim_end(s).len() <= i < s.len() ==> is_space(#[trigger] s[i]),
        trim_end(s).len() > 0 ==> !is_space(trim_end(s).last()),
    decreases s.len(),
{
    if s.len() > 0 && is_space(s.last()) {
        let r = s.drop_last();
        trim_end_is_prefix(r);
        let t = trim_end(r);
        assert(t == s.take(t.len() as int));
        assert forall|i: int| t.len() <= i < s.len() implies is_space(#[trigger] s[i]) by {
            if i < s.len() - 1 {
                assert(s[i] == r[i]);
            }
        }
    } else {
        assert(s == s.take(s.len() as int));
    }
}

/// Trimming what was trimmed changes nothing.
pub proof fn trim_twice(s: Seq<char>)
    ensures
        trimmed(trimmed(s)) == trimmed(s),
{
    let t = trimmed(s);
    trim_start_is_suffix(s);
    trim_end_is_prefix(trim_start(s));
    if t.len() > 0 {
        assert(t[0] == trim_start(s)[0]);
        assert(trim_start(t) == t);
    }
}

/// Where the first character that is not white space stands in `chars`.
pub fn skip_spaces(chars: &Vec<char>) -> (start: usize)
    ensures
        start <= chars.len(),
        chars@.skip(start as int) == trim_start(chars@),
        start == chars.len() - trim_start(chars@).len(),
{
    let mut i: usize = 0;
    proof {
        assert(chars@.skip(0) == chars@);
    }
    while i < chars.len() && is_whitespace(chars[i])
        invariant
            i <= chars.len(),
            trim_start(chars@.skip(i as int)) == trim_start(chars@),
        decreases chars.len() - i,
    {
        proof {
            assert(chars@.skip(i as int).drop_first() == chars@.skip(i as int + 1));
        }
        i = i + 1;
    }
    i
}

/// `text` without white space at either end.
pub fn trim(text: &str) -> (inner: String)
    ensures
        inner@ == trimmed(text@),
{
    let chars = chars_of(text);
    let start = skip_spaces(&chars);
    let mut end: usize = chars.len();
    proof {
        assert(chars@.subrange(start as int, end as int) == chars@.skip(start as int));
    }
    while end > start && is_whitespace(chars[end - 1])
        invariant
            start <= end <= chars.len(),
            trim_end(chars@.subrange(start as int, end as int)) == trimmed(chars@),
        decreases end,
    {
        proof {
            assert(chars@.subrange(start as int, end as int).drop_last() == chars@.subrange(
                start as int,
                end as int - 1,
            ));
        }
        end = end - 1;
    }
    string_of(&chars, start, end)
}

/// Whether `text` is empty or white space throughout.
pub fn is_blank(text: &str) -> (b: bool)
    ensures
        b == blank(text@),
{
    let chars = chars_of(text);
    let mut i: usize = 0;
    while i < chars.len()
        invariant
            i <= chars.len(),
            chars@ == text@,
            forall|k: int| 0 <= k < i ==> is_space(#[trigger] chars@[k]),
        decreases chars.len() - i,
    {
        if !is_whitespace(chars[i]) {
            return false;
        }
        i = i + 1;
    }
    true
}

/// The decimal digit with value `d`.
pub open spec fn digit(d: nat) -> char {
    (('0' as u32) + d) as char
}

/// The decimal digits of `n`, without leading zeros.
pub open spec fn digits(n: nat) -> Seq<char>
    decreases n,
{
    if n < 10 {
        seq![digit(n)]
    } else {
        digits(n / 10).push(digit(n % 10))
    }
}

/// `n` written in decimal, with a minus sign when negative.
pub open spec fn decimal(n: int) -> Seq<char> {
    if n < 0 {
        seq!['-'] + digits((-n) as nat)
    } else {
        digits(n as nat)
    }
}

/// The character for the digit `d`.
pub fn digit_char(d: u8) -> (c: char)
    requires
        d < 10,
    ensures
        c == digit(d as nat),
{
    (48 + d) as char
}

/// `n` in decimal.
pub fn nat_text(n: u64) -> (text: String)
    ensures
        text@ == digits(n as nat),
    decreases n,
{
    if n < 10 {
        let mut text = String::new();
        text.push(digit_char(n as u8));
        proof {
            assert(text@ == seq![digit(n as nat)]);
        }
        text
    } else {
        let mut text = nat_text(n / 10);
        text.push(digit_char((n % 10) as u8));
        text
    }
}

/// `n` in decimal, signed.
pub fn int_text(n: i64) -> (text: String)
    ensures
        text@ == decimal(n as int),
{
    if n < 0 {
        let mut text = String::new();
        text.push('-');
        proof {
            assert(text@ == seq!['-']);
        }
        let magnitude: u64 = if n == i64::MIN {
            0x8000_0000_0000_0000
        } else {
            (-n) as u64
        };
        let tail = nat_text(magnitude);
        text.append(tail.as_str());
        text
    } else {
        nat_text(n as u64)
    }
}

/// Whether `c` is an ASCII decimal digit.
pub open spec fn is_digit(c: char) -> bool {
    '0' <= c <= '9'
}

/// Whether `s` is one or more decimal digits.
pub open spec fn all_digits(s: Seq<char>) -> bool {
    s.len() > 0 && forall|i: int| 0 <= i < s.len() ==> is_digit(#[trigger] s[i])
}

/// The number that the digits of `s` spell.
pub open spec fn number(s: Seq<char>) -> nat
    decreases s.len(),
{
    if s.len() == 0 {
        0
    } else {
        number(s.drop_last()) * 10 + (s.last() as u32 - '0' as u32) as nat
    }
}

/// Reading back what was written gives the number written.
pub proof fn number_of_digits(n: nat)
    ensures
        all_digits(digits(n)),
        number(digits(n)) == n,
    decreases n,
{
    if n < 10 {
        let s = digits(n);
        assert(s.drop_last() == Seq::<char>::empty());
        assert(number(s.drop_last()) == 0);
    } else {
        number_of_digits(n / 10);
        let s = digits(n);
        assert(s.drop_last() == digits(n / 10));
        assert forall|i: int| 0 <= i < s.len() implies is_digit(#[trigger] s[i]) by {
            if i < s.len() - 1 {
                assert(s[i] == digits(n / 10)[i]);
            }
        }
    }
}

/// A longer run of digits spells a number at least as large as its prefix.
pub proof fn number_grows(s: Seq<char>, k: int)
    requires
        0 <= k <= s.len(),
    ensures
        number(s.take(k)) <= number(s),
    decreases s.len() - k,
{
    if k < s.len() {
        number_grows(s, k + 1);
        assert(s.take(k + 1).drop_last() == s.take(k));
        let a = number(s.take(k));
        assert(number(s.take(k + 1)) >= a * 10);
    } else {
        assert(s.take(k) == s);
    }
}

/// The value of the digits in `chars[from..]`: none when they are not all
/// digits, when there are none, or when the number exceeds `u64`.
pub fn parse_digits(chars: &Vec<char>, from: usize) -> (value: Option<u64>)
    requires
        from <= chars.len(),
    ensures
        value == ({
            let s = chars@.skip(from as int);
            if all_digits(s) && number(s) <= u64::MAX {
                Some(number(s) as u64)
            } else {
                None
            }
        }),
{
    let ghost s = chars@.skip(from as int);
    if from == chars.len() {
        return None;
    }
    let mut value: u64 = 0;
    let mut i: usize = from;
    proof {
        assert(s.take(0) == Seq::<char>::empty());
    }
    while i < chars.len()
        invariant
            from <= i <= chars.len(),
            s == chars@.skip(from as int),
            forall|k: int| 0 <= k < i - from ==> is_digit(#[trigger] s[k]),
            value == number(s.take(i - from)),
        decreases chars.len() - i,
    {
        let c = chars[i];
        proof {
            assert(c == s[i - from]);
            assert(s.take(i - from + 1).drop_last() == s.take(i - from));
        }
        if c < '0' || c > '9' {
            proof {
                assert(!is_digit(s[i - from]));
            }
            return None;
        }
        let d: u64 = c as u64 - 48;
        if value > (u64::MAX - d) / 10 {
            proof {
                number_grows(s, i - from + 1);
            }
            return None;
        }
        value = value * 10 + d;
        i = i + 1;
    }
    proof {
        assert(s.take(s.len() as int) == s);
    }
    Some(value)
}

/// What `text` says as an unsigned number: decimal digits after an optional
/// plus sign, no larger than `u64` holds.
pub open spec fn unsigned(s: Seq<char>) -> Option<u64> {
    let rest = if s.len() > 0 && s[0] == '+' {
        s.drop_first()
    } else {
        s
    };
    if all_digits(rest) && number(rest) <= u64::MAX {
        Some(number(rest) as u64)
    } else {
        None
    }
}

/// Reads an unsigned number.
pub fn parse_unsigned(text: &str) -> (value: Option<u64>)
    ensures
        value == unsigned(text@),
{
    let chars = chars_of(text);
    let from: usize = if chars.len() > 0 && chars[0] == '+' {
        1
    } else {
        0
    };
    proof {
        assert(chars@.skip(0) == chars@);
        if chars@.len() > 0 {
            assert(chars@.skip(1) == chars@.drop_first());
        }
    }
    parse_digits(&chars, from)
}

/// `s` begins with `prefix`.
pub open spec fn begins(s: Seq<char>, prefix: Seq<char>) -> bool {
    prefix.len() <= s.len() && s.take(prefix.len() as int) == prefix
}

/// Whether `chars[from..]` begins with `prefix`.
pub fn starts_at(chars: &Vec<char>, from: usize, prefix: &str) -> (found: bool)
    requires
        from <= chars.len(),
    ensures
        found == begins(chars@.skip(from as int), prefix@),
{
    let wanted = chars_of(prefix);
    let ghost s = chars@.skip(from as int);
    if wanted.len() > chars.len() - from {
        return false;
    }
    let mut i: usize = 0;
    while i < wanted.len()
        invariant
            i <= wanted.len() <= chars.len() - from,
            wanted@ == prefix@,
            s == chars@.skip(from as int),
            forall|k: int| 0 <= k < i ==> s[k] == wanted@[k],
        decreases wanted.len() - i,
    {
        if chars[from + i] != wanted[i] {
            proof {
                assert(s[i as int] != wanted@[i as int]);
                assert(s.take(wanted@.len() as int)[i as int] == s[i as int]);
            }
            return false;
        }
        proof {
            assert(s[i as int] == wanted@[i as int]);
        }
        i = i + 1;
    }
    proof {
        assert(s.take(wanted@.len() as int) == wanted@);
    }
    true
}

/// Whether `text` begins with `prefix`.
pub fn starts_with(text: &str, prefix: &str) -> (found: bool)
    ensures
        found == begins(text@, prefix@),
{
    let chars = chars_of(text);
    proof {
        assert(chars@.skip(0) == chars@);
    }
    starts_at(&chars, 0, prefix)
}

/// The character sequences of a sequence of strings.
pub open spec fn texts(strings: Seq<String>) -> Seq<Seq<char>> {
    strings.map_values(|s: String| s@)
}

/// The pieces of `parts` in order, with `sep` between neighbours.
pub open spec fn joined(parts: Seq<Seq<char>>, sep: Seq<char>) -> Seq<char>
    decreases parts.len(),
{
    if parts.len() == 0 {
        seq![]
    } else if parts.len() == 1 {
        parts[0]
    } else {
        joined(parts.drop_last(), sep) + sep + parts.last()
    }
}

/// Joining takes the first piece as well as the last.
pub proof fn joined_first(parts: Seq<Seq<char>>, sep: Seq<char>)
    requires
        parts.len() > 1,
    ensures
        joined(parts, sep) == parts[0] + sep + joined(parts.drop_first(), sep),
    decreases parts.len(),
{
    let rest = parts.drop_first();
    let init = parts.drop_last();
    assert(rest.last() == parts.last());
    if parts.len() == 2 {
        assert(joined(init, sep) == parts[0]);
        assert(joined(rest, sep) == parts[1]);
    } else {
        joined_first(init, sep);
        assert(init.drop_first() == rest.drop_last());
        let middle = joined(rest.drop_last(), sep);
        assert((parts[0] + sep + middle) + sep + parts.last() == parts[0] + sep + (middle + sep
            + parts.last()));
    }
}

/// Joins `parts` with `sep`.
pub fn join(parts: &Vec<String>, sep: &str) -> (text: String)
    ensures
        text@ == joined(texts(parts@), sep@),
{
    let mut text = String::new();
    let mut i: usize = 0;
    let ghost all = texts(parts@);
    proof {
        assert(all.take(0) == Seq::<Seq<char>>::empty());
        assert(text@ == joined(all.take(0), sep@));
    }
    while i < parts.len()
        invariant
            i <= parts.len(),
            all == texts(parts@),
            text@ == joined(all.take(i as int), sep@),
        decreases parts.len() - i,
    {
        let ghost before = text@;
        if i > 0 {
            text.append(sep);
        }
        text.append(parts[i].as_str());
        proof {
            let now = all.take(i as int + 1);
            assert(now.drop_last() == all.take(i as int));
            assert(now.last() == parts@[i as int]@);
            if i == 0 {
                assert(before == Seq::<char>::empty());
                assert(text@ == now[0]);
            }
        }
        i = i + 1;
    }
    proof {
        assert(all.take(all.len() as int) == all);
    }
    text
}

/// The length of `s` up to the first `c`.
pub open spec fn piece_len(s: Seq<char>, c: char) -> nat
    decreases s.len(),
{
    if s.len() == 0 || s[0] == c {
        0
    } else {
        1 + piece_len(s.drop_first(), c)
    }
}

/// A piece ends within the text, at the first `c` or at the end.
pub proof fn piece_len_bounds(s: Seq<char>, c: char)
    ensures
        piece_len(s, c) <= s.len(),
        piece_len(s, c) < s.len() ==> s[piece_len(s, c) as int] == c,
        forall|i: int| 0 <= i < piece_len(s, c) ==> #[trigger] s[i] != c,
    decreases s.len(),
{
    if s.len() > 0 && s[0] != c {
        let r = s.drop_first();
        piece_len_bounds(r, c);
        assert forall|i: int| 0 <= i < piece_len(s, c) implies #[trigger] s[i] != c by {
            if i > 0 {
                assert(s[i] == r[i - 1]);
            }
        }
        if piece_len(s, c) < s.len() {
            assert(s[piece_len(s, c) as int] == r[piece_len(r, c) as int]);
        }
    }
}

/// The pieces of `s` between one `c` and the next: one more than there are
/// `c`, some of them perhaps empty.
pub open spec fn pieces(s: Seq<char>, c: char) -> Seq<Seq<char>>
    decreases s.len(),
{
    let n = piece_len(s, c) as int;
    if n < s.len() {
        seq![s.take(n)] + pieces(s.skip(n + 1), c)
    } else {
        seq![s]
    }
}

/// Where the piece that begins at `from` ends.
fn piece_end(chars: &Vec<char>, from: usize, c: char) -> (end: usize)
    requires
        from <= chars.len(),
    ensures
        from <= end <= chars.len(),
        end == from + piece_len(chars@.skip(from as int), c),
{
    let mut i: usize = from;
    while i < chars.len() && chars[i] != c
        invariant
            from <= i <= chars.len(),
            piece_len(chars@.skip(from as int), c) == i - from + piece_len(chars@.skip(i as int), c),
        decreases chars.len() - i,
    {
        proof {
            assert(chars@.skip(i as int).drop_first() == chars@.skip(i as int + 1));
        }
        i = i + 1;
    }
    i
}

/// Splits `text` at every `c`.
pub fn split(text: &str, c: char) -> (parts: Vec<String>)
    ensures
        texts(parts@) == pieces(text@, c),
        parts.len() > 0,
{
    let chars = chars_of(text);
    let mut parts: Vec<String> = Vec::new();
    let mut from: usize = 0;
    let mut end = piece_end(&chars, 0, c);
    proof {
        assert(chars@.skip(0) == text@);
        assert(texts(parts@) + pieces(text@, c) == pieces(text@, c));
    }
    while end < chars.len()
        invariant
            from <= end <= chars.len(),
            end == from + piece_len(chars@.skip(from as int), c),
            texts(parts@) + pieces(chars@.skip(from as int), c) == pieces(text@, c),
        decreases chars.len() - from,
    {
        let part = string_of(&chars, from, end);
        let ghost here = chars@.skip(from as int);
        let ghost before = parts@;
        proof {
            let n = end - from;
            assert(part@ == here.take(n));
            assert(here.skip(n + 1) == chars@.skip(end as int + 1));
            let rest = pieces(chars@.skip(end as int + 1), c);
            assert(texts(before.push(part)) == texts(before).push(part@));
            assert(texts(before).push(part@) + rest == texts(before) + (seq![part@] + rest));
        }
        parts.push(part);
        from = end + 1;
        end = piece_end(&chars, from, c);
    }
    let last = string_of(&chars, from, end);
    proof {
        let here = chars@.skip(from as int);
        assert(last@ == here);
        assert(texts(parts@.push(last)) == texts(parts@) + seq![here]);
    }
    parts.push(last);
    parts
}

/// `s` without a leading `c`, if it has one.
pub open spec fn without_first(s: Seq<char>, c: char) -> Seq<char> {
    if s.len() > 0 && s[0] == c {
        s.drop_first()
    } else {
        s
    }
}

/// `text` without a leading `c`, if it has one.
pub fn strip_first(text: &str, c: char) -> (rest: String)
    ensures
        rest@ == without_first(text@, c),
{
    let chars = chars_of(text);
    if chars.len() > 0 && chars[0] == c {
        proof {
            assert(chars@.subrange(1, chars@.len() as int) == chars@.drop_first());
        }
        string_of(&chars, 1, chars.len())
    } else {
        text.to_owned()
    }
}

} // verus!
