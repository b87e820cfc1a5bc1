//! The assistant whose usage the tray shows. Its name runs through the files
//! that it keeps, the tray's own files, and what the tray says.

use vstd::prelude::*;
use vstd::string::*;

use crate::paths::{file_name, last_name};
use crate::text::{chars_of, string_of};

verus! {

/// What the tray's own name ends in, behind the assistant's.
pub const PROGRAM_SUFFIX: &'static str = "-usage-tray";

/// The assistant, by its two spellings.
#[derive(Clone, Debug, PartialEq, Eq)]
pub struct Assistant {
    /// As file names have it: in small letters.
    pub name: String,
    /// As sentences have it.
    pub title: String,
}

impl Assistant {
    /// The tray's own name.
    pub open spec fn program(self) -> Seq<char> {
        self.name@ + PROGRAM_SUFFIX@
    }

    /// The command-line product that reports usage.
    pub open spec fn product(self) -> Seq<char> {
        self.title@ + " Code"@
    }

    /// The title of a notification that is no alert.
    pub open spec fn tray_title(self) -> Seq<char> {
        self.title@ + " usage tray"@
    }

    /// The default config directory, inside the home directory.
    pub open spec fn dot_dir(self) -> Seq<char> {
        "."@ + self.name@
    }

    /// What begins the names of the other config directories there.
    pub open spec fn dot_prefix(self) -> Seq<char> {
        "."@ + self.name@ + "-"@
    }

    /// The file in which the product keeps its own record.
    pub open spec fn dot_json(self) -> Seq<char> {
        "."@ + self.name@ + ".json"@
    }

    /// The tray's own name.
    pub fn program_name(&self) -> (text: String)
        ensures
            text@ == self.program(),
    {
        let mut text = self.name.clone();
        text.append(PROGRAM_SUFFIX);
        text
    }

    /// The command-line product that reports usage.
    pub fn product_name(&self) -> (text: String)
        ensures
            text@ == self.product(),
    {
        let mut text = self.title.clone();
        text.append(" Code");
        text
    }

    /// The title of a notification that is no alert.
    pub fn tray_title_text(&self) -> (text: String)
        ensures
            text@ == self.tray_title(),
    {
        let mut text = self.title.clone();
        text.append(" usage tray");
        text
    }

    /// The default config directory, inside the home directory.
    pub fn dir_name(&self) -> (text: String)
        ensures
            text@ == self.dot_dir(),
    {
        let mut text = ".".to_owned();
        text.append(self.name.as_str());
        text
    }

    /// What begins the names of the other config directories there.
    pub fn sibling_prefix(&self) -> (text: String)
        ensures
            text@ == self.dot_prefix(),
    {
        let mut text = ".".to_owned();
        text.append(self.name.as_str());
        text.append("-");
        text
    }

    /// The file in which the product keeps its own record.
    pub fn record_name(&self) -> (text: String)
        ensures
            text@ == self.dot_json(),
    {
        let mut text = ".".to_owned();
        text.append(self.name.as_str());
        text.append(".json");
        text
    }

    /// The assistant that the tray at `exe` is named after, where the name is in
    /// small letters and the tray's suffix follows it.
    pub fn of_program(exe: &str) -> (assistant: Option<Assistant>)
        ensures
            match assistant {
                Some(a) => {
                    &&& last_name(exe@) == Some(a.program())
                    &&& small_letters(a.name@)
                    &&& a.title@ == capitalized(a.name@)
                },
                None => match last_name(exe@) {
                    Some(program) => forall|name: Seq<char>|
                        #[trigger] small_letters(name) ==> program != name + PROGRAM_SUFFIX@,
                    None => true,
                },
            },
    {
        let program = match file_name(exe) {
            Some(program) => program,
            None => {
                return None;
            },
        };
        let chars = chars_of(program.as_str());
        let suffix = chars_of(PROGRAM_SUFFIX);
        let ghost whole = program@;
        let ghost ending = PROGRAM_SUFFIX@;
        if chars.len() < suffix.len() {
            return None;
        }
        let end: usize = chars.len() - suffix.len();
        let mut i: usize = 0;
        while i < suffix.len()
            invariant
                i <= suffix.len(),
                end == chars.len() - suffix.len(),
                chars@ == whole,
                suffix@ == ending,
                last_name(exe@) == Some(whole),
                ending == PROGRAM_SUFFIX@,
                forall|k: int| 0 <= k < i ==> #[trigger] suffix@[k] == chars@[end + k],
            decreases suffix.len() - i,
        {
            if chars[end + i] != suffix[i] {
                proof {
                    assert forall|name: Seq<char>| #[trigger] small_letters(name) implies whole
                        != name + ending by {
                        if whole == name + ending {
                            assert(name.len() == end);
                            assert((name + ending)[end + i] == ending[i as int]);
                        }
                    }
                }
                return None;
            }
            i = i + 1;
        }
        let name = string_of(&chars, 0, end);
        proof {
            assert(whole =~= name@ + ending);
            assert forall|other: Seq<char>| whole == other + ending implies other == name@ by {
                assert(other.len() == name@.len());
                assert forall|k: int| 0 <= k < other.len() implies other[k] == name@[k] by {
                    assert((other + ending)[k] == other[k]);
                }
                assert(other =~= name@);
            }
        }
        let mut title = String::new();
        let mut i: usize = 0;
        while i < end
            invariant
                i <= end <= chars.len(),
                name@ == chars@.subrange(0, end as int),
                title@ == capitalized(name@.take(i as int)),
                forall|k: int| 0 <= k < i ==> is_small(#[trigger] name@[k]),
                last_name(exe@) == Some(whole),
                ending == PROGRAM_SUFFIX@,
                forall|other: Seq<char>| whole == other + ending ==> other == name@,
            decreases end - i,
        {
            let c = chars[i];
            proof {
                assert(c == name@[i as int]);
                assert(name@.take(i as int + 1) == name@.take(i as int).push(c));
            }
            if c < 'a' || c > 'z' {
                proof {
                    assert(!small_letters(name@));
                }
                return None;
            }
            if i == 0 {
                title.push(upper(c));
                proof {
                    assert(title@ =~= capitalized(name@.take(1)));
                }
            } else {
                title.push(c);
                proof {
                    assert(title@ =~= capitalized(name@.take(i as int + 1)));
                }
            }
            i = i + 1;
        }
        if end == 0 {
            return None;
        }
        proof {
            assert(name@.take(i as int) == name@);
        }
        Some(Assistant { name, title })
    }
}

/// A small letter.
pub open spec fn is_small(c: char) -> bool {
    'a' <= c <= 'z'
}

/// A name in small letters only, of at least one.
pub open spec fn small_letters(name: Seq<char>) -> bool {
    name.len() > 0 && forall|i: int| 0 <= i < name.len() ==> is_small(#[trigger] name[i])
}

/// The capital of a small letter.
pub open spec fn capital(c: char) -> char {
    (c as u32 - 32) as char
}

/// A name with its first letter in capitals.
pub open spec fn capitalized(name: Seq<char>) -> Seq<char> {
    if name.len() == 0 {
        name
    } else {
        name.update(0, capital(name[0]))
    }
}

fn upper(c: char) -> (u: char)
    requires
        is_small(c),
    ensures
        u == capital(c),
{
    let code: u8 = c as u8;
    (code - 32) as char
}

} // verus!
