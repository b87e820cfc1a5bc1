//! What is particular to macOS.

use vstd::prelude::*;
use vstd::string::*;

use crate::text::chars_of;

pub mod autostart;

verus! {

/// `s` with each backslash and each double quote escaped by a backslash.
pub open spec fn script_escaped(s: Seq<char>) -> Seq<char>
    decreases s.len(),
{
    if s.len() == 0 {
        seq![]
    } else if s.last() == '\\' || s.last() == '"' {
        script_escaped(s.drop_last()).push('\\').push(s.last())
    } else {
        script_escaped(s.drop_last()).push(s.last())
    }
}

/// Escapes a string for a double-quoted AppleScript literal.
pub fn applescript_escape(s: &str) -> (text: String)
    ensures
        text@ == script_escaped(s@),
{
    let chars = chars_of(s);
    let mut text = String::new();
    let mut i: usize = 0;
    proof {
        assert(chars@.take(0) == Seq::<char>::empty());
    }
    while i < chars.len()
        invariant
            i <= chars.len(),
            text@ == script_escaped(chars@.take(i as int)),
        decreases chars.len() - i,
    {
        let c = chars[i];
        proof {
            let here = chars@.take(i as int + 1);
            assert(here.drop_last() == chars@.take(i as int));
            assert(here.last() == c);
        }
        if c == '\\' || c == '"' {
            text.push('\\');
        }
        text.push(c);
        i = i + 1;
    }
    proof {
        assert(chars@.take(i as int) == chars@);
    }
    text
}

/// The text of the script that shows a notification.
pub open spec fn script_text(summary: Seq<char>, body: Seq<char>) -> Seq<char> {
    "display notification \""@ + script_escaped(body) + "\" with title \""@ + script_escaped(
        summary,
    ) + "\""@
}

/// The script that shows a notification.
pub fn notification_script(summary: &str, body: &str) -> (script: String)
    ensures
        script@ == "display notification \""@ + script_escaped(body@) + "\" with title \""@
            + script_escaped(summary@) + "\""@,
        script@ == script_text(summary@, body@),
{
    let mut script = "display notification \"".to_owned();
    let text = applescript_escape(body);
    script.append(text.as_str());
    script.append("\" with title \"");
    let title = applescript_escape(summary);
    script.append(title.as_str());
    script.append("\"");
    script
}

/// How often a notification is sent before it is given up: it is refused while
/// the main thread is busy.
pub const SEND_ATTEMPTS: u32 = 5;

/// The time between two attempts, in milliseconds.
pub const SEND_RETRY_DELAY_MS: u64 = 50;

/// Whether a notification is worth sending again.
pub open spec fn worth_resending(attempts: u32, sent: bool) -> bool {
    !sent && attempts < SEND_ATTEMPTS
}

/// Whether to wait and send a notification again, given how often it was sent
/// and whether the last attempt went through.
pub fn sends_again(attempts: u32, sent: bool) -> (again: bool)
    ensures
        again == (!sent && attempts < SEND_ATTEMPTS),
        again == worth_resending(attempts, sent),
{
    !sent && attempts < SEND_ATTEMPTS
}

} // verus!
