//! "Launch at login" on macOS: a LaunchAgent property list.

use vstd::prelude::*;
use vstd::string::*;

use crate::assistant::Assistant;
use crate::files::{FileStep, StepView};
use crate::paths::{join, joined_path};
use crate::source::home_or_here;
use crate::text::chars_of;

verus! {

/// Reverse-DNS label of the agent.
pub open spec fn agent_label(assistant: Assistant) -> Seq<char> {
    "com.patrickdappollonio."@ + assistant.program()
}

/// Reverse-DNS label of the agent.
pub fn label(assistant: &Assistant) -> (text: String)
    ensures
        text@ == agent_label(*assistant),
{
    let mut text = "com.patrickdappollonio.".to_owned();
    let program = assistant.program_name();
    text.append(program.as_str());
    text
}

/// File name of the agent: its label with `.plist` behind.
pub fn entry_name(assistant: &Assistant) -> (name: String)
    ensures
        name@ == agent_label(*assistant) + ".plist"@,
{
    let mut name = label(assistant);
    name.append(".plist");
    name
}

/// Where the LaunchAgents of a user are.
pub open spec fn user_agents(home: Option<&str>) -> Seq<char> {
    joined_path(joined_path(home_or_here(home), "Library"@), "LaunchAgents"@)
}

/// Default LaunchAgent directory: `~/Library/LaunchAgents`.
pub fn default_autostart_dir(home: Option<&str>) -> (dir: String)
    ensures
        dir@ == joined_path(joined_path(home_or_here(home), "Library"@), "LaunchAgents"@),
        dir@ == user_agents(home),
{
    let library = match home {
        Some(home) => join(home, "Library"),
        None => join(".", "Library"),
    };
    join(library.as_str(), "LaunchAgents")
}

/// Path of the entry inside `dir`.
pub fn entry_path(dir: &str, assistant: &Assistant) -> (path: String)
    ensures
        path@ == joined_path(dir@, agent_label(*assistant) + ".plist"@),
{
    let name = entry_name(assistant);
    join(dir, name.as_str())
}

/// How a character is written in XML text.
pub open spec fn xml_entity(c: char) -> Seq<char> {
    if c == '&' {
        "&amp;"@
    } else if c == '<' {
        "&lt;"@
    } else if c == '>' {
        "&gt;"@
    } else if c == '"' {
        "&quot;"@
    } else if c == '\'' {
        "&apos;"@
    } else {
        seq![c]
    }
}

/// `s` with the five special characters of XML written as entities.
pub open spec fn xml_escaped(s: Seq<char>) -> Seq<char>
    decreases s.len(),
{
    if s.len() == 0 {
        seq![]
    } else {
        xml_escaped(s.drop_last()) + xml_entity(s.last())
    }
}

/// Escapes the five XML entities.
pub fn escape_xml(raw: &str) -> (text: String)
    ensures
        text@ == xml_escaped(raw@),
{
    let chars = chars_of(raw);
    let mut text = String::new();
    let mut i: usize = 0;
    proof {
        assert(chars@.take(0) == Seq::<char>::empty());
    }
    while i < chars.len()
        invariant
            i <= chars.len(),
            text@ == xml_escaped(chars@.take(i as int)),
        decreases chars.len() - i,
    {
        let c = chars[i];
        let ghost before = text@;
        proof {
            let here = chars@.take(i as int + 1);
            assert(here.drop_last() == chars@.take(i as int));
            assert(here.last() == c);
            assert(before.push(c) == before + seq![c]);
        }
        if c == '&' {
            text.append("&amp;");
        } else if c == '<' {
            text.append("&lt;");
        } else if c == '>' {
            text.append("&gt;");
        } else if c == '"' {
            text.append("&quot;");
        } else if c == '\'' {
            text.append("&apos;");
        } else {
            text.push(c);
        }
        i = i + 1;
    }
    proof {
        assert(chars@.take(i as int) == chars@);
    }
    text
}

/// Escaped text has none of the characters that end an element or an
/// attribute.
pub proof fn escaped_text_is_inert(s: Seq<char>)
    ensures
        forall|i: int|
            0 <= i < xml_escaped(s).len() ==> #[trigger] xml_escaped(s)[i] != '<' && xml_escaped(
                s,
            )[i] != '>' && xml_escaped(s)[i] != '"' && xml_escaped(s)[i] != '\'',
    decreases s.len(),
{
    if s.len() > 0 {
        escaped_text_is_inert(s.drop_last());
        reveal_strlit("&amp;");
        reveal_strlit("&lt;");
        reveal_strlit("&gt;");
        reveal_strlit("&quot;");
        reveal_strlit("&apos;");
        let before = xml_escaped(s.drop_last());
        let e = xml_entity(s.last());
        let all = before + e;
        assert forall|i: int| 0 <= i < all.len() implies #[trigger] all[i] != '<' && all[i] != '>'
            && all[i] != '"' && all[i] != '\'' by {
            if i < before.len() {
                assert(all[i] == before[i]);
            } else {
                let k = i - before.len();
                assert(all[i] == e[k]);
                assert(k == 0 || k == 1 || k == 2 || k == 3 || k == 4 || k == 5);
            }
        }
    }
}

/// The LaunchAgent for an executable.
pub open spec fn plist_text(exec: Seq<char>, label: Seq<char>) -> Seq<char> {
    "<?xml version=\"1.0\" encoding=\"UTF-8\"?>\n"@
        + "<!DOCTYPE plist PUBLIC \"-//Apple//DTD PLIST 1.0//EN\" \"http://www.apple.com/DTDs/PropertyList-1.0.dtd\">\n"@
        + "<plist version=\"1.0\">\n<dict>\n\t<key>Label</key>\n\t<string>"@ + label
        + "</string>\n\t<key>ProgramArguments</key>\n\t<array>\n\t\t<string>"@ + xml_escaped(exec)
        + "</string>\n\t\t<string>--foreground</string>\n\t</array>\n"@
        + "\t<key>RunAtLoad</key>\n\t<true/>\n</dict>\n</plist>\n"@
}

/// Builds the LaunchAgent for an executable path. The path is escaped, and the
/// tray is started in the foreground, so that `launchd` supervises the tray
/// itself.
pub fn launch_agent_plist(exec: &str, assistant: &Assistant) -> (text: String)
    ensures
        text@ == plist_text(exec@, agent_label(*assistant)),
{
    let mut text = "<?xml version=\"1.0\" encoding=\"UTF-8\"?>\n".to_owned();
    text.append(
        "<!DOCTYPE plist PUBLIC \"-//Apple//DTD PLIST 1.0//EN\" \"http://www.apple.com/DTDs/PropertyList-1.0.dtd\">\n",
    );
    text.append("<plist version=\"1.0\">\n<dict>\n\t<key>Label</key>\n\t<string>");
    let label = label(assistant);
    text.append(label.as_str());
    text.append("</string>\n\t<key>ProgramArguments</key>\n\t<array>\n\t\t<string>");
    let path = escape_xml(exec);
    text.append(path.as_str());
    text.append("</string>\n\t\t<string>--foreground</string>\n\t</array>\n");
    text.append("\t<key>RunAtLoad</key>\n\t<true/>\n</dict>\n</plist>\n");
    text
}

/// What puts the entry for an executable path into `dir`: it is written in one
/// piece, so that a half-written one is never seen.
pub fn enable_in(dir: &str, exec: &str, assistant: &Assistant) -> (step: FileStep)
    ensures
        step@ == (StepView::Write {
            path: joined_path(dir@, agent_label(*assistant) + ".plist"@),
            body: plist_text(exec@, agent_label(*assistant)),
        }),
{
    let path = entry_path(dir, assistant);
    let body = launch_agent_plist(exec, assistant);
    FileStep::Write { path, body }
}

/// What takes the entry out of `dir`. Where there is none, nothing is left to do.
pub fn disable_in(dir: &str, assistant: &Assistant) -> (step: FileStep)
    ensures
        step@ == (StepView::Remove { path: joined_path(dir@, agent_label(*assistant) + ".plist"@) }),
{
    FileStep::Remove { path: entry_path(dir, assistant) }
}

/// What brings the wanted state about in `dir`, if anything can.
pub open spec fn wanted_step(
    enabled: bool,
    dir: Seq<char>,
    exec: Option<Seq<char>>,
    assistant: Assistant,
) -> Option<StepView> {
    let path = joined_path(dir, agent_label(assistant) + ".plist"@);
    if !enabled {
        Some(StepView::Remove { path })
    } else {
        match exec {
            Some(exec) => Some(StepView::Write { path, body: plist_text(exec, agent_label(assistant)) }),
            None => None,
        }
    }
}

/// What brings the wanted state about in `dir`; nothing can where the tray is to
/// be started and its own path is not known.
pub fn set_enabled(enabled: bool, dir: &str, exec: Option<&str>, assistant: &Assistant) -> (step:
    Option<FileStep>)
    ensures
        match step {
            Some(s) => if enabled {
                exec is Some && s@ == (StepView::Write {
                    path: joined_path(dir@, agent_label(*assistant) + ".plist"@),
                    body: plist_text(exec->0@, agent_label(*assistant)),
                })
            } else {
                s@ == (StepView::Remove { path: joined_path(dir@, agent_label(*assistant) + ".plist"@) })
            },
            None => enabled && exec is None,
        },
        wanted_step(
            enabled,
            dir@,
            match exec {
                Some(e) => Some(e@),
                None => None,
            },
            *assistant,
        ) == (match step {
            Some(s) => Some(s@),
            None => None,
        }),
{
    if !enabled {
        return Some(disable_in(dir, assistant));
    }
    match exec {
        Some(exec) => Some(enable_in(dir, exec, assistant)),
        None => None,
    }
}

} // verus!
