//! The assistant's settings file: reading it, and changing the one entry that is
//! the hook's.

use vstd::prelude::*;
use vstd::string::*;

use crate::files::FileRead;
use crate::hook::command::text_of;
use crate::json::{
    alike, alike_at_all, alike_onwards, equal_is_kept, exact, finite_doubles, found_doubles,
    json_of_value, kept_doubles, kept_is_equal, modest, modest_doubles, object_value, open_value,
    parsed_json, pretty_json, pretty_text, printable, readable, reread, reread_as,
    reread_twice, returning, returning_doubles, same_but_doubles, text_value, value_members,
    value_of_text, value_tree, within, within_more, Node, Tree, NESTING_LIMIT,
};
use crate::text::{blank, is_blank, is_space, same_text};

verus! {

/// The assistant's settings file inside the config directory.
pub const SETTINGS_FILE_NAME: &'static str = "settings.json";

/// The one-time backup of it.
pub const SETTINGS_BACKUP_FILE_NAME: &'static str = "settings.json.bak-usage-tray";

/// The entry that holds the statusline command.
pub const STATUS_LINE: &'static str = "statusLine";

/// The settings of the assistant, with every entry as it was read.
pub struct SettingsDoc {
    members: Vec<(String, serde_json::Value)>,
}

impl View for SettingsDoc {
    type V = Map<Seq<char>, Tree>;

    closed spec fn view(&self) -> Map<Seq<char>, Tree> {
        value_members(self.members@)
    }
}

/// Why settings could not be used.
#[derive(Clone, Copy, Debug, PartialEq, Eq, Structural)]
pub enum HookErrorKind {
    /// The file holds something that settings cannot be.
    InvalidData,
    /// The file could not be read or written.
    Io,
}

/// Why settings could not be used, also in words.
#[derive(Clone, Debug, PartialEq, Eq)]
pub struct HookError {
    pub kind: HookErrorKind,
    pub text: String,
}

impl HookError {
    /// What the error says.
    pub open spec fn view(&self) -> (HookErrorKind, Seq<char>) {
        (self.kind, self.text@)
    }

    /// An error with the given words.
    pub fn new(kind: HookErrorKind, text: String) -> (error: Self)
        ensures
            error@ == (kind, text@),
    {
        HookError { kind, text }
    }

    /// Which kind of error it is.
    pub fn kind(&self) -> (kind: HookErrorKind)
        ensures
            kind == self@.0,
    {
        self.kind
    }

    /// The words.
    pub fn message(&self) -> (text: &str)
        ensures
            text@ == self@.1,
    {
        self.text.as_str()
    }
}

/// The settings in a document that may not be one.
pub open spec fn settings_of(path: Seq<char>, parsed: Result<Tree, Seq<char>>) -> Result<
    Map<Seq<char>, Tree>,
    (HookErrorKind, Seq<char>),
> {
    match parsed {
        Ok(Tree::Object(members)) => Ok(members),
        Ok(_) => Err(
            (HookErrorKind::InvalidData, path + " is not a JSON object; refusing to modify it"@),
        ),
        Err(message) => Err(
            (
                HookErrorKind::InvalidData,
                path + " is not valid JSON ("@ + message + "); refusing to modify it"@,
            ),
        ),
    }
}

/// The settings in a file: none for a missing and for a blank one. A file that
/// is no JSON object is an error, since writing over it would destroy settings
/// that cannot even be seen.
pub open spec fn settings_in(path: Seq<char>, file: FileRead) -> Result<
    Map<Seq<char>, Tree>,
    (HookErrorKind, Seq<char>),
> {
    match file {
        FileRead::NotFound => Ok(Map::empty()),
        FileRead::Failed(reason) => Err((HookErrorKind::Io, reason@)),
        FileRead::Text(body) => if blank(body@) {
            Ok(Map::empty())
        } else {
            settings_of(path, parsed_json(body@))
        },
    }
}

/// The text of a settings file.
pub open spec fn settings_text(members: Map<Seq<char>, Tree>) -> Seq<char> {
    pretty_json(Tree::Object(members)) + "\n"@
}

/// Settings that a file can hold: those that were read, and those that are
/// written.
pub open spec fn storable(members: Map<Seq<char>, Tree>) -> bool {
    printable(Tree::Object(members))
}

/// Whether `found` is what is read where `members` was written: the same, with
/// each double as it is read where it was printed.
pub open spec fn reads_as(members: Map<Seq<char>, Tree>, found: Map<Seq<char>, Tree>) -> bool {
    reread_as(Tree::Object(members), Tree::Object(found))
}

/// Settings are read as they were written exactly where none of their doubles
/// is read as another, and but for doubles they always are.
pub proof fn exact_settings_are_kept(
    members: Map<Seq<char>, Tree>,
    found: Map<Seq<char>, Tree>,
)
    requires
        storable(members),
        reads_as(members, found),
    ensures
        found == members <==> exact(Tree::Object(members)),
        same_but_doubles(Tree::Object(members), Tree::Object(found)),
{
    let (a, b) = (Tree::Object(members), Tree::Object(found));
    let levels = NESTING_LIMIT as nat;
    alike_at_all(a, b, levels, reread());
    if exact(a) {
        kept_is_equal(a, b, levels, kept_doubles(), reread());
    }
    if found == members {
        equal_is_kept(a, levels, finite_doubles(), kept_doubles(), reread());
    }
}

/// Settings that were written, read, written and read are as they were exactly
/// where none of their doubles is then another, and but for doubles they always
/// are. Where none is read as another the first time, none is the second time.
pub proof fn settings_return(
    members: Map<Seq<char>, Tree>,
    found: Map<Seq<char>, Tree>,
    last: Map<Seq<char>, Tree>,
)
    requires
        storable(members),
        reads_as(members, found),
        reads_as(found, last),
    ensures
        last == members <==> returning(Tree::Object(members)),
        exact(Tree::Object(members)) ==> returning(Tree::Object(members)),
        same_but_doubles(Tree::Object(members), Tree::Object(last)),
{
    let (a, b, c) = (Tree::Object(members), Tree::Object(found), Tree::Object(last));
    let levels = NESTING_LIMIT as nat;
    alike_onwards(a, b, c, levels, reread(), reread_twice());
    alike_at_all(a, c, levels, reread_twice());
    if returning(a) {
        kept_is_equal(a, c, levels, returning_doubles(), reread_twice());
    }
    if last == members {
        equal_is_kept(a, levels, finite_doubles(), returning_doubles(), reread_twice());
    }
    if exact(a) {
        within_more(a, levels, kept_doubles(), returning_doubles());
    }
}

/// Settings that are read as they were written are read.
pub proof fn exact_settings_are_readable(members: Map<Seq<char>, Tree>)
    requires
        exact(Tree::Object(members)),
    ensures
        readable(Tree::Object(members)),
{
    within_more(
        Tree::Object(members),
        NESTING_LIMIT as nat,
        kept_doubles(),
        found_doubles(),
    );
}

/// Whether a file holds the text of settings.
pub open spec fn file_holds(file: FileRead, members: Map<Seq<char>, Tree>) -> bool {
    file matches FileRead::Text(body) && body@ == settings_text(members) && !blank(body@)
}

/// Whether a result is what a specification says.
pub open spec fn doc_is(
    result: Result<SettingsDoc, HookError>,
    expected: Result<Map<Seq<char>, Tree>, (HookErrorKind, Seq<char>)>,
) -> bool {
    match (result, expected) {
        (Ok(doc), Ok(members)) => doc@ == members,
        (Err(error), Err(said)) => error@ == said,
        _ => false,
    }
}

impl SettingsDoc {
    /// Settings without any entry.
    pub fn new() -> (doc: Self)
        ensures
            doc@ == Map::<Seq<char>, Tree>::empty(),
    {
        SettingsDoc { members: Vec::new() }
    }
}

/// Reads what was read of the settings file at `path` as a JSON object. What is
/// read can be stored, and what was stored is read: as it was, but for doubles
/// that are read as others.
pub fn read_settings(path: &str, file: &FileRead) -> (result: Result<SettingsDoc, HookError>)
    ensures
        doc_is(result, settings_in(path@, *file)),
        result is Ok ==> storable(result->Ok_0@),
        forall|members: Map<Seq<char>, Tree>|
            storable(members) && #[trigger] file_holds(*file, members) ==> (result is Ok
                <==> readable(Tree::Object(members))) && (modest(Tree::Object(members))
                ==> result is Ok) && (result is Ok ==> reads_as(members, result->Ok_0@)),
{
    let body = match file {
        FileRead::NotFound => {
            return Ok(SettingsDoc::new());
        },
        FileRead::Failed(reason) => {
            return Err(HookError::new(HookErrorKind::Io, reason.clone()));
        },
        FileRead::Text(body) => body,
    };
    if is_blank(body.as_str()) {
        return Ok(SettingsDoc::new());
    }
    match value_of_text(body.as_str()) {
        Ok(value) => match open_value(&value) {
            Node::Object(members) => Ok(SettingsDoc { members }),
            _ => {
                let mut message = path.to_owned();
                message.append(" is not a JSON object; refusing to modify it");
                Err(HookError::new(HookErrorKind::InvalidData, message))
            },
        },
        Err(reason) => {
            let mut message = path.to_owned();
            message.append(" is not valid JSON (");
            message.append(reason.as_str());
            message.append("); refusing to modify it");
            Err(HookError::new(HookErrorKind::InvalidData, message))
        },
    }
}

/// The member under a key.
pub open spec fn entry(members: Map<Seq<char>, Tree>, key: Seq<char>) -> Option<Tree> {
    if members.contains_key(key) {
        Some(members[key])
    } else {
        None
    }
}

/// The statusline command that settings hold, if it is a text.
pub open spec fn command_in(members: Map<Seq<char>, Tree>) -> Option<Seq<char>> {
    match entry(members, STATUS_LINE@) {
        Some(line) => match line.member("command"@) {
            Some(command) => command.text(),
            None => None,
        },
        None => None,
    }
}

/// The members of the statusline entry, as far as it is an object.
pub open spec fn line_members(members: Map<Seq<char>, Tree>) -> Map<Seq<char>, Tree> {
    match entry(members, STATUS_LINE@) {
        Some(Tree::Object(line)) => line,
        _ => Map::empty(),
    }
}

/// Settings with the given statusline command. Other members of the statusline
/// entry stay, and its type is `command`.
pub open spec fn with_command(members: Map<Seq<char>, Tree>, command: Seq<char>) -> Map<
    Seq<char>,
    Tree,
> {
    members.insert(
        STATUS_LINE@,
        Tree::Object(
            line_members(members).insert("type"@, Tree::Text("command"@)).insert(
                "command"@,
                Tree::Text(command),
            ),
        ),
    )
}

/// Settings without a statusline.
pub open spec fn without_statusline(members: Map<Seq<char>, Tree>) -> Map<Seq<char>, Tree> {
    members.remove(STATUS_LINE@)
}

/// Changing the command, or removing the entry, adds no nesting and no doubles.
proof fn changes_stay_within(members: Map<Seq<char>, Tree>, command: Seq<char>, p: spec_fn(u64) -> bool)
    requires
        within(Tree::Object(members), NESTING_LIMIT as nat, p),
    ensures
        within(Tree::Object(with_command(members, command)), NESTING_LIMIT as nat, p),
        within(Tree::Object(without_statusline(members)), NESTING_LIMIT as nat, p),
{
    reveal_with_fuel(within, 3);
    let levels = NESTING_LIMIT as nat;
    let line = line_members(members);
    if let Some(Tree::Object(found)) = entry(members, STATUS_LINE@) {
        assert(within(members[STATUS_LINE@], (levels - 1) as nat, p));
    }
    let changed = with_command(members, command);
    let new_line = line.insert("type"@, Tree::Text("command"@)).insert(
        "command"@,
        Tree::Text(command),
    );
    assert forall|key: Seq<char>| new_line.contains_key(key) implies within(
        #[trigger] new_line[key],
        (levels - 2) as nat,
        p,
    ) by {
        if key != "type"@ && key != "command"@ {
            assert(line.contains_key(key) && new_line[key] == line[key]);
        }
    }
    assert forall|key: Seq<char>| changed.contains_key(key) implies within(
        #[trigger] changed[key],
        (levels - 1) as nat,
        p,
    ) by {
        if key != STATUS_LINE@ {
            assert(members.contains_key(key) && changed[key] == members[key]);
        }
    }
    let removed = without_statusline(members);
    assert forall|key: Seq<char>| removed.contains_key(key) implies within(
        #[trigger] removed[key],
        (levels - 1) as nat,
        p,
    ) by {
        assert(members.contains_key(key) && removed[key] == members[key]);
    }
}

/// Changing the command, or removing the entry, keeps settings storable, certain
/// to be read, and without doubles.
pub proof fn changes_keep_storable(members: Map<Seq<char>, Tree>, command: Seq<char>)
    ensures
        storable(members) ==> storable(with_command(members, command)) && storable(
            without_statusline(members),
        ),
        modest(Tree::Object(members)) ==> modest(Tree::Object(with_command(members, command)))
            && modest(Tree::Object(without_statusline(members))),
        readable(Tree::Object(members)) ==> readable(
            Tree::Object(with_command(members, command)),
        ) && readable(Tree::Object(without_statusline(members))),
        exact(Tree::Object(members)) ==> exact(Tree::Object(with_command(members, command)))
            && exact(Tree::Object(without_statusline(members))),
{
    if storable(members) {
        changes_stay_within(members, command, finite_doubles());
    }
    if modest(Tree::Object(members)) {
        changes_stay_within(members, command, modest_doubles());
    }
    if readable(Tree::Object(members)) {
        changes_stay_within(members, command, found_doubles());
    }
    if exact(Tree::Object(members)) {
        changes_stay_within(members, command, kept_doubles());
    }
}

/// Settings that are the same but for doubles hold the same command.
pub proof fn same_command(
    members: Map<Seq<char>, Tree>,
    found: Map<Seq<char>, Tree>,
    r: spec_fn(u64, u64) -> bool,
)
    requires
        alike(Tree::Object(members), Tree::Object(found), NESTING_LIMIT as nat, r),
    ensures
        command_in(found) == command_in(members),
        found.contains_key(STATUS_LINE@) == members.contains_key(STATUS_LINE@),
{
    reveal_with_fuel(alike, 3);
    let levels = NESTING_LIMIT as nat;
    assert(members.contains_key(STATUS_LINE@) == members.dom().contains(STATUS_LINE@));
    assert(found.contains_key(STATUS_LINE@) == found.dom().contains(STATUS_LINE@));
    if members.contains_key(STATUS_LINE@) {
        assert(alike(members[STATUS_LINE@], found[STATUS_LINE@], (levels - 1) as nat, r));
        if let Tree::Object(line) = members[STATUS_LINE@] {
            let other = found[STATUS_LINE@]->Object_0;
            assert(line.contains_key("command"@) == line.dom().contains("command"@));
            assert(other.contains_key("command"@) == other.dom().contains("command"@));
            if line.contains_key("command"@) {
                assert(alike(line["command"@], other["command"@], (levels - 2) as nat, r));
            }
        }
    }
}

/// The same change to settings that are the same but for doubles leaves them
/// so, with their doubles as they were.
pub proof fn same_change(
    members: Map<Seq<char>, Tree>,
    found: Map<Seq<char>, Tree>,
    command: Seq<char>,
    r: spec_fn(u64, u64) -> bool,
)
    requires
        alike(Tree::Object(members), Tree::Object(found), NESTING_LIMIT as nat, r),
    ensures
        alike(
            Tree::Object(with_command(members, command)),
            Tree::Object(with_command(found, command)),
            NESTING_LIMIT as nat,
            r,
        ),
        alike(
            Tree::Object(without_statusline(members)),
            Tree::Object(without_statusline(found)),
            NESTING_LIMIT as nat,
            r,
        ),
{
    reveal_with_fuel(alike, 3);
    let levels = NESTING_LIMIT as nat;
    let a = line_members(members);
    let b = line_members(found);
    let x = a.insert("type"@, Tree::Text("command"@)).insert("command"@, Tree::Text(command));
    let y = b.insert("type"@, Tree::Text("command"@)).insert("command"@, Tree::Text(command));
    same_command(members, found, r);
    if members.contains_key(STATUS_LINE@) {
        assert(alike(members[STATUS_LINE@], found[STATUS_LINE@], (levels - 1) as nat, r));
    }
    assert(a.dom() =~= b.dom());
    assert forall|key: Seq<char>| a.contains_key(key) implies alike(
        #[trigger] a[key],
        b[key],
        (levels - 2) as nat,
        r,
    ) by {}
    assert(x.dom() =~= y.dom());
    assert forall|key: Seq<char>| x.contains_key(key) implies alike(
        #[trigger] x[key],
        y[key],
        (levels - 2) as nat,
        r,
    ) by {
        if key != "type"@ && key != "command"@ {
            assert(a.contains_key(key) && x[key] == a[key] && y[key] == b[key]);
        }
    }
    let p = with_command(members, command);
    let q = with_command(found, command);
    assert(p.dom() =~= q.dom());
    assert forall|key: Seq<char>| p.contains_key(key) implies alike(
        #[trigger] p[key],
        q[key],
        (levels - 1) as nat,
        r,
    ) by {
        if key != STATUS_LINE@ {
            assert(members.contains_key(key) && p[key] == members[key] && q[key] == found[key]);
        }
    }
    let u = without_statusline(members);
    let v = without_statusline(found);
    assert(u.dom() =~= v.dom());
    assert forall|key: Seq<char>| u.contains_key(key) implies alike(
        #[trigger] u[key],
        v[key],
        (levels - 1) as nat,
        r,
    ) by {
        assert(members.contains_key(key) && u[key] == members[key] && v[key] == found[key]);
    }
}

/// Where the last member with a key stands.
fn find_member(members: &Vec<(String, serde_json::Value)>, key: &str) -> (found: Option<usize>)
    ensures
        match entry(value_members(members@), key@) {
            Some(tree) => found matches Some(i) && i < members.len() && value_tree(
                members@[i as int].1,
            ) == tree,
            None => found is None,
        },
{
    let mut i: usize = members.len();
    proof {
        assert(members@.take(i as int) == members@);
    }
    while i > 0
        invariant
            i <= members.len(),
            entry(value_members(members@), key@) == entry(
                value_members(members@.take(i as int)),
                key@,
            ),
        decreases i,
    {
        i = i - 1;
        proof {
            let here = members@.take(i as int + 1);
            assert(here.drop_last() == members@.take(i as int));
            assert(here.last() == members@[i as int]);
        }
        if same_text(members[i].0.as_str(), key) {
            return Some(i);
        }
    }
    None
}

impl SettingsDoc {
    /// Current statusline command, if it is a text.
    pub fn command_of(&self) -> (command: Option<String>)
        ensures
            text_of(command) == command_in(self@),
    {
        let index = match find_member(&self.members, STATUS_LINE) {
            Some(index) => index,
            None => {
                return None;
            },
        };
        let line = json_of_value(&self.members[index].1);
        match line.get("command") {
            Some(command) => match command.as_str() {
                Some(text) => Some(text.to_owned()),
                None => None,
            },
            None => None,
        }
    }

    /// Sets the statusline command, and keeps whatever else the user has in
    /// the statusline entry.
    pub fn set_command(&mut self, command: &str)
        ensures
            final(self)@ == with_command(old(self)@, command@),
    {
        let mut line: Vec<(String, serde_json::Value)> = Vec::new();
        if let Some(index) = find_member(&self.members, STATUS_LINE) {
            if let Node::Object(members) = open_value(&self.members[index].1) {
                line = members;
            }
        }
        proof {
            assert(value_members(line@) == line_members(self@));
        }
        let ghost before = line@;
        let kind = text_value("command".to_owned());
        line.push(("type".to_owned(), kind));
        let ghost typed = line@;
        let value = text_value(command.to_owned());
        line.push(("command".to_owned(), value));
        proof {
            assert(typed.drop_last() == before);
            assert(line@.drop_last() == typed);
            assert(value_members(typed) == line_members(self@).insert(
                "type"@,
                Tree::Text("command"@),
            ));
            assert(value_members(line@) == value_members(typed).insert(
                "command"@,
                Tree::Text(command@),
            ));
        }
        let ghost root = self.members@;
        let changed = object_value(line);
        self.members.push((STATUS_LINE.to_owned(), changed));
        proof {
            assert(self.members@.drop_last() == root);
            assert(value_members(self.members@) == value_members(root).insert(
                STATUS_LINE@,
                value_tree(changed),
            ));
        }
    }

    /// Removes the whole statusline entry.
    pub fn remove_statusline(&mut self)
        ensures
            final(self)@ == without_statusline(old(self)@),
    {
        let mut kept: Vec<(String, serde_json::Value)> = Vec::new();
        let ghost all = self.members@;
        let mut i: usize = 0;
        proof {
            assert(all.take(0) == Seq::<(String, serde_json::Value)>::empty());
            assert(value_members(kept@) == without_statusline(value_members(all.take(0))));
        }
        while i < self.members.len()
            invariant
                i <= self.members.len(),
                self.members@ == all,
                value_members(kept@) == without_statusline(value_members(all.take(i as int))),
                all == old(self).members@,
            decreases self.members.len() - i,
        {
            let ghost before = kept@;
            proof {
                let here = all.take(i as int + 1);
                assert(here.drop_last() == all.take(i as int));
                assert(here.last() == all[i as int]);
            }
            if !same_text(self.members[i].0.as_str(), STATUS_LINE) {
                let key = self.members[i].0.clone();
                let value = copy_value(&self.members[i].1);
                kept.push((key, value));
                proof {
                    assert(kept@.drop_last() == before);
                }
            }
            proof {
                assert(value_members(kept@) =~= without_statusline(
                    value_members(all.take(i as int + 1)),
                ));
            }
            i = i + 1;
        }
        proof {
            assert(all.take(i as int) == all);
        }
        self.members = kept;
    }

    /// The settings as the text of a settings file.
    pub fn render(&self) -> (text: Option<String>)
        ensures
            text is Some,
            text->0@ == settings_text(self@),
            !blank(settings_text(self@)),
    {
        let mut members: Vec<(String, serde_json::Value)> = Vec::new();
        let ghost all = self.members@;
        let mut i: usize = 0;
        proof {
            assert(all.take(0) == Seq::<(String, serde_json::Value)>::empty());
        }
        while i < self.members.len()
            invariant
                i <= self.members.len(),
                self.members@ == all,
                value_members(members@) == value_members(all.take(i as int)),
            decreases self.members.len() - i,
        {
            let ghost before = members@;
            proof {
                let here = all.take(i as int + 1);
                assert(here.drop_last() == all.take(i as int));
                assert(here.last() == all[i as int]);
            }
            members.push((self.members[i].0.clone(), copy_value(&self.members[i].1)));
            proof {
                assert(members@.drop_last() == before);
            }
            i = i + 1;
        }
        proof {
            assert(all.take(i as int) == all);
        }
        let value = object_value(members);
        match pretty_text(&value) {
            Some(mut text) => {
                proof {
                    let i = choose|i: int| 0 <= i < text@.len() && !is_space(#[trigger] text@[i]);
                    assert(settings_text(self@)[i] == text@[i]);
                }
                text.append("\n");
                Some(text)
            },
            None => None,
        }
    }
}

/// `Clone` of a `serde_json::Value`: the copy holds the same document.
#[verifier::external_body]
fn copy_value(value: &serde_json::Value) -> (copy: serde_json::Value)
    ensures
        value_tree(copy) == value_tree(*value),
{
    value.clone()
}

} // verus!
