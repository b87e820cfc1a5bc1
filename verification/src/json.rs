//! JSON documents. Text is parsed and printed by `serde_json`; the documents
//! that come out of it are held here as plain values.

use serde_json::Value;
use vstd::prelude::*;

use crate::percent::exponent;
use crate::text::{blank, same_text};

verus! {

/// A JSON number as `serde_json` keeps it: a non-negative integer, a negative
/// integer, or the bits of a double.
#[derive(Clone, Copy, Debug, PartialEq, Eq, Structural)]
pub enum JsonNumber {
    PosInt(u64),
    NegInt(i64),
    Float(u64),
}

/// What a JSON document says.
pub ghost enum Tree {
    Null,
    Bool(bool),
    Number(JsonNumber),
    Text(Seq<char>),
    List(Seq<Tree>),
    Object(Map<Seq<char>, Tree>),
}

impl Tree {
    /// The member of an object under `key`.
    pub open spec fn member(self, key: Seq<char>) -> Option<Tree> {
        match self {
            Tree::Object(members) => if members.contains_key(key) {
                Some(members[key])
            } else {
                None
            },
            _ => None,
        }
    }

    /// The text of a string.
    pub open spec fn text(self) -> Option<Seq<char>> {
        match self {
            Tree::Text(s) => Some(s),
            _ => None,
        }
    }

    /// The number.
    pub open spec fn number(self) -> Option<JsonNumber> {
        match self {
            Tree::Number(n) => Some(n),
            _ => None,
        }
    }

    /// The value of a number that is an integer in the range of `i64`.
    pub open spec fn integer(self) -> Option<i64> {
        match self {
            Tree::Number(n) => n.integer(),
            _ => None,
        }
    }

    /// The items of a list.
    pub open spec fn items(self) -> Option<Seq<Tree>> {
        match self {
            Tree::List(items) => Some(items),
            _ => None,
        }
    }
}

impl JsonNumber {
    /// The value of an integer in the range of `i64`.
    pub open spec fn integer(self) -> Option<i64> {
        match self {
            JsonNumber::PosInt(n) => if n <= i64::MAX {
                Some(n as i64)
            } else {
                None
            },
            JsonNumber::NegInt(n) => Some(n),
            JsonNumber::Float(_) => None,
        }
    }

    /// The value of an integer in the range of `i64`.
    pub fn as_i64(self) -> (value: Option<i64>)
        ensures
            value == self.integer(),
    {
        match self {
            JsonNumber::PosInt(n) => if n <= i64::MAX as u64 {
                Some(n as i64)
            } else {
                None
            },
            JsonNumber::NegInt(n) => Some(n),
            JsonNumber::Float(_) => None,
        }
    }
}

/// What an optional document's member under `key` says.
pub open spec fn member_of(tree: Option<Tree>, key: Seq<char>) -> Option<Tree> {
    match tree {
        Some(t) => t.member(key),
        None => None,
    }
}

/// A JSON document. The later of two members with one key counts.
#[derive(Debug)]
pub enum Json {
    Null,
    Bool(bool),
    Number(JsonNumber),
    Text(String),
    List(Vec<Json>),
    Object(Vec<(String, Json)>),
}

/// What the documents in `items` say.
pub open spec fn item_trees(items: Seq<Json>) -> Seq<Tree>
    decreases items,
{
    if items.len() == 0 {
        seq![]
    } else {
        item_trees(items.drop_last()).push(items.last().tree())
    }
}

/// What the members of an object say, by key.
pub open spec fn member_trees(members: Seq<(String, Json)>) -> Map<Seq<char>, Tree>
    decreases members,
{
    if members.len() == 0 {
        Map::empty()
    } else {
        member_trees(members.drop_last()).insert(members.last().0@, members.last().1.tree())
    }
}

impl Json {
    /// What the document says.
    pub open spec fn tree(self) -> Tree
        decreases self,
    {
        match self {
            Json::Null => Tree::Null,
            Json::Bool(b) => Tree::Bool(b),
            Json::Number(n) => Tree::Number(n),
            Json::Text(s) => Tree::Text(s@),
            Json::List(items) => Tree::List(item_trees(items@)),
            Json::Object(members) => Tree::Object(member_trees(members@)),
        }
    }

    /// The member of an object under `key`.
    pub fn get(&self, key: &str) -> (found: Option<&Json>)
        ensures
            match self.tree().member(key@) {
                Some(tree) => found matches Some(json) && json.tree() == tree,
                None => found is None,
            },
    {
        match self {
            Json::Object(members) => {
                let mut i: usize = members.len();
                proof {
                    assert(members@.take(i as int) == members@);
                }
                while i > 0
                    invariant
                        i <= members.len(),
                        self == Json::Object(*members),
                        Tree::Object(member_trees(members@)).member(key@) == Tree::Object(
                            member_trees(members@.take(i as int)),
                        ).member(key@),
                    decreases i,
                {
                    i = i - 1;
                    proof {
                        let here = members@.take(i as int + 1);
                        assert(here.drop_last() == members@.take(i as int));
                        assert(here.last() == members@[i as int]);
                    }
                    if same_text(members[i].0.as_str(), key) {
                        return Some(&members[i].1);
                    }
                }
                None
            },
            _ => None,
        }
    }

    /// The text of a string.
    pub fn as_str(&self) -> (text: Option<&str>)
        ensures
            match self.tree().text() {
                Some(s) => text matches Some(t) && t@ == s,
                None => text is None,
            },
    {
        match self {
            Json::Text(s) => Some(s.as_str()),
            _ => None,
        }
    }

    /// The number.
    pub fn as_number(&self) -> (number: Option<JsonNumber>)
        ensures
            number == self.tree().number(),
    {
        match self {
            Json::Number(n) => Some(*n),
            _ => None,
        }
    }

    /// The value of a number that is an integer in the range of `i64`.
    pub fn as_i64(&self) -> (value: Option<i64>)
        ensures
            value == self.tree().integer(),
    {
        match self {
            Json::Number(n) => n.as_i64(),
            _ => None,
        }
    }

    /// The items of a list.
    pub fn as_list(&self) -> (items: Option<&Vec<Json>>)
        ensures
            match self.tree().items() {
                Some(trees) => items matches Some(v) && item_trees(v@) == trees,
                None => items is None,
            },
    {
        match self {
            Json::List(items) => Some(items),
            _ => None,
        }
    }

    /// Whether the document is `null`.
    pub fn is_null(&self) -> (null: bool)
        ensures
            null == (self.tree() == Tree::Null),
    {
        match self {
            Json::Null => true,
            _ => false,
        }
    }
}

/// The member under `key` of a document that may be absent.
pub fn get_in<'a>(json: Option<&'a Json>, key: &str) -> (found: Option<&'a Json>)
    ensures
        tree_of(found) == member_of(tree_of(json), key@),
{
    match json {
        Some(json) => json.get(key),
        None => None,
    }
}

/// What a document that may be absent says.
pub open spec fn tree_of(json: Option<&Json>) -> Option<Tree> {
    match json {
        Some(json) => Some(json.tree()),
        None => None,
    }
}

/// One item of a list says what the list says there.
pub proof fn item_trees_index(items: Seq<Json>, i: int)
    requires
        0 <= i < items.len(),
    ensures
        item_trees(items).len() == items.len(),
        item_trees(items)[i] == items[i].tree(),
    decreases items.len(),
{
    item_trees_len(items);
    item_trees_len(items.drop_last());
    if i < items.len() - 1 {
        item_trees_index(items.drop_last(), i);
    }
}

/// A list says as many things as it has items.
pub proof fn item_trees_len(items: Seq<Json>)
    ensures
        item_trees(items).len() == items.len(),
    decreases items.len(),
{
    if items.len() > 0 {
        item_trees_len(items.drop_last());
    }
}

// ---------------------------------------------------------------------------
// serde_json
// ---------------------------------------------------------------------------

/// A document as `serde_json` holds it.
#[verifier::external_type_specification]
#[verifier::external_body]
pub struct ExValue(serde_json::Value);

/// What a `serde_json::Value` holds.
pub uninterp spec fn value_tree(value: serde_json::Value) -> Tree;

/// What `serde_json::from_str` makes of a text: a document, or the message of
/// the error.
pub uninterp spec fn parsed_json(text: Seq<char>) -> Result<Tree, Seq<char>>;

/// What `serde_json::from_slice` makes of raw bytes: a document, or none where
/// it reports an error.
pub uninterp spec fn parsed_json_bytes(bytes: Seq<u8>) -> Option<Tree>;

/// What `serde_json::to_string_pretty` prints for a document.
pub uninterp spec fn pretty_json(tree: Tree) -> Seq<char>;

/// The outermost level of a document, with what is inside still as
/// `serde_json` holds it.
pub enum Node {
    Null,
    Bool(bool),
    Number(JsonNumber),
    Text(String),
    List(Vec<serde_json::Value>),
    Object(Vec<(String, serde_json::Value)>),
}

/// What the members of an object say, by key. The later of two members with
/// one key counts.
pub open spec fn value_members(members: Seq<(String, serde_json::Value)>) -> Map<Seq<char>, Tree>
    decreases members.len(),
{
    if members.len() == 0 {
        Map::empty()
    } else {
        value_members(members.drop_last()).insert(members.last().0@, value_tree(members.last().1))
    }
}

impl Node {
    /// What the document says.
    pub open spec fn tree(self) -> Tree {
        match self {
            Node::Null => Tree::Null,
            Node::Bool(b) => Tree::Bool(b),
            Node::Number(n) => Tree::Number(n),
            Node::Text(s) => Tree::Text(s@),
            Node::List(items) => Tree::List(items@.map_values(|v: serde_json::Value| value_tree(v))),
            Node::Object(members) => Tree::Object(value_members(members@)),
        }
    }

    /// No two members of an object have one key.
    pub open spec fn distinct(self) -> bool {
        match self {
            Node::Object(members) => distinct_keys(members@),
            _ => true,
        }
    }
}

/// No two members have one key.
pub open spec fn distinct_keys(members: Seq<(String, serde_json::Value)>) -> bool {
    forall|i: int, j: int|
        0 <= i < j < members.len() ==> (#[trigger] members[i]).0@ != (#[trigger] members[j]).0@
}

/// With distinct keys, each member is what the object holds under its key.
pub proof fn value_members_index(members: Seq<(String, serde_json::Value)>, i: int)
    requires
        distinct_keys(members),
        0 <= i < members.len(),
    ensures
        value_members(members).dom().finite(),
        value_members(members).contains_key(members[i].0@),
        value_members(members)[members[i].0@] == value_tree(members[i].1),
    decreases members.len(),
{
    let rest = members.drop_last();
    if i < members.len() - 1 {
        value_members_index(rest, i);
        assert(members[i].0@ != members[members.len() - 1].0@);
    } else if rest.len() > 0 {
        value_members_index(rest, 0);
    }
}

/// How deep lists and objects may be nested in a text that
/// `serde_json::from_str` reads.
pub const NESTING_LIMIT: u8 = 127;

/// Whether lists and objects are nested no more than `levels` deep, and `p`
/// holds of the bits of every double. Objects are finite, and negative integers
/// negative.
pub open spec fn within(tree: Tree, levels: nat, p: spec_fn(u64) -> bool) -> bool
    decreases levels,
{
    match tree {
        Tree::Number(JsonNumber::Float(bits)) => p(bits),
        Tree::Number(JsonNumber::NegInt(n)) => n < 0,
        Tree::List(items) => levels > 0 && forall|i: int|
            0 <= i < items.len() ==> within(#[trigger] items[i], (levels - 1) as nat, p),
        Tree::Object(members) => levels > 0 && members.dom().finite() && forall|key: Seq<char>|
            members.contains_key(key) ==> within(
                #[trigger] members[key],
                (levels - 1) as nat,
                p,
            ),
        _ => true,
    }
}

/// What `serde_json::from_str` reads where `serde_json::to_string_pretty` has
/// printed the double with the given bits: the bits of a double, or none where
/// it finds the number out of range.
pub uninterp spec fn reread_double(bits: u64) -> Option<u64>;

/// Which doubles are finite.
pub open spec fn finite_doubles() -> spec_fn(u64) -> bool {
    |bits: u64| exponent(bits) < 2047
}

/// Which doubles are less than half of the largest.
pub open spec fn modest_doubles() -> spec_fn(u64) -> bool {
    |bits: u64| exponent(bits) < 2046
}

/// Which doubles are read at all where they were printed.
pub open spec fn found_doubles() -> spec_fn(u64) -> bool {
    |bits: u64| reread_double(bits) is Some
}

/// Which doubles are read as they were printed.
pub open spec fn kept_doubles() -> spec_fn(u64) -> bool {
    |bits: u64| reread_double(bits) == Some(bits)
}

/// A document that a text can hold: its doubles are finite.
pub open spec fn printable(tree: Tree) -> bool {
    within(tree, NESTING_LIMIT as nat, finite_doubles())
}

/// A document whose doubles are less than half of the largest.
pub open spec fn modest(tree: Tree) -> bool {
    within(tree, NESTING_LIMIT as nat, modest_doubles())
}

/// A document whose text is read.
pub open spec fn readable(tree: Tree) -> bool {
    within(tree, NESTING_LIMIT as nat, found_doubles())
}

/// A document whose text is read as that document: it has no double that is read
/// as another.
pub open spec fn exact(tree: Tree) -> bool {
    within(tree, NESTING_LIMIT as nat, kept_doubles())
}

/// Whether two documents are the same but for their doubles, which `r` relates.
pub open spec fn alike(a: Tree, b: Tree, levels: nat, r: spec_fn(u64, u64) -> bool) -> bool
    decreases levels,
{
    match (a, b) {
        (Tree::Number(JsonNumber::Float(x)), Tree::Number(JsonNumber::Float(y))) => r(x, y),
        (Tree::List(x), Tree::List(y)) => levels > 0 && x.len() == y.len() && forall|i: int|
            0 <= i < x.len() ==> alike(#[trigger] x[i], y[i], (levels - 1) as nat, r),
        (Tree::Object(x), Tree::Object(y)) => levels > 0 && x.dom() == y.dom() && forall|
            key: Seq<char>,
        |
            x.contains_key(key) ==> alike(#[trigger] x[key], y[key], (levels - 1) as nat, r),
        _ => a == b,
    }
}

/// Any double may stand for another.
pub open spec fn any_double() -> spec_fn(u64, u64) -> bool {
    |x: u64, y: u64| true
}

/// A double stands for the one that is read where it was printed.
pub open spec fn reread() -> spec_fn(u64, u64) -> bool {
    |x: u64, y: u64| reread_double(x) == Some(y)
}

/// A double stands for the one that is read where the one was printed that is
/// read where it was printed.
pub open spec fn reread_twice() -> spec_fn(u64, u64) -> bool {
    |x: u64, z: u64| reread_double(x) matches Some(y) && reread_double(y) == Some(z)
}

/// Which doubles are back after they were printed and read twice.
pub open spec fn returning_doubles() -> spec_fn(u64) -> bool {
    |x: u64| reread_double(x) matches Some(y) && reread_double(y) == Some(x)
}

/// A document that is back after it was printed and read twice: none of its
/// doubles is then another.
pub open spec fn returning(tree: Tree) -> bool {
    within(tree, NESTING_LIMIT as nat, returning_doubles())
}

/// Whether two documents that a text can hold are the same but for their
/// doubles.
pub open spec fn same_but_doubles(a: Tree, b: Tree) -> bool {
    alike(a, b, NESTING_LIMIT as nat, any_double())
}

/// Whether the second document is the first with every double as it is read
/// where it was printed.
pub open spec fn reread_as(a: Tree, b: Tree) -> bool {
    alike(a, b, NESTING_LIMIT as nat, reread())
}

/// What holds of fewer doubles holds of all that has only those.
pub proof fn within_more(
    tree: Tree,
    levels: nat,
    p: spec_fn(u64) -> bool,
    q: spec_fn(u64) -> bool,
)
    requires
        within(tree, levels, p),
        forall|bits: u64| #[trigger] p(bits) ==> q(bits),
    ensures
        within(tree, levels, q),
    decreases levels,
{
    match tree {
        Tree::List(items) => {
            assert forall|i: int| 0 <= i < items.len() implies within(
                #[trigger] items[i],
                (levels - 1) as nat,
                q,
            ) by {
                within_more(items[i], (levels - 1) as nat, p, q);
            }
        },
        Tree::Object(members) => {
            assert forall|key: Seq<char>| members.contains_key(key) implies within(
                #[trigger] members[key],
                (levels - 1) as nat,
                q,
            ) by {
                within_more(members[key], (levels - 1) as nat, p, q);
            }
        },
        _ => {},
    }
}

/// Where `r` relates two documents to a third through a second, `q` relates the
/// first to the third, if it does so of doubles.
pub proof fn alike_onwards(
    a: Tree,
    b: Tree,
    c: Tree,
    levels: nat,
    r: spec_fn(u64, u64) -> bool,
    q: spec_fn(u64, u64) -> bool,
)
    requires
        alike(a, b, levels, r),
        alike(b, c, levels, r),
        forall|x: u64, y: u64, z: u64| #[trigger] r(x, y) && #[trigger] r(y, z) ==> q(x, z),
    ensures
        alike(a, c, levels, q),
    decreases levels,
{
    match (a, b, c) {
        (Tree::List(x), Tree::List(y), Tree::List(z)) => {
            assert forall|i: int| 0 <= i < x.len() implies alike(
                #[trigger] x[i],
                z[i],
                (levels - 1) as nat,
                q,
            ) by {
                assert(alike(y[i], z[i], (levels - 1) as nat, r));
                alike_onwards(x[i], y[i], z[i], (levels - 1) as nat, r, q);
            }
        },
        (Tree::Object(x), Tree::Object(y), Tree::Object(z)) => {
            assert forall|key: Seq<char>| x.contains_key(key) implies alike(
                #[trigger] x[key],
                z[key],
                (levels - 1) as nat,
                q,
            ) by {
                assert(y.contains_key(key));
                assert(alike(y[key], z[key], (levels - 1) as nat, r));
                alike_onwards(x[key], y[key], z[key], (levels - 1) as nat, r, q);
            }
        },
        _ => {},
    }
}

/// Documents whose doubles are related are the same but for their doubles.
pub proof fn alike_at_all(a: Tree, b: Tree, levels: nat, r: spec_fn(u64, u64) -> bool)
    requires
        alike(a, b, levels, r),
    ensures
        alike(a, b, levels, any_double()),
    decreases levels,
{
    match (a, b) {
        (Tree::List(x), Tree::List(y)) => {
            assert forall|i: int| 0 <= i < x.len() implies alike(
                #[trigger] x[i],
                y[i],
                (levels - 1) as nat,
                any_double(),
            ) by {
                alike_at_all(x[i], y[i], (levels - 1) as nat, r);
            }
        },
        (Tree::Object(x), Tree::Object(y)) => {
            assert forall|key: Seq<char>| x.contains_key(key) implies alike(
                #[trigger] x[key],
                y[key],
                (levels - 1) as nat,
                any_double(),
            ) by {
                alike_at_all(x[key], y[key], (levels - 1) as nat, r);
            }
        },
        _ => {},
    }
}

/// Where `r` relates a double that `p` holds of to itself alone, documents of
/// such doubles are equal.
pub proof fn kept_is_equal(
    a: Tree,
    b: Tree,
    levels: nat,
    p: spec_fn(u64) -> bool,
    r: spec_fn(u64, u64) -> bool,
)
    requires
        within(a, levels, p),
        alike(a, b, levels, r),
        forall|x: u64, y: u64| p(x) && #[trigger] r(x, y) ==> x == y,
    ensures
        a == b,
    decreases levels,
{
    match (a, b) {
        (Tree::List(x), Tree::List(y)) => {
            assert forall|i: int| 0 <= i < x.len() implies x[i] == y[i] by {
                kept_is_equal(x[i], y[i], (levels - 1) as nat, p, r);
            }
            assert(x =~= y);
        },
        (Tree::Object(x), Tree::Object(y)) => {
            assert forall|key: Seq<char>| x.contains_key(key) implies x[key] == y[key] by {
                kept_is_equal(x[key], y[key], (levels - 1) as nat, p, r);
            }
            assert(x =~= y);
        },
        _ => {},
    }
}

/// Where `r` relates a double to itself only if `p` holds of it, a document that
/// is related to itself has only such doubles.
pub proof fn equal_is_kept(
    a: Tree,
    levels: nat,
    any: spec_fn(u64) -> bool,
    p: spec_fn(u64) -> bool,
    r: spec_fn(u64, u64) -> bool,
)
    requires
        within(a, levels, any),
        alike(a, a, levels, r),
        forall|x: u64| #[trigger] r(x, x) ==> p(x),
    ensures
        within(a, levels, p),
    decreases levels,
{
    match a {
        Tree::List(x) => {
            assert forall|i: int| 0 <= i < x.len() implies within(
                #[trigger] x[i],
                (levels - 1) as nat,
                p,
            ) by {
                assert(alike(x[i], x[i], (levels - 1) as nat, r));
                equal_is_kept(x[i], (levels - 1) as nat, any, p, r);
            }
        },
        Tree::Object(x) => {
            assert forall|key: Seq<char>| x.contains_key(key) implies within(
                #[trigger] x[key],
                (levels - 1) as nat,
                p,
            ) by {
                assert(alike(x[key], x[key], (levels - 1) as nat, r));
                equal_is_kept(x[key], (levels - 1) as nat, any, p, r);
            }
        },
        _ => {},
    }
}

/// `serde_json::from_str`, with an error turned into its message. The result
/// is a function of the text alone, and what is read is nested no deeper than
/// the parser goes. What `serde_json::to_string_pretty` prints for a document,
/// with a line end behind it, is read as that document with each double as it
/// is read where it was printed: the parser may miss the last digits of one.
/// The reading fails exactly where a double is found out of range, which can
/// happen to the largest only.
#[verifier::external_body]
pub(crate) fn value_of_text(text: &str) -> (parsed: Result<serde_json::Value, String>)
    ensures
        match parsed {
            Ok(value) => parsed_json(text@) == Ok::<Tree, Seq<char>>(value_tree(value)),
            Err(message) => parsed_json(text@) == Err::<Tree, Seq<char>>(message@),
        },
        parsed is Ok ==> printable(value_tree(parsed->Ok_0)),
        forall|bits: u64|
            exponent(bits) < 2047 && text@ == #[trigger] pretty_json(
                Tree::Number(JsonNumber::Float(bits)),
            ) + "\n"@ ==> (parsed is Ok <==> reread_double(bits) is Some) && (parsed is Ok
                ==> value_tree(parsed->Ok_0) == Tree::Number(
                JsonNumber::Float(reread_double(bits)->0),
            )),
        forall|tree: Tree|
            printable(tree) && text@ == #[trigger] pretty_json(tree) + "\n"@ ==> (parsed is Ok
                <==> readable(tree)) && (modest(tree) ==> parsed is Ok) && (parsed is Ok
                ==> reread_as(tree, value_tree(parsed->Ok_0))),
{
    serde_json::from_str::<serde_json::Value>(text).map_err(|err| err.to_string())
}

/// `serde_json::from_slice`, with an error dropped. The result is a function
/// of the bytes alone.
#[verifier::external_body]
pub(crate) fn value_of_bytes(bytes: &[u8]) -> (parsed: Option<serde_json::Value>)
    ensures
        match parsed {
            Some(value) => parsed_json_bytes(bytes@) == Some(value_tree(value)),
            None => parsed_json_bytes(bytes@) is None,
        },
{
    serde_json::from_slice::<serde_json::Value>(bytes).ok()
}

/// The variant of a `serde_json::Value` and what it holds one level down: the
/// variants are told apart one by one, and a number by the accessors of
/// `serde_json::Number`. A list keeps its order; an object gives its members,
/// no two of which have one key.
#[verifier::external_body]
pub(crate) fn open_value(value: &serde_json::Value) -> (node: Node)
    ensures
        node.tree() == value_tree(*value),
        node.distinct(),
{
    match value {
        Value::Null => Node::Null,
        Value::Bool(b) => Node::Bool(*b),
        Value::Number(n) => Node::Number(match (n.as_u64(), n.as_i64(), n.as_f64()) {
            (Some(u), _, _) => JsonNumber::PosInt(u),
            (None, Some(i), _) => JsonNumber::NegInt(i),
            (None, None, x) => JsonNumber::Float(x.map_or(0, |x| x.to_bits())),
        }),
        Value::String(s) => Node::Text(s.clone()),
        Value::Array(items) => Node::List(items.clone()),
        Value::Object(m) => Node::Object(m.clone().into_iter().collect()),
    }
}

/// A `serde_json::Value` that is the given text.
#[verifier::external_body]
pub(crate) fn text_value(text: String) -> (value: serde_json::Value)
    ensures
        value_tree(value) == Tree::Text(text@),
{
    serde_json::Value::String(text)
}

/// A `serde_json::Value` that is an object with the given members, the later
/// of two with one key counting.
#[verifier::external_body]
pub(crate) fn object_value(members: Vec<(String, serde_json::Value)>) -> (value: serde_json::Value)
    ensures
        value_tree(value) == Tree::Object(value_members(members@)),
{
    serde_json::Value::Object(members.into_iter().collect())
}

/// `serde_json::to_string_pretty` on a document. It has string keys throughout
/// and is written to memory, so printing it does not fail; the text is a
/// function of what the document says. An object's text holds its braces.
#[verifier::external_body]
pub(crate) fn pretty_text(value: &serde_json::Value) -> (text: Option<String>)
    ensures
        text is Some,
        text->0@ == pretty_json(value_tree(*value)),
        value_tree(*value) is Object ==> !blank(text->0@),
{
    serde_json::to_string_pretty(value).ok()
}

/// The whole of a `serde_json` document as a plain value.
pub(crate) fn json_of_value(value: &serde_json::Value) -> (json: Json)
    ensures
        json.tree() == value_tree(*value),
    decreases value_tree(*value),
{
    let node = open_value(value);
    match node {
        Node::Null => Json::Null,
        Node::Bool(b) => Json::Bool(b),
        Node::Number(n) => Json::Number(n),
        Node::Text(s) => Json::Text(s),
        Node::List(values) => {
            let mut items: Vec<Json> = Vec::new();
            let ghost trees = values@.map_values(|v: serde_json::Value| value_tree(v));
            let mut i: usize = 0;
            while i < values.len()
                invariant
                    i <= values.len(),
                    trees == values@.map_values(|v: serde_json::Value| value_tree(v)),
                    value_tree(*value) == Tree::List(trees),
                    item_trees(items@) == trees.take(i as int),
                decreases values.len() - i,
            {
                proof {
                    assert(trees[i as int] == value_tree(values@[i as int]));
                    let whole = value_tree(*value);
                    assert(decreases_to!(whole => whole->List_0));
                    assert(decreases_to!(trees => trees[i as int]));
                }
                let item = json_of_value(&values[i]);
                proof {
                    assert(items@.push(item).drop_last() == items@);
                    assert(trees.take(i as int + 1) == trees.take(i as int).push(trees[i as int]));
                }
                items.push(item);
                i = i + 1;
            }
            proof {
                assert(trees.take(i as int) == trees);
            }
            Json::List(items)
        },
        Node::Object(values) => {
            let mut members: Vec<(String, Json)> = Vec::new();
            let ghost tree = value_members(values@);
            let mut i: usize = 0;
            proof {
                assert(values@.take(0) == Seq::<(String, serde_json::Value)>::empty());
            }
            while i < values.len()
                invariant
                    i <= values.len(),
                    tree == value_members(values@),
                    distinct_keys(values@),
                    value_tree(*value) == Tree::Object(tree),
                    member_trees(members@) == value_members(values@.take(i as int)),
                decreases values.len() - i,
            {
                proof {
                    assert(values@.take(i as int + 1).drop_last() == values@.take(i as int));
                    value_members_index(values@, i as int);
                    assert(decreases_to!(tree => tree[values@[i as int].0@]));
                    let whole = value_tree(*value);
                    assert(decreases_to!(whole => whole->Object_0));
                }
                let key = values[i].0.clone();
                let member = json_of_value(&values[i].1);
                proof {
                    assert(members@.push((key, member)).drop_last() == members@);
                }
                members.push((key, member));
                i = i + 1;
            }
            proof {
                assert(values@.take(i as int) == values@);
            }
            Json::Object(members)
        },
    }
}

} // verus!
