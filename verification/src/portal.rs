//! The desktop's light or dark preference, as the desktop portal reports it.

use vstd::prelude::*;
use zbus::zvariant::Value;

use crate::text::same_text;

verus! {

/// The namespace of the portal's setting.
pub const NAMESPACE: &'static str = "org.freedesktop.appearance";

/// The key of the portal's setting.
pub const KEY: &'static str = "color-scheme";

/// Whether a setting is that of the preference.
pub open spec fn about_scheme(namespace: Seq<char>, key: Seq<char>) -> bool {
    namespace == NAMESPACE@ && key == KEY@
}

/// Whether a change of a setting is one of the preference.
pub fn concerns_scheme(namespace: &str, key: &str) -> (concerns: bool)
    ensures
        concerns == (namespace@ == NAMESPACE@ && key@ == KEY@),
        concerns == about_scheme(namespace@, key@),
{
    same_text(namespace, NAMESPACE) && same_text(key, KEY)
}

/// The preference, given what the two ways of asking for it came to: the first
/// that gives one counts.
pub fn read_scheme(
    read_one: Option<&Value<'_>>,
    read: Option<&Value<'_>>,
) -> (scheme: Option<u32>)
    ensures
        scheme == first_preference(answer_in(read_one), answer_in(read)),
{
    if let Some(value) = read_one {
        if let Some(scheme) = scheme_from_value(value) {
            return Some(scheme);
        }
    }
    match read {
        Some(value) => scheme_from_value(value),
        None => None,
    }
}

/// The preference that a reply gives, if there was one.
pub open spec fn answer_in(value: Option<&Value<'_>>) -> Option<u32> {
    match value {
        Some(v) => preference_in(reply_of(*v), MAX_LAYERS as nat),
        None => None,
    }
}

/// The first of two answers that gives a preference.
pub open spec fn first_preference(first: Option<u32>, second: Option<u32>) -> Option<u32> {
    match first {
        Some(_) => first,
        None => second,
    }
}

/// Whether a reported preference means a dark desktop: one does, any other
/// value does not, and no value at all is taken for dark.
pub open spec fn means_dark(scheme: Option<u32>) -> bool {
    match scheme {
        Some(n) => n == 1,
        None => true,
    }
}

/// Turns a reported preference into "is the user's UI dark?".
pub fn dark_ui_from_scheme(scheme: Option<u32>) -> (dark: bool)
    ensures
        dark == means_dark(scheme),
{
    match scheme {
        Some(n) => n == 1,
        None => true,
    }
}

/// A value of `zvariant`, as it comes out of a portal reply.
#[verifier::external_type_specification]
#[verifier::external_body]
pub struct ExZValue<'a>(zbus::zvariant::Value<'a>);

/// What a value is, as far as a preference goes: a variant that holds another
/// value, a number, or neither.
pub ghost enum Reply {
    Nested(Box<Reply>),
    Number(int),
    Other,
}

/// What a `zvariant::Value` holds.
pub uninterp spec fn reply_of(value: Value<'_>) -> Reply;

/// One layer of a value.
pub enum Layer<'a, 'b> {
    Nested(&'a Value<'b>),
    Unsigned(u64),
    Signed(i64),
    Other,
}

/// What one layer says.
pub open spec fn layer_reply(layer: Layer<'_, '_>) -> Reply {
    match layer {
        Layer::Nested(inner) => Reply::Nested(Box::new(reply_of(*inner))),
        Layer::Unsigned(n) => Reply::Number(n as int),
        Layer::Signed(n) => Reply::Number(n as int),
        Layer::Other => Reply::Other,
    }
}

/// The variant of a `zvariant::Value`, told apart one by one: an integer of any
/// width is a number, and a value inside a value is a layer.
#[verifier::external_body]
fn outer_layer<'a, 'b>(value: &'a Value<'b>) -> (layer: Layer<'a, 'b>)
    ensures
        layer_reply(layer) == reply_of(*value),
{
    match value {
        Value::Value(inner) => Layer::Nested(inner),
        Value::U8(n) => Layer::Unsigned(u64::from(*n)),
        Value::U16(n) => Layer::Unsigned(u64::from(*n)),
        Value::U32(n) => Layer::Unsigned(u64::from(*n)),
        Value::U64(n) => Layer::Unsigned(*n),
        Value::I16(n) => Layer::Signed(i64::from(*n)),
        Value::I32(n) => Layer::Signed(i64::from(*n)),
        Value::I64(n) => Layer::Signed(*n),
        _ => Layer::Other,
    }
}

/// The preference inside a reply, looking through as many layers as `looks`
/// allows. A number that no preference can be is none.
pub open spec fn preference_in(reply: Reply, looks: nat) -> Option<u32>
    decreases looks,
{
    if looks == 0 {
        None
    } else {
        match reply {
            Reply::Nested(inner) => preference_in(*inner, (looks - 1) as nat),
            Reply::Number(n) => if 0 <= n <= u32::MAX {
                Some(n as u32)
            } else {
                None
            },
            Reply::Other => None,
        }
    }
}

/// How many layers are looked at, so that a reply that nests forever does not
/// hang the listener.
pub const MAX_LAYERS: usize = 8;

/// Extracts the preference out of a portal reply, unwrapping the nested values
/// that it arrived in. Integers of any width are accepted.
pub fn scheme_from_value(value: &Value<'_>) -> (scheme: Option<u32>)
    ensures
        scheme == preference_in(reply_of(*value), MAX_LAYERS as nat),
{
    let mut current = value;
    let mut looks: usize = MAX_LAYERS;
    while looks > 0
        invariant
            looks <= MAX_LAYERS,
            preference_in(reply_of(*current), looks as nat) == preference_in(
                reply_of(*value),
                MAX_LAYERS as nat,
            ),
        decreases looks,
    {
        match outer_layer(current) {
            Layer::Nested(inner) => {
                current = inner;
            },
            Layer::Unsigned(n) => {
                return number_scheme(n as i128);
            },
            Layer::Signed(n) => {
                return number_scheme(n as i128);
            },
            Layer::Other => {
                return None;
            },
        }
        looks = looks - 1;
    }
    None
}

/// The preference that a number is.
fn number_scheme(n: i128) -> (scheme: Option<u32>)
    ensures
        scheme == (if 0 <= n <= u32::MAX {
            Some(n as u32)
        } else {
            None
        }),
{
    if n >= 0 && n <= u32::MAX as i128 {
        Some(n as u32)
    } else {
        None
    }
}

} // verus!
