//! Reading JSON text with serde_json, one value at a time.
//!
//! `serde_json::from_str` into a `Value` depends only on the text, so a
//! value inside it is fixed by the text and the keys followed from the
//! root down to it, and what serde_json reports of that value (whether it
//! is an object, whether a key is present, whether it is a string) is a
//! function of that place. The names below stand for those functions; a
//! cursor carries the place of its value, and only the items of this
//! module make cursors.
use vstd::prelude::*;
use serde_json::Value;

verus! {

#[verifier::external_type_specification]
#[verifier::external_body]
pub struct ExJsonValue(Value);

/// Where a JSON value stands: the text parsed, and the keys followed from
/// the root down to the value.
pub struct JsonPlace {
    pub text: Seq<char>,
    pub path: Seq<Seq<char>>,
}

impl JsonPlace {
    /// The place of the member `key`.
    pub open spec fn field(self, key: Seq<char>) -> JsonPlace {
        JsonPlace { text: self.text, path: self.path.push(key) }
    }
}

/// The root of a text.
pub open spec fn json_root(text: Seq<char>) -> JsonPlace {
    JsonPlace { text, path: Seq::empty() }
}

/// What `serde_json::from_str::<Value>` gives for a text: `Ok` when it is
/// one JSON value, else the text of serde_json's error (its `Display`).
pub uninterp spec fn json_read(text: Seq<char>) -> Result<(), Seq<char>>;

/// `Value::is_object` of the value at a place.
pub uninterp spec fn json_is_object(p: JsonPlace) -> bool;

/// Whether `Value::get` finds the member at a place (whose last key is the
/// member's); it finds none in a value that is not an object.
pub uninterp spec fn json_has_field(p: JsonPlace) -> bool;

/// `Value::as_str` of the value at a place.
pub uninterp spec fn json_str(p: JsonPlace) -> Option<Seq<char>>;

/// A JSON value and its place.
pub struct JsonCursor {
    value: Value,
    place: Ghost<JsonPlace>,
}

impl View for JsonCursor {
    type V = JsonPlace;

    closed spec fn view(&self) -> JsonPlace {
        self.place@
    }
}

/// `serde_json::from_str::<Value>`: the root of the text, or the text of
/// serde_json's error.
#[verifier::external_body]
pub(crate) fn parse_json(text: &str) -> (r: Result<JsonCursor, String>)
    ensures
        r is Ok <==> json_read(text@) is Ok,
        r matches Ok(c) ==> c@ == json_root(text@),
        r matches Err(e) ==> (json_read(text@) matches Err(m) && m == e@),
{
    match serde_json::from_str::<Value>(text) {
        Ok(value) => Ok(JsonCursor { value, place: Ghost(json_root(text@)) }),
        Err(e) => Err(e.to_string()),
    }
}

/// `Value::is_object`.
#[verifier::external_body]
pub(crate) fn json_value_is_object(c: &JsonCursor) -> (r: bool)
    ensures
        r == json_is_object(c@),
{
    c.value.is_object()
}

/// `Value::get` with a key: the member, if the value is an object that has
/// it.
#[verifier::external_body]
pub(crate) fn json_get(c: &JsonCursor, key: &str) -> (r: Option<JsonCursor>)
    ensures
        r is Some <==> json_has_field(c@.field(key@)),
        r matches Some(d) ==> d@ == c@.field(key@),
{
    match c.value.get(key) {
        Some(v) => Some(JsonCursor { value: v.clone(), place: Ghost(c.place@.field(key@)) }),
        None => None,
    }
}

/// `Value::as_str`: the string, if the value is one.
#[verifier::external_body]
pub(crate) fn json_as_str(c: &JsonCursor) -> (r: Option<String>)
    ensures
        r is Some <==> json_str(c@) is Some,
        r matches Some(s) ==> json_str(c@) == Some(s@),
{
    match c.value.as_str() {
        Some(s) => Some(s.to_owned()),
        None => None,
    }
}

/// The value a cursor holds.
pub(crate) fn json_value(c: JsonCursor) -> Value {
    c.value
}

/// `Value::Object(Map::new())`: the empty object `{}`.
#[verifier::external_body]
pub(crate) fn empty_json_object() -> Value {
    Value::Object(serde_json::Map::new())
}

} // verus!
