//! JSON documents: their mathematical model, and the calls into `serde_json`
//! that read, build and print them.
//!
//! Verus does not look inside a `serde_json::Value`. What such a value holds is
//! named by [`value_model`], and each call below is believed to do to that
//! model what `serde_json` documents of it.

use vstd::prelude::*;

verus! {

/// A JSON document as a mathematical value. A number is known by its value as
/// a signed 64-bit integer, where it has one.
pub enum JsonView {
    Null,
    Bool(bool),
    Number(Option<i64>),
    Text(Seq<char>),
    Array(Seq<JsonView>),
    Object(Map<Seq<char>, JsonView>),
}

impl JsonView {
    /// Whether every number in the document is a signed 64-bit integer, so
    /// that the model says all there is to say of the document.
    pub open spec fn exact(self) -> bool
        decreases self,
    {
        match self {
            JsonView::Number(n) => n is Some,
            JsonView::Array(items) => forall|i: int|
                0 <= i < items.len() ==> (#[trigger] items[i]).exact(),
            JsonView::Object(members) => members.dom().finite() && forall|key: Seq<char>|
                members.contains_key(key) ==> (#[trigger] members[key]).exact(),
            _ => true,
        }
    }

    /// The member `key` of an object; `None` where there is none or the
    /// document is no object.
    pub open spec fn member(self, key: Seq<char>) -> Option<JsonView> {
        match self {
            JsonView::Object(members) => if members.contains_key(key) {
                Some(members[key])
            } else {
                None
            },
            _ => None,
        }
    }

    /// The members of an object; none for any other document.
    pub open spec fn members(self) -> Map<Seq<char>, JsonView> {
        match self {
            JsonView::Object(members) => members,
            _ => Map::empty(),
        }
    }

    /// Whether the document is an array of signed 64-bit integers.
    pub open spec fn is_integers(self) -> bool {
        match self {
            JsonView::Array(items) => forall|i: int|
                0 <= i < items.len() ==> (#[trigger] items[i]) matches JsonView::Number(Some(_)),
            _ => false,
        }
    }

    /// The array that holds the integers of `items`, in their order.
    pub open spec fn integers(items: Seq<i64>) -> JsonView {
        JsonView::Array(Seq::new(items.len(), |i: int| JsonView::Number(Some(items[i]))))
    }
}

/// `serde_json::Value`, carried through as a value whose inside is not seen.
#[verifier::external_type_specification]
#[verifier::external_body]
pub struct ExValue(serde_json::Value);

/// `serde_json::Error`, of which nothing is read but that it is an error.
#[verifier::external_type_specification]
#[verifier::external_body]
pub struct ExError(serde_json::Error);

/// The document that a `serde_json::Value` holds.
pub uninterp spec fn value_model(value: serde_json::Value) -> JsonView;

/// The document that `serde_json` reads from a text; `None` where it rejects
/// the text.
pub uninterp spec fn parsed(text: Seq<char>) -> Option<JsonView>;

/// The compact text that `serde_json` prints for a document.
pub uninterp spec fn rendered(document: JsonView) -> Seq<char>;

/// `serde_json::from_str`, read as a `Value`: whether a text is accepted, and
/// the document it then gives, depend on the text alone.
#[verifier::external_body]
pub(crate) fn parse_value(text: &str) -> (outcome: Result<serde_json::Value, serde_json::Error>)
    ensures
        match outcome {
            Ok(value) => parsed(text@) == Some(value_model(value)),
            Err(_) => parsed(text@) is None,
        },
{
    serde_json::from_str::<serde_json::Value>(text)
}

/// `serde_json::Value::get` with a string index: the member of that name
/// where the value is an object that has one, else `None`.
#[verifier::external_body]
pub(crate) fn member_of<'a>(value: &'a serde_json::Value, key: &str) -> (found: Option<
    &'a serde_json::Value,
>)
    ensures
        match found {
            Some(member) => value_model(*value).member(key@) == Some(value_model(*member)),
            None => value_model(*value).member(key@) is None,
        },
{
    value.get(key)
}

/// `serde_json::Value::as_str`: the text of a string value, `None` for any
/// other value.
#[verifier::external_body]
pub(crate) fn text_of<'a>(value: &'a serde_json::Value) -> (text: Option<&'a str>)
    ensures
        match text {
            Some(text) => value_model(*value) == JsonView::Text(text@),
            None => !(value_model(*value) is Text),
        },
{
    value.as_str()
}

/// `serde_json::from_value`, read as a `Vec<i64>`: it succeeds on an array
/// whose elements are all numbers with a value as `i64`, and gives those
/// values in their order; it fails on every other value.
#[verifier::external_body]
pub(crate) fn integers_of(value: &serde_json::Value) -> (outcome: Result<
    Vec<i64>,
    serde_json::Error,
>)
    ensures
        match outcome {
            Ok(items) => value_model(*value) == JsonView::integers(items@),
            Err(_) => !value_model(*value).is_integers(),
        },
{
    serde_json::from_value::<Vec<i64>>(value.clone())
}

/// `serde_json::Value::from` of a string slice: the string value of that
/// text.
#[verifier::external_body]
pub(crate) fn text_value(text: &str) -> (value: serde_json::Value)
    ensures
        value_model(value) == JsonView::Text(text@),
{
    serde_json::Value::from(text)
}

/// `serde_json::Value::from` of a slice of `i64`: the array of those numbers
/// in their order.
#[verifier::external_body]
pub(crate) fn integers_value(items: &[i64]) -> (value: serde_json::Value)
    ensures
        value_model(value) == JsonView::integers(items@),
{
    serde_json::Value::from(items)
}

/// `serde_json::Map::new` inside `serde_json::Value::Object`: the object
/// without members.
#[verifier::external_body]
pub(crate) fn empty_object() -> (value: serde_json::Value)
    ensures
        value_model(value) == JsonView::Object(Map::empty()),
{
    serde_json::Value::Object(serde_json::Map::new())
}

/// Assignment through `serde_json::Value`'s `IndexMut` with a string index:
/// on an object it sets the member of that name, replacing one that was
/// there, and leaves the other members as they were.
#[verifier::external_body]
pub(crate) fn set_member(object: &mut serde_json::Value, key: &str, member: serde_json::Value)
    requires
        value_model(*old(object)) is Object,
    ensures
        value_model(*final(object)) == JsonView::Object(
            value_model(*old(object)).members().insert(key@, value_model(member)),
        ),
{
    object[key] = member;
}

/// `serde_json::Value::to_string`: the compact text of the value, the members
/// of an object in the order of their names. Where every number in it is an
/// `i64` the text depends on the document alone.
#[verifier::external_body]
pub(crate) fn render_value(value: &serde_json::Value) -> (text: String)
    ensures
        value_model(*value).exact() ==> text@ == rendered(value_model(*value)),
{
    value.to_string()
}

} // verus!
