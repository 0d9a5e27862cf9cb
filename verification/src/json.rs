//! Structured values: objects, arrays and scalars.

use serde_json::Number;
use vstd::prelude::*;

verus! {

/// serde_json's number: an integer or a finite float. Nothing of its inside is
/// read here; it is kept to be written out as text.
#[verifier::external_type_specification]
#[verifier::external_body]
pub struct ExNumber(serde_json::Number);

/// The text that serde_json writes for the number `n`.
pub uninterp spec fn number_text(n: Number) -> Seq<char>;

/// Not verified. `Number`'s `Display`, reached through `to_string`, writes the
/// number as serde_json writes it in a document. The text depends on the
/// number alone.
#[verifier::external_body]
pub(crate) fn number_to_text(n: &Number) -> (text: String)
    ensures
        text@ == number_text(*n),
{
    n.to_string()
}

/// A structured value: a scalar, or an array or object of structured values.
/// An object lists its members in order; where a name occurs twice, both
/// members are kept.
#[derive(Debug)]
pub enum JsonValue {
    /// The null scalar.
    Null,
    /// A boolean.
    Bool(bool),
    /// A number, as serde_json holds it.
    Number(Number),
    /// A string.
    String(String),
    /// An array: its items, in order.
    Array(Vec<JsonValue>),
    /// An object: its members, in order, each a name and the value under it.
    Object(Vec<(String, JsonValue)>),
}

/// What a structured value holds, with its texts as sequences of characters
/// and each number as the text written for it.
pub enum Json {
    /// The null scalar.
    Null,
    /// A boolean.
    Bool(bool),
    /// A number: the text written for it.
    Number(Seq<char>),
    /// A string: its characters.
    Text(Seq<char>),
    /// An array: its items, in order.
    Array(Seq<Json>),
    /// An object: its members, in order, each a name and what stands under it.
    Object(Seq<(Seq<char>, Json)>),
}

impl View for JsonValue {
    type V = Json;

    open spec fn view(&self) -> Json {
        model(*self)
    }
}

/// What the structured value `value` holds.
pub open spec fn model(value: JsonValue) -> Json
    decreases value,
{
    match value {
        JsonValue::Null => Json::Null,
        JsonValue::Bool(b) => Json::Bool(b),
        JsonValue::Number(n) => Json::Number(number_text(n)),
        JsonValue::String(s) => Json::Text(s@),
        JsonValue::Array(items) => Json::Array(
            Seq::new(
                items@.len(),
                |i: int|
                    if 0 <= i < items@.len() {
                        model(items@[i])
                    } else {
                        Json::Null
                    },
            ),
        ),
        JsonValue::Object(members) => Json::Object(
            Seq::new(
                members@.len(),
                |i: int|
                    if 0 <= i < members@.len() {
                        (members@[i].0@, model(members@[i].1))
                    } else {
                        (Seq::empty(), Json::Null)
                    },
            ),
        ),
    }
}

} // verus!
