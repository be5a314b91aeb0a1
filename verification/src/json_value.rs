//! The parts of a parsed JSON document that the crate reads.
//!
//! Parsing and the value tree belong to the `json` crate. Nothing here is
//! proved about them: each item states what that crate's source shows, and
//! the rest of the crate is proved on top of these statements.

use vstd::prelude::*;
use vstd::utf8::encode_utf8;
use json::JsonValue;
use crate::text::digit_runs_within;

verus! {

/// A parsed JSON value of the `json` crate, opaque to the verifier.
#[verifier::external_type_specification]
#[verifier::external_body]
pub struct ExJsonValue(json::JsonValue);

/// The error of `json::parse`, opaque to the verifier.
#[verifier::external_type_specification]
#[verifier::external_body]
pub struct ExJsonError(json::Error);

/// The most digits in a row that a text handed to the parser may hold. The
/// parser counts the digits of a fraction downwards in 16 bits, and the count
/// leaves that range at the next digit.
pub const PARSER_DIGIT_LIMIT: usize = 32768;

/// What `json::parse` makes of a text: the document, or nothing where the
/// parser refuses the text.
pub uninterp spec fn json_document(text: Seq<char>) -> Option<JsonValue>;

/// The key/value pairs of an object, in the order in which the `json` crate
/// walks them; nothing for a value that is no object.
pub uninterp spec fn json_object(value: JsonValue) -> Option<Seq<(Seq<char>, JsonValue)>>;

/// The members of an array in order; nothing for a value that is no array.
pub uninterp spec fn json_array(value: JsonValue) -> Option<Seq<JsonValue>>;

/// The characters of a string value; nothing for a value that is no string.
pub uninterp spec fn json_text(value: JsonValue) -> Option<Seq<char>>;

/// Sign (`true` for positive), decimal mantissa and decimal exponent of a
/// number value; nothing for a value that is no number.
pub uninterp spec fn json_number(value: JsonValue) -> Option<(bool, u64, i16)>;

/// The key/value pairs of `pairs` as the names above speak of them.
pub open spec fn pairs_view(pairs: Seq<(&str, &JsonValue)>) -> Seq<(Seq<char>, JsonValue)> {
    pairs.map_values(|p: (&str, &JsonValue)| (p.0@, *p.1))
}

/// The values behind the references of `items`.
pub open spec fn items_view(items: Seq<&JsonValue>) -> Seq<JsonValue> {
    items.map_values(|v: &JsonValue| *v)
}

/// `json::parse`: claims only that the outcome is a function of the text,
/// `Ok` with the document where there is one and `Err` where there is none.
/// Texts with more than `PARSER_DIGIT_LIMIT` digits in a row are left out:
/// on a fraction that long the parser's exponent overflows.
pub assume_specification[ json::parse ](source: &str) -> (out: Result<JsonValue, json::Error>)
    requires
        digit_runs_within(encode_utf8(source@), PARSER_DIGIT_LIMIT as int),
    ensures
        match out {
            Ok(doc) => json_document(source@) == Some(doc),
            Err(_) => json_document(source@) is None,
        },
;

/// `JsonValue::as_str`: the text of a string value, `None` for any other.
pub assume_specification<'a>[ json::JsonValue::as_str ](value: &'a JsonValue) -> (out: Option<&'a str>)
    ensures
        match out {
            Some(s) => json_text(*value) == Some(s@),
            None => json_text(*value) is None,
        },
;

/// `Object::iter` on the `Object` variant: the pairs in the order of the
/// object's store, which is the order of first insertion. `None` for any
/// other variant.
#[verifier::external_body]
pub(crate) fn object_entries<'a>(value: &'a JsonValue) -> (out: Option<Vec<(&'a str, &'a JsonValue)>>)
    ensures
        match out {
            Some(pairs) => json_object(*value) == Some(pairs_view(pairs@)),
            None => json_object(*value) is None,
        },
{
    match value {
        JsonValue::Object(object) => Some(object.iter().collect()),
        _ => None,
    }
}

/// The `Array` variant of `JsonValue`: the members of its vector in order.
/// `None` for any other variant.
#[verifier::external_body]
pub(crate) fn array_members<'a>(value: &'a JsonValue) -> (out: Option<Vec<&'a JsonValue>>)
    ensures
        match out {
            Some(items) => json_array(*value) == Some(items_view(items@)),
            None => json_array(*value) is None,
        },
{
    match value {
        JsonValue::Array(items) => Some(items.iter().collect()),
        _ => None,
    }
}

/// `Number::as_parts` on the `Number` variant: whether the number is
/// positive, its mantissa and its decimal exponent. `None` for any other
/// variant.
#[verifier::external_body]
pub(crate) fn number_parts(value: &JsonValue) -> (out: Option<(bool, u64, i16)>)
    ensures
        out == json_number(*value),
{
    match value {
        JsonValue::Number(number) => Some(number.as_parts()),
        _ => None,
    }
}

} // verus!
