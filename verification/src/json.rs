//! Reading JSON one level at a time.
//!
//! A document is seen as its outermost value; what stands inside an array or
//! an object is kept as JSON text, to be read in turn where it matters.
use serde_json::Value;
use vstd::prelude::*;
use vstd::string::*;
use vstd::utf8::encode_utf8;

use crate::text::{pairs, same_text, texts};

verus! {

/// The outermost value of a JSON document.
#[derive(Debug)]
pub enum JsonShape {
    /// `null`.
    Null,
    /// `true` or `false`.
    Bool(bool),
    /// A number, with its value where it is an integer of 64 bits.
    Number(Option<i128>),
    /// A string, unescaped.
    Text(String),
    /// An array: the JSON text of each element.
    Array(Vec<String>),
    /// An object: each member's name and the JSON text of its value.
    Object(Vec<(String, String)>),
}

/// The outermost value of a JSON document, as a mathematical value.
pub enum JsonView {
    Null,
    Bool(bool),
    Number(Option<i128>),
    Text(Seq<char>),
    Array(Seq<Seq<char>>),
    Object(Seq<(Seq<char>, Seq<char>)>),
}

impl View for JsonShape {
    type V = JsonView;

    open spec fn view(&self) -> JsonView {
        match self {
            JsonShape::Null => JsonView::Null,
            JsonShape::Bool(b) => JsonView::Bool(*b),
            JsonShape::Number(n) => JsonView::Number(*n),
            JsonShape::Text(s) => JsonView::Text(s@),
            JsonShape::Array(items) => JsonView::Array(texts(items@)),
            JsonShape::Object(fields) => JsonView::Object(pairs(fields@)),
        }
    }
}

/// What `serde_json` reads a document as: its outermost value, or the text of
/// the error.
pub uninterp spec fn json_document(bytes: Seq<u8>) -> Result<JsonView, Seq<char>>;

/// A parse result as a mathematical value.
pub open spec fn json_result(r: Result<JsonShape, String>) -> Result<JsonView, Seq<char>> {
    match r {
        Ok(shape) => Ok(shape@),
        Err(error) => Err(error@),
    }
}

/// `serde_json::from_slice` into a `serde_json::Value`. What it reads, or the
/// text of its error, depends on the bytes alone and goes by the name
/// [`json_document`]; the values inside an array or an object come as their
/// compact JSON text, as `Value` displays it. The crate's `float_roundtrip`
/// feature is on, so a fraction that is displayed and read again is the same
/// fraction; the contract does not say so.
#[verifier::external_body]
pub(crate) fn parse_json(bytes: &[u8]) -> (r: Result<JsonShape, String>)
    ensures
        json_result(r) == json_document(bytes@),
{
    match serde_json::from_slice::<Value>(bytes) {
        Err(error) => Err(error.to_string()),
        Ok(Value::Null) => Ok(JsonShape::Null),
        Ok(Value::Bool(b)) => Ok(JsonShape::Bool(b)),
        Ok(Value::Number(n)) => Ok(JsonShape::Number(n.as_i128())),
        Ok(Value::String(s)) => Ok(JsonShape::Text(s)),
        Ok(Value::Array(items)) => Ok(
            JsonShape::Array(items.iter().map(|item| item.to_string()).collect()),
        ),
        Ok(Value::Object(fields)) => Ok(
            JsonShape::Object(fields.into_iter().map(|(k, v)| (k, v.to_string())).collect()),
        ),
    }
}

/// What a piece of JSON text is read as.
pub open spec fn json_of(text: Seq<char>) -> Option<JsonView> {
    match json_document(encode_utf8(text)) {
        Ok(view) => Some(view),
        Err(_) => None,
    }
}

/// The JSON text of the first member called `key`.
pub open spec fn field(fields: Seq<(Seq<char>, Seq<char>)>, key: Seq<char>) -> Option<Seq<char>>
    decreases fields.len(),
{
    if fields.len() == 0 {
        None
    } else if fields[0].0 == key {
        Some(fields[0].1)
    } else {
        field(fields.skip(1), key)
    }
}

/// The JSON text of the member called `key`, where the value is an object that
/// has one.
pub open spec fn member(value: JsonView, key: Seq<char>) -> Option<Seq<char>> {
    match value {
        JsonView::Object(fields) => field(fields, key),
        _ => None,
    }
}

/// The member called `key`, where it is a string.
pub open spec fn text_member(value: JsonView, key: Seq<char>) -> Option<Seq<char>> {
    match member(value, key) {
        Some(text) => match json_of(text) {
            Some(JsonView::Text(s)) => Some(s),
            _ => None,
        },
        None => None,
    }
}

/// The member called `key`, where it is an integer of 64 bits.
pub open spec fn integer_member(value: JsonView, key: Seq<char>) -> Option<i128> {
    match member(value, key) {
        Some(text) => match json_of(text) {
            Some(JsonView::Number(n)) => n,
            _ => None,
        },
        None => None,
    }
}

/// The member called `key`, where it is `true`, `false` or an integer, which
/// counts as `true` unless it is zero.
pub open spec fn bool_member(value: JsonView, key: Seq<char>) -> Option<bool> {
    match member(value, key) {
        Some(text) => match json_of(text) {
            Some(JsonView::Bool(b)) => Some(b),
            Some(JsonView::Number(Some(n))) => Some(n != 0),
            _ => None,
        },
        None => None,
    }
}

/// Read a piece of JSON text.
pub(crate) fn parse_text(text: &str) -> (r: Option<JsonShape>)
    ensures
        match r {
            Some(shape) => json_of(text@) == Some(shape@),
            None => json_of(text@) is None,
        },
{
    match parse_json(text.as_bytes()) {
        Ok(shape) => Some(shape),
        Err(_) => None,
    }
}

/// A value read from the JSON text of an answer's data; of text that is not
/// JSON, `null`.
pub open spec fn data_value(data: Seq<char>) -> JsonView {
    match json_of(data) {
        Some(value) => value,
        None => JsonView::Null,
    }
}

/// Read the JSON text of an answer's data.
pub fn read_data(data: &str) -> (r: JsonShape)
    ensures
        r@ == data_value(data@),
{
    match parse_text(data) {
        Some(value) => value,
        None => JsonShape::Null,
    }
}

/// The JSON text of the member called `key`.
pub fn find_member(value: &JsonShape, key: &str) -> (r: Option<String>)
    ensures
        match r {
            Some(text) => member(value@, key@) == Some(text@),
            None => member(value@, key@) is None,
        },
{
    match value {
        JsonShape::Object(fields) => {
            let ghost all = pairs(fields@);
            let mut i: usize = 0;
            proof {
                assert(all.skip(0) =~= all);
            }
            while i < fields.len()
                invariant
                    i <= fields@.len(),
                    all == pairs(fields@),
                    value@ == JsonView::Object(all),
                    field(all, key@) == field(all.skip(i as int), key@),
                decreases fields@.len() - i,
            {
                proof {
                    assert(all.skip(i as int)[0] == (fields@[i as int].0@, fields@[i as int].1@));
                    assert(all.skip(i as int).skip(1) =~= all.skip(i as int + 1));
                }
                if same_text(fields[i].0.as_str(), key) {
                    return Some(fields[i].1.clone());
                }
                i += 1;
            }
            None
        },
        _ => None,
    }
}

/// The member called `key`, where it is a string.
pub fn find_text(value: &JsonShape, key: &str) -> (r: Option<String>)
    ensures
        match r {
            Some(text) => text_member(value@, key@) == Some(text@),
            None => text_member(value@, key@) is None,
        },
{
    match find_member(value, key) {
        Some(text) => match parse_text(text.as_str()) {
            Some(JsonShape::Text(s)) => Some(s),
            _ => None,
        },
        None => None,
    }
}

/// The member called `key`, where it is an integer of 64 bits.
pub fn find_integer(value: &JsonShape, key: &str) -> (r: Option<i128>)
    ensures
        r == integer_member(value@, key@),
{
    match find_member(value, key) {
        Some(text) => match parse_text(text.as_str()) {
            Some(JsonShape::Number(n)) => n,
            _ => None,
        },
        None => None,
    }
}

/// The member called `key`, where it is `true`, `false` or an integer, which
/// counts as `true` unless it is zero.
pub fn find_bool(value: &JsonShape, key: &str) -> (r: Option<bool>)
    ensures
        r == bool_member(value@, key@),
{
    match find_member(value, key) {
        Some(text) => match parse_text(text.as_str()) {
            Some(JsonShape::Bool(b)) => Some(b),
            Some(JsonShape::Number(Some(n))) => Some(n != 0),
            _ => None,
        },
        None => None,
    }
}

// ---------------------------------------------------------------------------
// What holds of every member
// ---------------------------------------------------------------------------
/// A member is found under its own name, the first where there are several, and
/// only where there is one.
pub proof fn law_a_member_is_found_under_its_name(
    fields: Seq<(Seq<char>, Seq<char>)>,
    key: Seq<char>,
    i: int,
)
    requires
        0 <= i < fields.len(),
        fields[i].0 == key,
        forall|j: int| 0 <= j < i ==> (#[trigger] fields[j]).0 != key,
    ensures
        field(fields, key) == Some(fields[i].1),
        member(JsonView::Object(fields), key) == Some(fields[i].1),
    decreases i,
{
    if i > 0 {
        let rest = fields.skip(1);
        assert forall|j: int| 0 <= j < i - 1 implies (#[trigger] rest[j]).0 != key by {
            assert(rest[j] == fields[j + 1]);
        }
        assert(fields[0].0 != key);
        law_a_member_is_found_under_its_name(rest, key, i - 1);
    }
}

/// What has no member of a name has none to be found, and neither has a value
/// that is no object.
pub proof fn law_a_member_that_is_not_there_is_not_found(
    fields: Seq<(Seq<char>, Seq<char>)>,
    key: Seq<char>,
    value: JsonView,
)
    requires
        forall|j: int| 0 <= j < fields.len() ==> (#[trigger] fields[j]).0 != key,
        !(value is Object),
    ensures
        member(JsonView::Object(fields), key) is None,
        member(value, key) is None,
    decreases fields.len(),
{
    if fields.len() > 0 {
        let rest = fields.skip(1);
        assert forall|j: int| 0 <= j < rest.len() implies (#[trigger] rest[j]).0 != key by {
            assert(rest[j] == fields[j + 1]);
        }
        assert(fields[0].0 != key);
        law_a_member_that_is_not_there_is_not_found(rest, key, value);
    }
}

/// A member is read as what it is: a string as its text, an integer as its
/// number, a truth value as itself and an integer as whether it is not zero;
/// and as nothing else.
pub proof fn law_a_member_is_read_as_what_it_is(value: JsonView, key: Seq<char>, text: Seq<char>)
    requires
        member(value, key) == Some(text),
    ensures
        json_of(text) matches Some(JsonView::Text(s)) ==> text_member(value, key) == Some(s)
            && integer_member(value, key) is None && bool_member(value, key) is None,
        json_of(text) matches Some(JsonView::Number(Some(n))) ==> integer_member(value, key) == Some(
            n,
        ) && bool_member(value, key) == Some(n != 0) && text_member(value, key) is None,
        json_of(text) matches Some(JsonView::Bool(b)) ==> bool_member(value, key) == Some(b)
            && integer_member(value, key) is None && text_member(value, key) is None,
        json_of(text) is None || json_of(text)->0 is Null || json_of(text)->0 is Array || json_of(
            text,
        )->0 is Object ==> text_member(value, key) is None && integer_member(value, key) is None
            && bool_member(value, key) is None,
{
}

/// An answer's data is read as the JSON it is; what is no JSON is read as
/// `null`.
pub proof fn law_data_is_read_as_it_is(data: Seq<char>)
    ensures
        json_of(data) matches Some(value) ==> data_value(data) == value,
        json_of(data) is None ==> data_value(data) is Null,
{
}

} // verus!
