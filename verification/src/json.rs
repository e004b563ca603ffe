//! JSON documents as the parsers read them.
//!
//! Reading JSON text is left to `serde_json`. What it read is copied into a
//! [`JsonValue`], and everything after that works on the copy.

use vstd::prelude::*;

verus! {

/// A JSON value, as a mathematical value. A number is kept only where it is a
/// whole number that fits 64 signed bits; any other number is `Number(None)`.
pub ghost enum JsonModel {
    Null,
    Bool(bool),
    Number(Option<int>),
    Text(Seq<char>),
    Array(Seq<JsonModel>),
    Object(Seq<(Seq<char>, JsonModel)>),
}

/// A member of a JSON object.
#[derive(Debug)]
pub struct JsonMember {
    pub key: String,
    pub value: JsonValue,
}

/// A JSON value.
#[derive(Debug)]
pub enum JsonValue {
    Null,
    Bool(bool),
    /// A whole number within 64 signed bits, or `None` for any other number.
    Number(Option<i64>),
    Text(String),
    Array(Vec<JsonValue>),
    Object(Vec<JsonMember>),
}

impl JsonValue {
    /// The value that this stands for.
    pub open spec fn model(self) -> JsonModel
        decreases self,
    {
        match self {
            JsonValue::Null => JsonModel::Null,
            JsonValue::Bool(flag) => JsonModel::Bool(flag),
            JsonValue::Number(number) => JsonModel::Number(
                match number {
                    Some(n) => Some(n as int),
                    None => None,
                },
            ),
            JsonValue::Text(text) => JsonModel::Text(text@),
            JsonValue::Array(items) => JsonModel::Array(models_of(items@)),
            JsonValue::Object(members) => JsonModel::Object(members_of(members@)),
        }
    }
}

/// The values that a list of JSON values stands for, in order.
pub open spec fn models_of(items: Seq<JsonValue>) -> Seq<JsonModel>
    decreases items,
{
    if items.len() == 0 {
        Seq::empty()
    } else {
        models_of(items.drop_last()).push(items.last().model())
    }
}

/// The members that a list of object members stands for, in order.
pub open spec fn members_of(members: Seq<JsonMember>) -> Seq<(Seq<char>, JsonModel)>
    decreases members,
{
    if members.len() == 0 {
        Seq::empty()
    } else {
        members_of(members.drop_last()).push((members.last().key@, members.last().value.model()))
    }
}

impl View for JsonValue {
    type V = JsonModel;

    open spec fn view(&self) -> JsonModel {
        self.model()
    }
}

/// `models_of` keeps the length and maps value by value.
pub proof fn lemma_models_of(items: Seq<JsonValue>)
    ensures
        models_of(items).len() == items.len(),
        forall|i: int| 0 <= i < items.len() ==> models_of(items)[i] == (#[trigger] items[i])@,
    decreases items.len(),
{
    if items.len() > 0 {
        let front = items.drop_last();
        lemma_models_of(front);
        assert forall|i: int| 0 <= i < items.len() implies models_of(items)[i] == (
        #[trigger] items[i])@ by {
            if i < front.len() {
                assert(front[i] == items[i]);
            }
        }
    }
}

/// `members_of` keeps the length and maps member by member.
pub proof fn lemma_members_of(members: Seq<JsonMember>)
    ensures
        members_of(members).len() == members.len(),
        forall|i: int|
            0 <= i < members.len() ==> members_of(members)[i] == ((#[trigger] members[i]).key@,
                members[i].value@),
    decreases members.len(),
{
    if members.len() > 0 {
        let front = members.drop_last();
        lemma_members_of(front);
        assert forall|i: int| 0 <= i < members.len() implies members_of(members)[i] == ((
        #[trigger] members[i]).key@, members[i].value@) by {
            if i < front.len() {
                assert(front[i] == members[i]);
            }
        }
    }
}

/// A value of `serde_json`, opaque here.
#[verifier::external_type_specification]
#[verifier::external_body]
pub struct ExSerdeValue(serde_json::Value);

/// What `serde_json` reads from a text: the document, or the message of its error.
pub uninterp spec fn json_document(text: Seq<char>) -> Result<JsonModel, Seq<char>>;

/// What a value of `serde_json` holds.
pub uninterp spec fn json_content(value: serde_json::Value) -> JsonModel;

/// What an outcome of reading says of the text that was read.
pub open spec fn read_outcome(outcome: Result<serde_json::Value, String>) -> Result<
    JsonModel,
    Seq<char>,
> {
    match outcome {
        Ok(value) => Ok(json_content(value)),
        Err(message) => Err(message@),
    }
}

/// The document or the error message that a parsed text gave.
pub open spec fn parse_outcome(outcome: Result<JsonValue, String>) -> Result<JsonModel, Seq<char>> {
    match outcome {
        Ok(value) => Ok(value@),
        Err(message) => Err(message@),
    }
}

/// `serde_json::from_str` at `serde_json::Value`: reads a whole text as one
/// JSON document. The outcome is a function of the text alone; an error is
/// handed on as its `Display` text.
#[verifier::external_body]
pub(crate) fn read_serde(text: &str) -> (r: Result<serde_json::Value, String>)
    ensures
        read_outcome(r) == json_document(text@),
{
    match serde_json::from_str::<serde_json::Value>(text) {
        Ok(value) => Ok(value),
        Err(error) => Err(error.to_string()),
    }
}

/// Copies a value of `serde_json`, variant by variant: `Number::as_i64` gives
/// the number, strings and object keys are cloned, members keep the map's order.
#[verifier::external_body]
pub(crate) fn from_serde(value: &serde_json::Value) -> (r: JsonValue)
    ensures
        r@ == json_content(*value),
{
    match value {
        serde_json::Value::Null => JsonValue::Null,
        serde_json::Value::Bool(flag) => JsonValue::Bool(*flag),
        serde_json::Value::Number(number) => JsonValue::Number(number.as_i64()),
        serde_json::Value::String(text) => JsonValue::Text(text.clone()),
        serde_json::Value::Array(items) => JsonValue::Array(items.iter().map(from_serde).collect()),
        serde_json::Value::Object(members) => JsonValue::Object(
            members.iter().map(|(key, item)| JsonMember { key: key.clone(), value: from_serde(item) }).collect(),
        ),
    }
}

/// Reads a text as one JSON document.
pub fn parse_json(text: &str) -> (r: Result<JsonValue, String>)
    ensures
        parse_outcome(r) == json_document(text@),
{
    match read_serde(text) {
        Ok(value) => Ok(from_serde(&value)),
        Err(message) => Err(message),
    }
}

} // verus!
