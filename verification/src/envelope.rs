//! The uniform JSON envelope around every handler outcome.
//!
//! A successful outcome is wrapped as status 200 with body
//! `{"data": payload}`; a failing one as the error case's resolved status
//! with body `{"error": message}`, the message coming from the response
//! table. Structured payloads are modelled by [`JsonValue`].

use vstd::prelude::*;

use crate::respond::ResponseTable;
use crate::respond::spec_to_response;
use crate::respond::table_view;

verus! {

/// A structured JSON payload.
pub enum JsonValue {
    Null,
    Bool(bool),
    UInt(u64),
    Text(String),
    List(Vec<JsonValue>),
    Object(Vec<(String, JsonValue)>),
}

/// A handler outcome already serialized: status code and JSON body.
pub struct Envelope {
    pub status: u16,
    pub body: JsonValue,
}

/// The failure payload of a handler outcome: the error case's name and
/// its human-readable description.
pub struct CaseError {
    pub name: String,
    pub description: String,
}

/// The value bound to `key` among an object's entries, later entries
/// winning; `None` on a non-object or an absent key.
pub open spec fn spec_entry_lookup(entries: Seq<(String, JsonValue)>, key: Seq<char>) -> Option<
    JsonValue,
>
    decreases entries.len(),
{
    if entries.len() == 0 {
        None
    } else if entries.last().0@ == key {
        Some(entries.last().1)
    } else {
        spec_entry_lookup(entries.drop_last(), key)
    }
}

/// The field of an object body, `None` on anything else.
pub open spec fn object_field(v: JsonValue, key: Seq<char>) -> Option<JsonValue> {
    match v {
        JsonValue::Object(entries) => spec_entry_lookup(entries@, key),
        _ => None,
    }
}

/// A body of exactly the shape `{"data": data}`.
pub open spec fn is_data_body(body: JsonValue, data: JsonValue) -> bool {
    match body {
        JsonValue::Object(entries) => entries@.len() == 1 && entries@[0].0@ == "data"@
            && entries@[0].1 == data,
        _ => false,
    }
}

/// A body of exactly the shape `{"error": message}`.
pub open spec fn is_error_body(body: JsonValue, message: Seq<char>) -> bool {
    match body {
        JsonValue::Object(entries) => entries@.len() == 1 && entries@[0].0@ == "error"@
            && (match entries@[0].1 {
                JsonValue::Text(t) => t@ == message,
                _ => false,
            }),
        _ => false,
    }
}

/// Reading the `data` field back out of a success body recovers the
/// wrapped payload exactly.
pub proof fn lemma_data_round_trip(body: JsonValue, data: JsonValue)
    requires
        is_data_body(body, data),
    ensures
        object_field(body, "data"@) == Some(data),
{
}

/// The `error` field of a failure body is exactly the response message.
pub proof fn lemma_error_field(body: JsonValue, message: Seq<char>)
    requires
        is_error_body(body, message),
    ensures
        match object_field(body, "error"@) {
            Some(v) => match v {
                JsonValue::Text(t) => t@ == message,
                _ => false,
            },
            None => false,
        },
{
}

/// Wraps a success payload: status 200, body `{"data": payload}`.
pub fn wrap_ok(data: JsonValue) -> (r: Envelope)
    ensures
        r.status == 200,
        is_data_body(r.body, data),
{
    let mut entries: Vec<(String, JsonValue)> = Vec::new();
    entries.push((String::from_str("data"), data));
    Envelope { status: 200, body: JsonValue::Object(entries) }
}

/// Wraps a failure: the given status, body `{"error": message}`.
pub fn wrap_err(status: u16, message: String) -> (r: Envelope)
    ensures
        r.status == status,
        is_error_body(r.body, message@),
{
    let mut entries: Vec<(String, JsonValue)> = Vec::new();
    entries.push((String::from_str("error"), JsonValue::Text(message)));
    Envelope { status, body: JsonValue::Object(entries) }
}

/// Wraps a whole handler outcome: `Ok` as status 200 with the payload
/// under `"data"`, `Err` as the case's response status with the
/// response message under `"error"`.
pub fn serve(table: &ResponseTable, outcome: Result<JsonValue, CaseError>) -> (r: Envelope)
    ensures
        match outcome {
            Ok(data) => r.status == 200 && is_data_body(r.body, data),
            Err(e) => {
                let resp = spec_to_response(table_view(table.entries@), e.name@, e.description@);
                r.status == resp.0 && is_error_body(r.body, resp.1)
            },
        },
{
    match outcome {
        Ok(data) => wrap_ok(data),
        Err(e) => {
            let (status, message) = table.to_response(&e.name, &e.description);
            wrap_err(status, message)
        },
    }
}

} // verus!
