//! JSON text and bytes through serde_json, and the library's JSON values.
use vstd::prelude::*;
use crate::json::{Json, JsonValue};
use crate::json::JsonNumber::{Float, NegInt, PosInt};
use serde_json::{Error as WireError, Value as WireValue};

verus! {

#[verifier::external_type_specification]
#[verifier::external_body]
pub struct ExWireValue(serde_json::Value);

#[verifier::external_type_specification]
#[verifier::external_body]
pub struct ExWireError(serde_json::Error);

/// What `serde_json::from_slice::<serde_json::Value>` gives for the bytes:
/// the document, or the text of the parser's error.
pub uninterp spec fn json_parse(bytes: Seq<u8>) -> Result<Json, Seq<char>>;

/// What `serde_json::to_string` gives for the document: its compact text,
/// or the text of the error.
pub uninterp spec fn json_compact(v: Json) -> Result<Seq<char>, Seq<char>>;

/// What `serde_json::to_string_pretty` gives for the document.
pub uninterp spec fn json_pretty(v: Json) -> Result<Seq<char>, Seq<char>>;

/// What `serde_json::to_vec_pretty` gives for the document.
pub uninterp spec fn json_pretty_bytes(v: Json) -> Result<Seq<u8>, Seq<char>>;

/// A `serde_json::Value` as a library JSON value, variant for variant; a
/// number is an unsigned integer where it fits one, else a signed integer
/// where it fits one, else its decimal text.
#[verifier::external_body]
fn value_from_wire(v: WireValue) -> JsonValue {
    match v {
        WireValue::Null => JsonValue::Null,
        WireValue::Bool(b) => JsonValue::Bool(b),
        WireValue::Number(n) => JsonValue::Number(match (n.as_u64(), n.as_i64()) {
            (Some(u), _) => PosInt(u),
            (None, Some(i)) => NegInt(i),
            (None, None) => Float(n.to_string()),
        }),
        WireValue::String(s) => JsonValue::Str(s),
        WireValue::Array(a) => JsonValue::Array(a.into_iter().map(value_from_wire).collect()),
        WireValue::Object(m) => JsonValue::Object(m.into_iter().map(|(k, x)| (k, value_from_wire(x))).collect()),
    }
}

/// A library JSON value as a `serde_json::Value`, variant for variant; the
/// decimal text of a number is read by serde_json's number parser.
#[verifier::external_body]
fn value_to_wire(v: &JsonValue) -> Result<WireValue, WireError> {
    Ok(match v {
        JsonValue::Null => WireValue::Null,
        JsonValue::Bool(b) => WireValue::Bool(*b),
        JsonValue::Number(PosInt(u)) => WireValue::from(*u),
        JsonValue::Number(NegInt(i)) => WireValue::from(*i),
        JsonValue::Number(Float(t)) => WireValue::Number(t.parse()?),
        JsonValue::Str(s) => WireValue::String(s.clone()),
        JsonValue::Array(a) => WireValue::Array(a.iter().map(value_to_wire).collect::<Result<_, _>>()?),
        JsonValue::Object(m) => WireValue::Object(m.iter().map(|(k, x)| Ok((k.clone(), value_to_wire(x)?))).collect::<Result<_, WireError>>()?),
    })
}

/// Parses the bytes with `serde_json::from_slice::<serde_json::Value>`; the
/// result, or the error's text, is `json_parse` of the bytes.
#[verifier::external_body]
pub(crate) fn parse_json(bytes: &[u8]) -> (r: Result<JsonValue, String>)
    ensures
        match r {
            Ok(v) => json_parse(bytes@) == Ok::<Json, Seq<char>>(v.model()),
            Err(e) => json_parse(bytes@) == Err::<Json, Seq<char>>(e@),
        },
{
    match serde_json::from_slice::<serde_json::Value>(bytes) {
        Ok(v) => Ok(value_from_wire(v)),
        Err(e) => Err(e.to_string()),
    }
}

/// The compact text of the document by `serde_json::to_string`; the result,
/// or the error's text, is `json_compact` of the document.
#[verifier::external_body]
pub(crate) fn compact_text(v: &JsonValue) -> (r: Result<String, String>)
    ensures
        match r {
            Ok(t) => json_compact(v.model()) == Ok::<Seq<char>, Seq<char>>(t@),
            Err(e) => json_compact(v.model()) == Err::<Seq<char>, Seq<char>>(e@),
        },
{
    value_to_wire(v).and_then(|w| serde_json::to_string(&w)).map_err(|e| e.to_string())
}

/// The pretty text of the document by `serde_json::to_string_pretty`; the
/// result, or the error's text, is `json_pretty` of the document.
#[verifier::external_body]
pub(crate) fn pretty_text(v: &JsonValue) -> (r: Result<String, String>)
    ensures
        match r {
            Ok(t) => json_pretty(v.model()) == Ok::<Seq<char>, Seq<char>>(t@),
            Err(e) => json_pretty(v.model()) == Err::<Seq<char>, Seq<char>>(e@),
        },
{
    value_to_wire(v).and_then(|w| serde_json::to_string_pretty(&w)).map_err(|e| e.to_string())
}

/// The pretty bytes of the document by `serde_json::to_vec_pretty`; the
/// result, or the error's text, is `json_pretty_bytes` of the document.
#[verifier::external_body]
pub(crate) fn pretty_bytes(v: &JsonValue) -> (r: Result<Vec<u8>, String>)
    ensures
        match r {
            Ok(b) => json_pretty_bytes(v.model()) == Ok::<Seq<u8>, Seq<char>>(b@),
            Err(e) => json_pretty_bytes(v.model()) == Err::<Seq<u8>, Seq<char>>(e@),
        },
{
    value_to_wire(v).and_then(|w| serde_json::to_vec_pretty(&w)).map_err(|e| e.to_string())
}

/// The compact text of a document, or `{}` where serde_json refuses it.
pub open spec fn text_or_empty(r: Result<Seq<char>, Seq<char>>) -> Seq<char> {
    match r {
        Ok(t) => t,
        Err(_) => "{}"@,
    }
}

/// The compact text of a description document, `{}` where serde_json
/// refuses it.
pub fn describe_text(v: &JsonValue) -> (t: String)
    ensures
        t@ == text_or_empty(json_compact(v.model())),
{
    match compact_text(v) {
        Ok(t) => t,
        Err(_) => String::from_str("{}"),
    }
}

} // verus!
