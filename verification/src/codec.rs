//! Documents as CBOR bytes, written and read by `serde_cbor`.

use crate::document::{fields_of, Document, Json};
use serde_cbor::Value;
use vstd::prelude::*;

verus! {

#[verifier::external_type_specification]
#[verifier::external_body]
pub struct ExCborValue(serde_cbor::Value);

#[verifier::external_type_specification]
#[verifier::external_body]
pub struct ExCborError(serde_cbor::Error);

/// What a CBOR value holds, as a document: a scalar for a scalar, an array for an array, an
/// object for a map with text keys. There is none for a value that holds a float, a byte
/// string, a tag, a map key that is no text, or a whole number beyond 64 bits with sign.
pub uninterp spec fn value_json(value: serde_cbor::Value) -> Option<Json>;

/// The CBOR bytes that stand for a document.
pub uninterp spec fn cbor_encoding(doc: Json) -> Seq<u8>;

/// The document that CBOR bytes stand for, where they stand for one.
pub uninterp spec fn cbor_decoding(bytes: Seq<u8>) -> Option<Json>;

/// A document without parts: nothing, a truth value, a whole number or a text.
pub open spec fn is_scalar(doc: Json) -> bool {
    doc is Null || doc is Bool || doc is Integer || doc is Text
}

/// An object whose fields are all scalars.
pub open spec fn is_flat_object(doc: Json) -> bool {
    &&& doc is Object
    &&& forall|k: Seq<char>| #[trigger]
        fields_of(doc).contains_key(k) ==> is_scalar(fields_of(doc)[k])
}

/// The value of the document that `found` holds, if any.
pub open spec fn document_view(found: Option<Document>) -> Option<Json> {
    match found {
        Some(doc) => Some(doc@),
        None => None,
    }
}

/// What the CBOR value that `found` holds, if any, holds as a document.
pub open spec fn found_json(found: Option<serde_cbor::Value>) -> Option<Json> {
    match found {
        Some(value) => value_json(value),
        None => None,
    }
}

/// Builds the `serde_cbor::Value` of the same shape as `doc`, variant by variant, for a
/// document in which no object names a field twice: the fields of an object, each under a
/// name of its own, become the entries of the map of a `Value::Map`. The contract claims that
/// the value holds the value of `doc`.
#[verifier::external_body]
fn to_cbor(doc: &Document) -> (value: serde_cbor::Value)
    requires
        doc.has_unique_names(),
    ensures
        value_json(value) == Some(doc@),
{
    match doc {
        Document::Null => Value::Null,
        Document::Bool(b) => Value::Bool(*b),
        Document::Integer(n) => Value::Integer(i128::from(*n)),
        Document::Text(s) => Value::Text(s.clone()),
        Document::Array(items) => Value::Array(items.iter().map(to_cbor).collect()),
        Document::Object(fields) => Value::Map(
            fields.iter().map(|f| (Value::Text(f.0.clone()), to_cbor(&f.1))).collect(),
        ),
    }
}

/// Builds the document of the same shape as a `serde_cbor::Value`, variant by variant, or
/// `None` where the value holds what a document cannot. The contract claims that the document
/// is what the value holds.
#[verifier::external_body]
fn from_cbor(value: serde_cbor::Value) -> (r: Option<Document>)
    ensures
        document_view(r) == value_json(value),
{
    match value {
        Value::Null => Some(Document::Null),
        Value::Bool(b) => Some(Document::Bool(b)),
        Value::Integer(n) => i64::try_from(n).ok().map(Document::Integer),
        Value::Text(s) => Some(Document::Text(s)),
        Value::Array(items) => items.into_iter().map(from_cbor).collect::<Option<Vec<_>>>().map(
            Document::Array,
        ),
        Value::Map(fields) => fields.into_iter().map(|f| match f.0 {
            Value::Text(name) => from_cbor(f.1).map(|doc| (name, doc)),
            _ => None,
        }).collect::<Option<Vec<_>>>().map(Document::Object),
        _ => None,
    }
}

/// Calls `serde_cbor::to_vec`, on a value that holds a document. The contract claims that the
/// call succeeds: the encoder writes into a vector, which takes every write, and it refuses
/// nothing but a whole number beyond 64 bits, which such a value does not hold. It also claims
/// that the bytes depend on the document alone, and that for an object of scalar fields
/// `serde_cbor::from_slice` reads the same object back from them.
#[verifier::external_body]
fn cbor_to_vec(value: &serde_cbor::Value) -> (r: Result<Vec<u8>, serde_cbor::Error>)
    requires
        value_json(*value) is Some,
    ensures
        r is Ok,
        r matches Ok(bytes) ==> bytes@ == cbor_encoding(value_json(*value)->Some_0),
        r matches Ok(bytes) ==> (is_flat_object(value_json(*value)->Some_0) ==> cbor_decoding(
            bytes@,
        ) == value_json(*value)),
{
    serde_cbor::to_vec(value)
}

/// Calls `serde_cbor::from_slice` for a `serde_cbor::Value`. The contract claims that the
/// document that the value read holds, or that nothing was read, depends on the bytes alone.
#[verifier::external_body]
fn cbor_from_slice(bytes: &[u8]) -> (r: Option<serde_cbor::Value>)
    ensures
        found_json(r) == cbor_decoding(bytes@),
{
    serde_cbor::from_slice::<Value>(bytes).ok()
}

/// The CBOR bytes that stand for `doc`. There are such bytes for every document, so the
/// result is never `None`. From the bytes of an object of scalar fields, `decode` reads the
/// same object back.
pub fn encode(doc: &Document) -> (r: Option<Vec<u8>>)
    ensures
        r matches Some(bytes) && bytes@ == cbor_encoding(doc@) && (is_flat_object(doc@)
            ==> cbor_decoding(bytes@) == Some(doc@)),
{
    let plain = doc.without_repeats();
    let value = to_cbor(&plain);
    match cbor_to_vec(&value) {
        Ok(bytes) => Some(bytes),
        Err(_) => None,
    }
}

/// The document that the CBOR bytes stand for, or `None` where they stand for none: where
/// they are no CBOR, or hold what a document cannot.
pub fn decode(bytes: &[u8]) -> (r: Option<Document>)
    ensures
        document_view(r) == cbor_decoding(bytes@),
{
    match cbor_from_slice(bytes) {
        Some(value) => from_cbor(value),
        None => None,
    }
}

} // verus!
