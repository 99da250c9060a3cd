//! Conversion between structured values and the tagged-union values of a
//! document database's wire protocol.

use crate::datum::Datum;
use crate::deserialize::error::DeserializationError;
use crate::deserialize::shaped::{decoded_model, deserialized};
use crate::firestore::{Document, SpecValue, WireValue};
use crate::serialize::error::{SerializationError, SpecSerializationError};
use crate::serialize::{result_model, serialized};
use crate::shape::Shape;
use vstd::prelude::*;

pub use crate::deserialize::ValueDeserializer;
pub use crate::serialize::ValueSerializer;

pub mod datum;
pub mod deserialize;
pub mod firestore;
pub mod laws;
pub mod seq_facts;
pub mod serialize;
pub mod shape;
mod text;
pub mod timestamp;

verus! {

/// The name under which a tagged variant stores its variant's name.
pub const TYPE: &'static str = "type";

/// The name under which a tagged variant stores a single payload.
pub const VALUE: &'static str = "value";

/// The name under which a tagged variant stores a tuple or a record.
pub const VALUES: &'static str = "values";

/// The name of the wrapper that marks its content as a point in time.
pub const DATE_MAGIC: &'static str = "$TimestampValue";

/// The three reserved names differ from one another.
pub proof fn lemma_reserved_names_differ()
    ensures
        TYPE@ != VALUE@,
        TYPE@ != VALUES@,
        VALUE@ != VALUES@,
{
    reveal_strlit("type");
    reveal_strlit("value");
    reveal_strlit("values");
    assert(TYPE@ == "type"@ && "type"@.len() == 4);
    assert(VALUE@ == "value"@ && "value"@.len() == 5);
    assert(VALUES@ == "values"@ && "values"@.len() == 6);
}

/// Encodes a structured value.
pub fn to_grpc_value(value: &Datum) -> (encoded: Result<WireValue, SerializationError>)
    ensures
        result_model(encoded) == serialized(value@),
{
    value.serialize()
}

/// Decodes a wire value as the shape asks.
pub fn from_grpc_value(value: &WireValue, shape: &Shape) -> (decoded: Result<
    Datum,
    DeserializationError,
>)
    ensures
        decoded_model(decoded) == deserialized(value@, shape@),
{
    shape.deserialize(&ValueDeserializer(value))
}

/// Encodes a structured value as a document. Only what encodes to a map can
/// be a document; the document gets the fields of that map, no name and no
/// times.
pub fn to_document(value: &Datum) -> (document: Result<Document, SerializationError>)
    ensures
        match serialized(value@) {
            Ok(SpecValue::MapValue(fields)) => document matches Ok(d) && d.fields@ == fields
                && d.bare(),
            Ok(_) => document matches Err(e) && e@ == SpecSerializationError::NotAMap,
            Err(error) => document matches Err(e) && e@ == error,
        },
{
    match to_grpc_value(value) {
        Ok(encoded) => Document::from_value(encoded),
        Err(error) => Err(error),
    }
}

/// Decodes a document as the shape asks: the map of its fields is read as a
/// wire value.
pub fn from_document(document: Document, shape: &Shape) -> (decoded: Result<
    Datum,
    DeserializationError,
>)
    ensures
        decoded_model(decoded) == deserialized(SpecValue::MapValue(document.fields@), shape@),
{
    let value = document.into_value();
    from_grpc_value(&value, shape)
}

} // verus!
