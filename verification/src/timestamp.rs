//! Points in time, which travel through the encoder and the decoder as a
//! marked wrapper around their binary layout.

use crate::datum::{Datum, SpecDatum};
use crate::deserialize::error::{DeserializationError, SpecDeserializationError};
use crate::deserialize::ValueDeserializer;
use crate::firestore::{timestamp_decoding, timestamp_encoding, SpecValue, Timestamp, WireValue};
use crate::serialize::error::{SerializationError, SpecSerializationError};
use crate::serialize::timestamp_serializer::UNDECODABLE_MESSAGE;
use crate::serialize::{result_model, ValueSerializer};
use crate::shape::{Shape, SpecShape};
use crate::DATE_MAGIC;
use vstd::prelude::*;

verus! {

/// `bytes` are the binary layout of a timestamp, as the encoder of
/// timestamps writes it.
pub open spec fn canonical(bytes: Seq<u8>) -> bool {
    timestamp_decoding(bytes) matches Some((seconds, nanos)) && timestamp_encoding(seconds, nanos)
        == bytes
}

/// The structured value that stands for a point in time: the wrapper named
/// by the timestamp marker, around the binary layout.
pub fn to_datum(date: &Timestamp) -> (datum: Datum)
    ensures
        datum@ == SpecDatum::NewtypeStruct(
            DATE_MAGIC@,
            Box::new(SpecDatum::Bytes(timestamp_encoding(date.seconds, date.nanos))),
        ),
        canonical(timestamp_encoding(date.seconds, date.nanos)),
{
    let layout = Datum::Bytes(date.to_bytes());
    assert(layout@ == SpecDatum::Bytes(timestamp_encoding(date.seconds, date.nanos)));
    Datum::NewtypeStruct(DATE_MAGIC.to_owned(), Box::new(layout))
}

/// The shape as which a point in time is read back.
pub fn shape() -> (shape: Shape)
    ensures
        shape@ == SpecShape::NewtypeStruct(DATE_MAGIC@, Box::new(SpecShape::ByteBuf)),
{
    let layout = Shape::ByteBuf;
    assert(layout@ == SpecShape::ByteBuf);
    Shape::NewtypeStruct(DATE_MAGIC.to_owned(), Box::new(layout))
}

/// The point in time that a structured value stands for: its bytes, with or
/// without the wrapper around them, read as the binary layout.
pub fn from_datum(datum: &Datum) -> (date: Option<Timestamp>)
    ensures
        date == match datum@ {
            SpecDatum::Bytes(bytes) => decoded_timestamp(bytes),
            SpecDatum::NewtypeStruct(_, inner) => match *inner {
                SpecDatum::Bytes(bytes) => decoded_timestamp(bytes),
                _ => None,
            },
            _ => None,
        },
{
    match datum {
        Datum::Bytes(bytes) => Timestamp::from_bytes(bytes.as_slice()),
        Datum::NewtypeStruct(_, inner) => {
            assert(datum@->NewtypeStruct_1 == inner@);
            match &**inner {
                Datum::Bytes(bytes) => Timestamp::from_bytes(bytes.as_slice()),
                _ => None,
            }
        },
        _ => None,
    }
}

/// The timestamp that `bytes` are the binary layout of, if they are one.
pub open spec fn decoded_timestamp(bytes: Seq<u8>) -> Option<Timestamp> {
    match timestamp_decoding(bytes) {
        Some((seconds, nanos)) => Some(Timestamp { seconds, nanos }),
        None => None,
    }
}

/// Encodes a point in time. What comes out is the timestamp value of these
/// seconds and nanoseconds, whatever they are.
pub fn serialize(date: &Timestamp, serializer: ValueSerializer) -> (encoded: Result<
    WireValue,
    SerializationError,
>)
    ensures
        result_model(encoded) == Ok::<SpecValue, SpecSerializationError>(
            SpecValue::TimestampValue(*date),
        ),
{
    let v = Datum::Bytes(date.to_bytes());
    serializer.serialize_newtype_struct(DATE_MAGIC, &v)
}

/// Decodes a point in time. A timestamp value gives back its seconds and
/// nanoseconds as they are; a bytes value is read as the binary layout.
pub fn deserialize(deserializer: &ValueDeserializer) -> (decoded: Result<
    Timestamp,
    DeserializationError,
>)
    ensures
        match deserializer.0@ {
            SpecValue::TimestampValue(t) => decoded matches Ok(date) && date == t,
            SpecValue::BytesValue(bytes) => match decoded_timestamp(bytes) {
                Some(t) => decoded matches Ok(date) && date == t,
                None => decoded matches Err(e) && e@ == SpecDeserializationError::Message(
                    UNDECODABLE_MESSAGE@,
                ),
            },
            other => decoded matches Err(e) && e@ == SpecDeserializationError::WrongType(
                "byte_buf"@,
                other,
            ),
        },
{
    match deserializer.deserialize_byte_buf() {
        Ok(buf) => match Timestamp::from_bytes(buf.as_slice()) {
            Some(date) => Ok(date),
            None => Err(DeserializationError::custom(UNDECODABLE_MESSAGE)),
        },
        Err(error) => Err(error),
    }
}

} // verus!
