//! The second encoder, which takes the content of a wrapper named by the
//! timestamp marker.

use crate::datum::Datum;
use crate::firestore::{timestamp_decoding, SpecValue, Timestamp, WireValue};
use crate::serialize::error::{SerializationError, SpecSerializationError};
use crate::serialize::{result_model, serialized_timestamp};
use vstd::prelude::*;

verus! {

/// The message for a timestamp wrapper whose content is not a run of bytes.
pub const NOT_BYTES_MESSAGE: &'static str =
    "TimestampSerializer should never be called with anything but bytes.";

/// The message for a timestamp wrapper whose bytes are no timestamp.
pub const UNDECODABLE_MESSAGE: &'static str =
    "Should always be able to decode timestamp, since we encoded it immediately before.";

/// The encoder for what stands inside a timestamp wrapper.
#[derive(Clone, Copy, Debug)]
pub struct TimestampSerializer;

impl TimestampSerializer {
    /// Reads `v` as the binary layout of a timestamp and gives the timestamp
    /// value; bytes that are no timestamp are refused with a message.
    pub fn serialize_bytes(self, v: &[u8]) -> (encoded: Result<WireValue, SerializationError>)
        ensures
            result_model(encoded) == match timestamp_decoding(v@) {
                Some((seconds, nanos)) => Ok(
                    SpecValue::TimestampValue(Timestamp { seconds, nanos }),
                ),
                None => Err(SpecSerializationError::Message(UNDECODABLE_MESSAGE@)),
            },
    {
        match Timestamp::from_bytes(v) {
            Some(timestamp) => Ok(WireValue::TimestampValue(timestamp)),
            None => Err(SerializationError::custom(UNDECODABLE_MESSAGE)),
        }
    }

    /// The refusal of anything that is not a run of bytes.
    pub fn reject(self) -> (error: SerializationError)
        ensures
            error@ == SpecSerializationError::Message(NOT_BYTES_MESSAGE@),
    {
        SerializationError::custom(NOT_BYTES_MESSAGE)
    }
}

impl Datum {
    /// Encodes the content of a wrapper named by the timestamp marker: bytes
    /// go to [`TimestampSerializer::serialize_bytes`], anything else is refused.
    pub fn serialize_timestamp(&self) -> (encoded: Result<WireValue, SerializationError>)
        ensures
            result_model(encoded) == serialized_timestamp(self@),
    {
        match self {
            Datum::Bytes(bytes) => TimestampSerializer.serialize_bytes(bytes.as_slice()),
            _ => Err(TimestampSerializer.reject()),
        }
    }
}

} // verus!
