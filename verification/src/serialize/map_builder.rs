//! The accumulator for the fields of a struct.

use crate::datum::Datum;
use crate::firestore::{insert, FieldMap, SpecFields, SpecValue, WireValue};
use crate::serialize::error::{SerializationError, SpecSerializationError};
use crate::serialize::{result_model, serialized};
use vstd::prelude::*;

verus! {

/// Collects the encoded fields of a struct under their names.
#[derive(Debug)]
pub struct MapBuilder {
    fields: FieldMap,
}

impl View for MapBuilder {
    type V = SpecFields;

    closed spec fn view(&self) -> SpecFields {
        self.fields@
    }
}

impl MapBuilder {
    /// An empty accumulator with room for `capacity` fields.
    pub fn with_capacity(capacity: usize) -> (builder: MapBuilder)
        ensures
            builder@ == Seq::<(Seq<char>, SpecValue)>::empty(),
    {
        MapBuilder { fields: FieldMap::with_capacity(capacity) }
    }

    /// Stores under `key` a value that is encoded already.
    pub fn insert(&mut self, key: &str, value: WireValue)
        ensures
            final(self)@ == insert(old(self)@, key@, value@),
    {
        self.fields.insert(key.to_owned(), value);
    }

    /// Encodes the value of the field `key` and stores it under that name. A
    /// failure leaves the accumulator as it was.
    pub fn serialize_field(&mut self, key: &str, value: &Datum) -> (done: Result<
        (),
        SerializationError,
    >)
        ensures
            match serialized(value@) {
                Ok(encoded) => done is Ok && final(self)@ == insert(old(self)@, key@, encoded),
                Err(error) => done matches Err(e) && e@ == error && final(self)@ == old(self)@,
            },
        decreases value, 1nat,
    {
        match value.serialize() {
            Ok(encoded) => {
                self.insert(key, encoded);
                Ok(())
            },
            Err(error) => Err(error),
        }
    }

    /// Passes over the field `key`: nothing is stored for it.
    pub fn skip_field(&mut self, key: &str) -> (done: Result<(), SerializationError>)
        ensures
            done is Ok,
            final(self)@ == old(self)@,
    {
        Ok(())
    }

    /// The map of all that was collected.
    pub fn end(self) -> (map: Result<WireValue, SerializationError>)
        ensures
            result_model(map) == Ok::<SpecValue, SpecSerializationError>(SpecValue::MapValue(self@)),
    {
        Ok(WireValue::MapValue(self.fields))
    }
}

} // verus!
