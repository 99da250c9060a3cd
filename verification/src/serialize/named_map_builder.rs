//! The accumulator for a variant whose payload is a record.

use crate::datum::Datum;
use crate::firestore::{insert, FieldMap, SpecFields, SpecValue, WireValue};
use crate::serialize::error::{SerializationError, SpecSerializationError};
use crate::serialize::{result_model, serialized, tag, tagged};
use crate::{lemma_reserved_names_differ, VALUES};
use vstd::prelude::*;

verus! {

/// Collects the encoded fields of a record-shaped variant, and keeps the
/// variant's name to tag them with.
#[derive(Debug)]
pub struct NamedMapBuilder {
    name: String,
    fields: FieldMap,
}

impl View for NamedMapBuilder {
    type V = SpecFields;

    /// The fields collected so far.
    closed spec fn view(&self) -> SpecFields {
        self.fields@
    }
}

impl NamedMapBuilder {
    /// The name of the variant.
    pub closed spec fn name(&self) -> Seq<char> {
        self.name@
    }

    /// An empty accumulator for the variant `name`, with room for `capacity` fields.
    pub fn with_capacity(name: String, capacity: usize) -> (builder: NamedMapBuilder)
        ensures
            builder@ == Seq::<(Seq<char>, SpecValue)>::empty(),
            builder.name() == name@,
    {
        NamedMapBuilder { name, fields: FieldMap::with_capacity(capacity) }
    }

    /// Stores under `key` a value that is encoded already.
    pub fn insert(&mut self, key: &str, value: WireValue)
        ensures
            final(self)@ == insert(old(self)@, key@, value@),
            final(self).name() == old(self).name(),
    {
        self.fields.insert(key.to_owned(), value);
    }

    /// Encodes the value of the field `key` and stores it under that name. A
    /// failure leaves the accumulator as it was.
    pub fn serialize_field(&mut self, key: &str, value: &Datum) -> (done: Result<
        (),
        SerializationError,
    >)
        ensures
            final(self).name() == old(self).name(),
            match serialized(value@) {
                Ok(encoded) => done is Ok && final(self)@ == insert(old(self)@, key@, encoded),
                Err(error) => done matches Err(e) && e@ == error && final(self)@ == old(self)@,
            },
        decreases value, 1nat,
    {
        match value.serialize() {
            Ok(encoded) => {
                self.insert(key, encoded);
                Ok(())
            },
            Err(error) => Err(error),
        }
    }

    /// Passes over the field `key`: nothing is stored for it.
    pub fn skip_field(&mut self, key: &str) -> (done: Result<(), SerializationError>)
        ensures
            done is Ok,
            final(self)@ == old(self)@,
            final(self).name() == old(self).name(),
    {
        Ok(())
    }

    /// The tagged map: the variant's name under `"type"`, the map of all
    /// that was collected under `"values"`.
    pub fn end(self) -> (map: Result<WireValue, SerializationError>)
        ensures
            result_model(map) == Ok::<SpecValue, SpecSerializationError>(
                tagged(self.name(), VALUES@, SpecValue::MapValue(self@)),
            ),
    {
        proof {
            lemma_reserved_names_differ();
        }
        Ok(tag(self.name, VALUES, WireValue::MapValue(self.fields)))
    }
}

} // verus!
