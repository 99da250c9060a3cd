//! The accumulator for a variant whose payload is a tuple.

use crate::datum::Datum;
use crate::firestore::{lemma_view_array, view_values, SpecValue, WireValue};
use crate::serialize::error::{SerializationError, SpecSerializationError};
use crate::serialize::{result_model, serialized, tag, tagged};
use crate::{lemma_reserved_names_differ, VALUES};
use vstd::prelude::*;

verus! {

/// Collects the encoded items of a tuple-shaped variant, and keeps the
/// variant's name to tag them with.
#[derive(Debug)]
pub struct NamedArrayBuilder {
    name: String,
    values: Vec<WireValue>,
}

impl View for NamedArrayBuilder {
    type V = Seq<SpecValue>;

    /// The items collected so far.
    closed spec fn view(&self) -> Seq<SpecValue> {
        view_values(self.values@)
    }
}

impl NamedArrayBuilder {
    /// The name of the variant.
    pub closed spec fn name(&self) -> Seq<char> {
        self.name@
    }

    /// An empty accumulator for the variant `name`, with room for `capacity` items.
    pub fn with_capacity(name: String, capacity: usize) -> (builder: NamedArrayBuilder)
        ensures
            builder@ == Seq::<SpecValue>::empty(),
            builder.name() == name@,
    {
        let builder = NamedArrayBuilder { name, values: Vec::with_capacity(capacity) };
        assert(builder@ =~= Seq::<SpecValue>::empty());
        builder
    }

    /// Appends a value that is encoded already.
    pub fn push(&mut self, value: WireValue)
        ensures
            final(self)@ == old(self)@.push(value@),
            final(self).name() == old(self).name(),
    {
        self.values.push(value);
        assert(self@ =~= old(self)@.push(value@));
    }

    /// Encodes the next item of the payload and appends it. A failure leaves
    /// the accumulator as it was.
    pub fn serialize_field(&mut self, value: &Datum) -> (done: Result<(), SerializationError>)
        ensures
            final(self).name() == old(self).name(),
            match serialized(value@) {
                Ok(encoded) => done is Ok && final(self)@ == old(self)@.push(encoded),
                Err(error) => done matches Err(e) && e@ == error && final(self)@ == old(self)@,
            },
        decreases value, 1nat,
    {
        match value.serialize() {
            Ok(encoded) => {
                self.push(encoded);
                Ok(())
            },
            Err(error) => Err(error),
        }
    }

    /// The tagged map: the variant's name under `"type"`, the array of all
    /// that was collected under `"values"`.
    pub fn end(self) -> (map: Result<WireValue, SerializationError>)
        ensures
            result_model(map) == Ok::<SpecValue, SpecSerializationError>(
                tagged(self.name(), VALUES@, SpecValue::ArrayValue(self@)),
            ),
    {
        proof {
            lemma_view_array(self.values);
            lemma_reserved_names_differ();
        }
        Ok(tag(self.name, VALUES, WireValue::ArrayValue(self.values)))
    }
}

} // verus!
