//! The accumulator for the items of a sequence, a tuple or a tuple struct.

use crate::datum::Datum;
use crate::firestore::{lemma_view_array, view_values, SpecValue, WireValue};
use crate::serialize::error::{SerializationError, SpecSerializationError};
use crate::serialize::{result_model, serialized};
use vstd::prelude::*;

verus! {

/// Collects the encoded items of an ordered aggregate, in order.
#[derive(Debug)]
pub struct ArrayBuilder {
    values: Vec<WireValue>,
}

impl View for ArrayBuilder {
    type V = Seq<SpecValue>;

    closed spec fn view(&self) -> Seq<SpecValue> {
        view_values(self.values@)
    }
}

impl Default for ArrayBuilder {
    fn default() -> (builder: ArrayBuilder)
        ensures
            builder@ == Seq::<SpecValue>::empty(),
    {
        let builder = ArrayBuilder { values: Vec::new() };
        assert(builder@ =~= Seq::<SpecValue>::empty());
        builder
    }
}

impl ArrayBuilder {
    /// An empty accumulator with room for `capacity` items.
    pub fn with_capacity(capacity: usize) -> (builder: ArrayBuilder)
        ensures
            builder@ == Seq::<SpecValue>::empty(),
    {
        let builder = ArrayBuilder { values: Vec::with_capacity(capacity) };
        assert(builder@ =~= Seq::<SpecValue>::empty());
        builder
    }

    /// Appends a value that is encoded already.
    pub fn push(&mut self, value: WireValue)
        ensures
            final(self)@ == old(self)@.push(value@),
    {
        self.values.push(value);
        assert(self@ =~= old(self)@.push(value@));
    }

    /// Encodes the next item of a sequence or tuple and appends it. A failure
    /// leaves the accumulator as it was.
    pub fn serialize_element(&mut self, value: &Datum) -> (done: Result<(), SerializationError>)
        ensures
            match serialized(value@) {
                Ok(encoded) => done is Ok && final(self)@ == old(self)@.push(encoded),
                Err(error) => done matches Err(e) && e@ == error && final(self)@ == old(self)@,
            },
        decreases value, 1nat,
    {
        match value.serialize() {
            Ok(encoded) => {
                self.push(encoded);
                Ok(())
            },
            Err(error) => Err(error),
        }
    }

    /// Encodes the next field of a tuple struct and appends it. A failure
    /// leaves the accumulator as it was.
    pub fn serialize_field(&mut self, value: &Datum) -> (done: Result<(), SerializationError>)
        ensures
            match serialized(value@) {
                Ok(encoded) => done is Ok && final(self)@ == old(self)@.push(encoded),
                Err(error) => done matches Err(e) && e@ == error && final(self)@ == old(self)@,
            },
        decreases value, 1nat,
    {
        match value.serialize() {
            Ok(encoded) => {
                self.push(encoded);
                Ok(())
            },
            Err(error) => Err(error),
        }
    }

    /// The array of all that was collected.
    pub fn end(self) -> (array: Result<WireValue, SerializationError>)
        ensures
            result_model(array) == Ok::<SpecValue, SpecSerializationError>(SpecValue::ArrayValue(self@)),
    {
        proof {
            lemma_view_array(self.values);
        }
        Ok(WireValue::ArrayValue(self.values))
    }
}

} // verus!
