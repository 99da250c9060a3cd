//! The accumulator for the entries of a map whose keys are values themselves.

use crate::datum::Datum;
use crate::firestore::{insert, FieldMap, SpecFields, SpecValue, WireValue};
use crate::serialize::error::{SerializationError, SpecSerializationError};
use crate::serialize::{result_model, serialized};
use vstd::prelude::*;

verus! {

/// Collects the entries of a map. Each entry comes in two steps: first its
/// key, then its value.
#[derive(Debug)]
pub struct KVMapBuilder {
    key: Option<String>,
    fields: FieldMap,
}

impl View for KVMapBuilder {
    type V = SpecFields;

    /// The entries stored so far.
    closed spec fn view(&self) -> SpecFields {
        self.fields@
    }
}

impl Default for KVMapBuilder {
    fn default() -> (builder: KVMapBuilder)
        ensures
            builder@ == Seq::<(Seq<char>, SpecValue)>::empty(),
            builder.pending_key() is None,
    {
        KVMapBuilder { key: None, fields: FieldMap::new() }
    }
}

impl KVMapBuilder {
    /// The key that was taken and still waits for its value.
    pub closed spec fn pending_key(&self) -> Option<Seq<char>> {
        match self.key {
            Some(key) => Some(key@),
            None => None,
        }
    }

    /// An empty accumulator with room for `capacity` entries.
    pub fn with_capacity(capacity: usize) -> (builder: KVMapBuilder)
        ensures
            builder@ == Seq::<(Seq<char>, SpecValue)>::empty(),
            builder.pending_key() is None,
    {
        KVMapBuilder { key: None, fields: FieldMap::with_capacity(capacity) }
    }

    /// Whether a key was taken that still waits for its value.
    pub fn has_pending_key(&self) -> (waiting: bool)
        ensures
            waiting == self.pending_key() is Some,
    {
        self.key.is_some()
    }

    /// Takes a key that is encoded already. Only a string is a key; anything
    /// else is refused and leaves the accumulator as it was.
    pub fn put_key(&mut self, key: WireValue) -> (done: Result<(), SerializationError>)
        ensures
            final(self)@ == old(self)@,
            match key@ {
                SpecValue::StringValue(text) => {
                    &&& done is Ok
                    &&& final(self).pending_key() == Some(text)
                },
                _ => {
                    &&& done matches Err(e) && e@ == SpecSerializationError::NonStringKey
                    &&& final(self).pending_key() == old(self).pending_key()
                },
            },
    {
        match key {
            WireValue::StringValue(text) => {
                self.key = Some(text);
                Ok(())
            },
            _ => Err(SerializationError::NonStringKey),
        }
    }

    /// Stores a value that is encoded already under the key that waits for it.
    pub fn put_value(&mut self, value: WireValue)
        requires
            old(self).pending_key() is Some,
        ensures
            final(self)@ == insert(old(self)@, old(self).pending_key()->0, value@),
            final(self).pending_key() is None,
    {
        let key = self.key.take().unwrap();
        self.fields.insert(key, value);
    }

    /// Lets go of the key that waits for its value, if one does.
    pub fn drop_key(&mut self)
        ensures
            final(self)@ == old(self)@,
            final(self).pending_key() is None,
    {
        self.key = None;
    }

    /// Encodes the key of the next entry and keeps it for the value to come.
    /// A key that fails to encode, or encodes to anything but a string,
    /// leaves the accumulator as it was.
    pub fn serialize_key(&mut self, key: &Datum) -> (done: Result<(), SerializationError>)
        ensures
            final(self)@ == old(self)@,
            match serialized(key@) {
                Ok(SpecValue::StringValue(text)) => {
                    &&& done is Ok
                    &&& final(self).pending_key() == Some(text)
                },
                Ok(_) => {
                    &&& done matches Err(e) && e@ == SpecSerializationError::NonStringKey
                    &&& final(self).pending_key() == old(self).pending_key()
                },
                Err(error) => {
                    &&& done matches Err(e) && e@ == error
                    &&& final(self).pending_key() == old(self).pending_key()
                },
            },
        decreases key, 1nat,
    {
        match key.serialize() {
            Ok(encoded) => self.put_key(encoded),
            Err(error) => Err(error),
        }
    }

    /// Encodes the value of the entry whose key was taken last and stores it
    /// under that key. The key is used up, whether or not the value encodes.
    pub fn serialize_value(&mut self, value: &Datum) -> (done: Result<(), SerializationError>)
        requires
            old(self).pending_key() is Some,
        ensures
            final(self).pending_key() is None,
            match serialized(value@) {
                Ok(encoded) => done is Ok && final(self)@ == insert(
                    old(self)@,
                    old(self).pending_key()->0,
                    encoded,
                ),
                Err(error) => done matches Err(e) && e@ == error && final(self)@ == old(self)@,
            },
        decreases value, 1nat,
    {
        let key = self.key.take().unwrap();
        match value.serialize() {
            Ok(encoded) => {
                self.fields.insert(key, encoded);
                Ok(())
            },
            Err(error) => Err(error),
        }
    }

    /// The map of all entries that were stored.
    pub fn end(self) -> (map: Result<WireValue, SerializationError>)
        ensures
            result_model(map) == Ok::<SpecValue, SpecSerializationError>(SpecValue::MapValue(self@)),
    {
        Ok(WireValue::MapValue(self.fields))
    }
}

} // verus!
