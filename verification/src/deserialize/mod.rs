//! The decoder: from wire values back to values.

pub mod error;
pub mod shaped;

use crate::deserialize::error::{outcome, DeserializationError, SpecDeserializationError};
use crate::firestore::{
    distinct_keys, has_key, index_of, lemma_view_array, lookup, timestamp_decoding,
    timestamp_encoding, view_values, FieldMap, SpecFields, SpecValue, WireValue,
};
use crate::{TYPE, VALUE, VALUES};
use vstd::prelude::*;
use vstd::string::StrSliceExecFns;

verus! {

/// The decoder for one wire value. Each method reads the value as one kind
/// of target and gives what it holds, or says why it cannot.
pub struct ValueDeserializer<'de>(pub &'de WireValue);

/// The items of an array value that are still to be read.
pub struct ArrayValueSeq<'de> {
    values: &'de [WireValue],
    position: usize,
}

/// The bytes of a bytes value that are still to be read, each as one element.
pub struct BytesSeq<'de> {
    bytes: &'de [u8],
    position: usize,
}

/// The entries of a map value that are still to be read, key before value.
pub struct MapValueSeq<'de> {
    fields: &'de FieldMap,
    position: usize,
    next_value: Option<&'de WireValue>,
}

/// A variant that came as a tagged map: its name and its payload.
pub struct Enum<'de> {
    typ: &'de str,
    value: &'de WireValue,
}

/// Where the elements of a sequence target are read from.
pub enum SeqSource<'de> {
    /// The items of an array value.
    Values(ArrayValueSeq<'de>),
    /// The bytes of a bytes value.
    Bytes(BytesSeq<'de>),
}

/// Where a sum-type target is read from.
pub enum EnumSource<'de> {
    /// A string: the name of a variant without payload.
    Unit(&'de str),
    /// A tagged map: the name of a variant and its payload.
    Tagged(Enum<'de>),
}

impl<'de> View for ArrayValueSeq<'de> {
    type V = Seq<SpecValue>;

    /// The items that are still to be read.
    closed spec fn view(&self) -> Seq<SpecValue> {
        view_values(self.values@).skip(self.position as int)
    }
}

impl<'de> ArrayValueSeq<'de> {
    #[verifier::type_invariant]
    spec fn within_bounds(&self) -> bool {
        self.position <= self.values@.len()
    }

    /// All of `values` is still to be read.
    pub fn new(values: &'de [WireValue]) -> (seq: ArrayValueSeq<'de>)
        ensures
            seq@ == view_values(values@),
    {
        let seq = ArrayValueSeq { values, position: 0 };
        assert(seq@ =~= view_values(values@));
        seq
    }

    /// The next item, if one is left.
    pub fn next(&mut self) -> (item: Option<&'de WireValue>)
        ensures
            match item {
                Some(value) => old(self)@.len() > 0 && value@ == old(self)@[0] && final(self)@
                    == old(self)@.skip(1),
                None => old(self)@.len() == 0 && final(self)@ == old(self)@,
            },
    {
        proof {
            use_type_invariant(&*self);
        }
        if self.position < self.values.len() {
            let value = &self.values[self.position];
            self.position = self.position + 1;
            assert(self@ =~= old(self)@.skip(1));
            Some(value)
        } else {
            None
        }
    }
}

impl<'de> View for BytesSeq<'de> {
    type V = Seq<u8>;

    /// The bytes that are still to be read.
    closed spec fn view(&self) -> Seq<u8> {
        self.bytes@.skip(self.position as int)
    }
}

impl<'de> BytesSeq<'de> {
    #[verifier::type_invariant]
    spec fn within_bounds(&self) -> bool {
        self.position <= self.bytes@.len()
    }

    /// All of `bytes` is still to be read.
    pub fn new(bytes: &'de [u8]) -> (seq: BytesSeq<'de>)
        ensures
            seq@ == bytes@,
    {
        let seq = BytesSeq { bytes, position: 0 };
        assert(seq@ =~= bytes@);
        seq
    }

    /// The next byte, if one is left.
    pub fn next(&mut self) -> (item: Option<u8>)
        ensures
            match item {
                Some(byte) => old(self)@.len() > 0 && byte == old(self)@[0] && final(self)@
                    == old(self)@.skip(1),
                None => old(self)@.len() == 0 && final(self)@ == old(self)@,
            },
    {
        proof {
            use_type_invariant(&*self);
        }
        if self.position < self.bytes.len() {
            let byte = self.bytes[self.position];
            self.position = self.position + 1;
            assert(self@ =~= old(self)@.skip(1));
            Some(byte)
        } else {
            None
        }
    }
}

impl<'de> View for MapValueSeq<'de> {
    type V = SpecFields;

    /// The entries whose keys are still to be read.
    closed spec fn view(&self) -> SpecFields {
        self.fields@.skip(self.position as int)
    }
}

impl<'de> MapValueSeq<'de> {
    #[verifier::type_invariant]
    spec fn within_bounds(&self) -> bool {
        self.position <= self.fields@.len()
    }

    /// All entries of the map, read or not.
    pub closed spec fn all(&self) -> SpecFields {
        self.fields@
    }

    /// The value of the entry whose key was read last, while it waits to be read.
    pub closed spec fn pending_value(&self) -> Option<SpecValue> {
        match self.next_value {
            Some(value) => Some(value@),
            None => None,
        }
    }

    /// All of `fields` is still to be read.
    pub fn new(fields: &'de FieldMap) -> (seq: MapValueSeq<'de>)
        ensures
            seq@ == fields@,
            seq.all() == fields@,
            seq.pending_value() is None,
    {
        let seq = MapValueSeq { fields, position: 0, next_value: None };
        assert(seq@ =~= fields@);
        seq
    }

    /// Whether a key was read whose value still waits.
    pub fn has_pending_value(&self) -> (waiting: bool)
        ensures
            waiting == self.pending_value() is Some,
    {
        self.next_value.is_some()
    }

    /// The key of the next entry, if one is left; its value then waits to be read.
    pub fn next_key(&mut self) -> (key: Option<&'de str>)
        ensures
            final(self).all() == old(self).all(),
            match key {
                Some(name) => old(self)@.len() > 0 && name@ == old(self)@[0].0 && final(self)@
                    == old(self)@.skip(1) && final(self).pending_value() == Some(old(self)@[0].1),
                None => old(self)@.len() == 0 && final(self)@ == old(self)@ && final(
                    self
                ).pending_value() == old(self).pending_value(),
            },
    {
        proof {
            use_type_invariant(&*self);
        }
        if self.position < self.fields.len() {
            let key = self.fields.key_at(self.position).as_str();
            self.next_value = Some(self.fields.value_at(self.position));
            self.position = self.position + 1;
            assert(self@ =~= old(self)@.skip(1));
            Some(key)
        } else {
            None
        }
    }

    /// The value that waits to be read, if one does: none does before a key
    /// was read, nor after its value was taken.
    pub fn next_value(&mut self) -> (value: Option<&'de WireValue>)
        ensures
            match value {
                Some(v) => old(self).pending_value() == Some(v@),
                None => old(self).pending_value() is None,
            },
            final(self).pending_value() is None,
            final(self)@ == old(self)@,
            final(self).all() == old(self).all(),
    {
        proof {
            use_type_invariant(&*self);
        }
        let pending = self.next_value;
        self.next_value = None;
        pending
    }

    /// The value stored under `name`, wherever in the map it stands.
    pub fn field(&self, name: &str) -> (found: Option<&'de WireValue>)
        ensures
            distinct_keys(self.all()),
            found is Some <==> has_key(self.all(), name@),
            found matches Some(value) ==> lookup(self.all(), name@) == Some(value@),
    {
        self.fields.get(name)
    }
}

impl<'de> Enum<'de> {
    /// The name of the variant.
    pub closed spec fn variant(&self) -> Seq<char> {
        self.typ@
    }

    /// The payload of the variant.
    pub closed spec fn payload(&self) -> SpecValue {
        self.value@
    }

    /// The variant named `typ` with the payload `value`.
    pub fn new(typ: &'de str, value: &'de WireValue) -> (access: Enum<'de>)
        ensures
            access.variant() == typ@,
            access.payload() == value@,
    {
        Enum { typ, value }
    }

    /// The name of the variant.
    pub fn variant_name(&self) -> (name: &'de str)
        ensures
            name@ == self.variant(),
    {
        self.typ
    }

    /// A variant without payload never comes as a tagged map: this is refused.
    pub fn unit_variant(self) -> (decoded: Result<(), DeserializationError>)
        ensures
            outcome(decoded) == Err::<(), SpecDeserializationError>(
                SpecDeserializationError::WrongType("unit_variant"@, self.payload()),
            ),
    {
        Err(DeserializationError::WrongType("unit_variant", self.value.clone()))
    }

    /// For a variant with one value as payload: the decoder of the payload.
    pub fn newtype_variant(self) -> (inner: ValueDeserializer<'de>)
        ensures
            inner.0@ == self.payload(),
    {
        ValueDeserializer(self.value)
    }

    /// For a variant with a tuple as payload: the items of the payload,
    /// which must be an array.
    pub fn tuple_variant(self, len: usize) -> (items: Result<
        ArrayValueSeq<'de>,
        DeserializationError,
    >)
        ensures
            match self.payload() {
                SpecValue::ArrayValue(values) => items matches Ok(seq) && seq@ == values,
                other => items matches Err(e) && e@ == SpecDeserializationError::WrongType(
                    "tuple"@,
                    other,
                ),
            },
    {
        ValueDeserializer(self.value).deserialize_tuple(len)
    }

    /// For a variant with a record as payload: the entries of the payload,
    /// which must be a map.
    pub fn struct_variant(self, fields: &[&str]) -> (entries: Result<
        MapValueSeq<'de>,
        DeserializationError,
    >)
        ensures
            match self.payload() {
                SpecValue::MapValue(fields) => entries matches Ok(seq) && seq@ == fields
                    && seq.all() == fields && seq.pending_value() is None,
                other => entries matches Err(e) && e@ == SpecDeserializationError::WrongType(
                    "map"@,
                    other,
                ),
            },
    {
        ValueDeserializer(self.value).deserialize_map()
    }
}

/// The payload of a tagged map: what stands under `"value"` or under
/// `"values"`; where both are there, the one that stands later.
pub open spec fn payload_of(fields: SpecFields) -> Option<SpecValue> {
    if has_key(fields, VALUE@) && has_key(fields, VALUES@) {
        if index_of(fields, VALUE@) < index_of(fields, VALUES@) {
            Some(fields[index_of(fields, VALUES@)].1)
        } else {
            Some(fields[index_of(fields, VALUE@)].1)
        }
    } else if has_key(fields, VALUE@) {
        Some(fields[index_of(fields, VALUE@)].1)
    } else if has_key(fields, VALUES@) {
        Some(fields[index_of(fields, VALUES@)].1)
    } else {
        None
    }
}

/// Each byte as the integer value that it is offered as.
pub open spec fn bytes_as_values(bytes: Seq<u8>) -> Seq<SpecValue> {
    Seq::new(bytes.len(), |i: int| SpecValue::IntegerValue(bytes[i] as i64))
}

impl<'de> View for SeqSource<'de> {
    type V = Seq<SpecValue>;

    /// The elements that are still to be read.
    open spec fn view(&self) -> Seq<SpecValue> {
        match self {
            SeqSource::Values(seq) => seq@,
            SeqSource::Bytes(seq) => bytes_as_values(seq@),
        }
    }
}

/// The mathematical model of an [`EnumSource`].
pub ghost enum SpecEnumSource {
    Unit(Seq<char>),
    Tagged(Seq<char>, SpecValue),
}

impl SpecEnumSource {
    /// The name of the variant.
    pub open spec fn variant(self) -> Seq<char> {
        match self {
            SpecEnumSource::Unit(name) => name,
            SpecEnumSource::Tagged(name, _) => name,
        }
    }
}

impl<'de> View for EnumSource<'de> {
    type V = SpecEnumSource;

    open spec fn view(&self) -> SpecEnumSource {
        match self {
            EnumSource::Unit(name) => SpecEnumSource::Unit(name@),
            EnumSource::Tagged(access) => SpecEnumSource::Tagged(
                access.variant(),
                access.payload(),
            ),
        }
    }
}

/// Where a sum type is read from in `value`: a string names a variant
/// without payload; a map must hold a string under `"type"`, and a payload.
pub open spec fn enum_source(value: SpecValue) -> Result<SpecEnumSource, SpecDeserializationError> {
    match value {
        SpecValue::StringValue(variant) => Ok(SpecEnumSource::Unit(variant)),
        SpecValue::MapValue(fields) => match lookup(fields, TYPE@) {
            None => Err(SpecDeserializationError::MissingField(TYPE@)),
            Some(SpecValue::StringValue(variant)) => match payload_of(fields) {
                None => Err(SpecDeserializationError::MissingField(VALUE@)),
                Some(payload) => Ok(SpecEnumSource::Tagged(variant, payload)),
            },
            Some(other) => Err(SpecDeserializationError::WrongType("string"@, other)),
        },
        other => Err(SpecDeserializationError::WrongType("enum"@, other)),
    }
}

/// What reading `value` as an integer between `low` and `high` gives.
pub open spec fn narrowed(value: SpecValue, target: Seq<char>, low: int, high: int) -> Result<
    int,
    SpecDeserializationError,
> {
    match value {
        SpecValue::IntegerValue(v) => if low <= v <= high {
            Ok(v as int)
        } else {
            Err(SpecDeserializationError::IntRange(target, v))
        },
        _ => Err(SpecDeserializationError::WrongType(target, value)),
    }
}

/// The model of what reading an integer returns.
pub open spec fn integer_outcome<T: Integer>(result: Result<T, DeserializationError>) -> Result<
    int,
    SpecDeserializationError,
> {
    match result {
        Ok(value) => Ok(value as int),
        Err(error) => Err(error@),
    }
}

impl<'de> ValueDeserializer<'de> {
    /// A target that says nothing of its shape cannot be read.
    pub fn deserialize_any(&self) -> (decoded: Result<(), DeserializationError>)
        ensures
            outcome(decoded) == Err::<(), SpecDeserializationError>(
                SpecDeserializationError::Unrepresentable("any"@),
            ),
    {
        Err(DeserializationError::Unrepresentable("any"))
    }

    pub fn deserialize_bool(&self) -> (decoded: Result<bool, DeserializationError>)
        ensures
            outcome(decoded) == match self.0@ {
                SpecValue::BooleanValue(v) => Ok(v),
                other => Err(SpecDeserializationError::WrongType("bool"@, other)),
            },
    {
        match self.0 {
            WireValue::BooleanValue(v) => Ok(*v),
            _ => Err(DeserializationError::WrongType("bool", self.0.clone())),
        }
    }

    pub fn deserialize_i8(&self) -> (decoded: Result<i8, DeserializationError>)
        ensures
            integer_outcome(decoded) == narrowed(self.0@, "i8"@, i8::MIN as int, i8::MAX as int),
    {
        match self.0 {
            WireValue::IntegerValue(v) => {
                if -128 <= *v && *v <= 127 {
                    Ok(*v as i8)
                } else {
                    Err(DeserializationError::IntRange("i8", *v))
                }
            },
            _ => Err(DeserializationError::WrongType("i8", self.0.clone())),
        }
    }

    pub fn deserialize_i16(&self) -> (decoded: Result<i16, DeserializationError>)
        ensures
            integer_outcome(decoded) == narrowed(
                self.0@,
                "i16"@,
                i16::MIN as int,
                i16::MAX as int,
            ),
    {
        match self.0 {
            WireValue::IntegerValue(v) => {
                if -32768 <= *v && *v <= 32767 {
                    Ok(*v as i16)
                } else {
                    Err(DeserializationError::IntRange("i16", *v))
                }
            },
            _ => Err(DeserializationError::WrongType("i16", self.0.clone())),
        }
    }

    pub fn deserialize_i32(&self) -> (decoded: Result<i32, DeserializationError>)
        ensures
            integer_outcome(decoded) == narrowed(
                self.0@,
                "i32"@,
                i32::MIN as int,
                i32::MAX as int,
            ),
    {
        match self.0 {
            WireValue::IntegerValue(v) => {
                if -2147483648 <= *v && *v <= 2147483647 {
                    Ok(*v as i32)
                } else {
                    Err(DeserializationError::IntRange("i32", *v))
                }
            },
            _ => Err(DeserializationError::WrongType("i32", self.0.clone())),
        }
    }

    pub fn deserialize_i64(&self) -> (decoded: Result<i64, DeserializationError>)
        ensures
            integer_outcome(decoded) == narrowed(
                self.0@,
                "i64"@,
                i64::MIN as int,
                i64::MAX as int,
            ),
    {
        match self.0 {
            WireValue::IntegerValue(v) => Ok(*v),
            _ => Err(DeserializationError::WrongType("i64", self.0.clone())),
        }
    }

    pub fn deserialize_u8(&self) -> (decoded: Result<u8, DeserializationError>)
        ensures
            integer_outcome(decoded) == narrowed(self.0@, "u8"@, 0, u8::MAX as int),
    {
        match self.0 {
            WireValue::IntegerValue(v) => {
                if 0 <= *v && *v <= 255 {
                    Ok(*v as u8)
                } else {
                    Err(DeserializationError::IntRange("u8", *v))
                }
            },
            _ => Err(DeserializationError::WrongType("u8", self.0.clone())),
        }
    }

    pub fn deserialize_u16(&self) -> (decoded: Result<u16, DeserializationError>)
        ensures
            integer_outcome(decoded) == narrowed(self.0@, "u16"@, 0, u16::MAX as int),
    {
        match self.0 {
            WireValue::IntegerValue(v) => {
                if 0 <= *v && *v <= 65535 {
                    Ok(*v as u16)
                } else {
                    Err(DeserializationError::IntRange("u16", *v))
                }
            },
            _ => Err(DeserializationError::WrongType("u16", self.0.clone())),
        }
    }

    pub fn deserialize_u32(&self) -> (decoded: Result<u32, DeserializationError>)
        ensures
            integer_outcome(decoded) == narrowed(self.0@, "u32"@, 0, u32::MAX as int),
    {
        match self.0 {
            WireValue::IntegerValue(v) => {
                if 0 <= *v && *v <= 4294967295 {
                    Ok(*v as u32)
                } else {
                    Err(DeserializationError::IntRange("u32", *v))
                }
            },
            _ => Err(DeserializationError::WrongType("u32", self.0.clone())),
        }
    }

    pub fn deserialize_u64(&self) -> (decoded: Result<u64, DeserializationError>)
        ensures
            integer_outcome(decoded) == narrowed(self.0@, "u64"@, 0, i64::MAX as int),
    {
        match self.0 {
            WireValue::IntegerValue(v) => {
                if 0 <= *v {
                    Ok(*v as u64)
                } else {
                    Err(DeserializationError::IntRange("u64", *v))
                }
            },
            _ => Err(DeserializationError::WrongType("u64", self.0.clone())),
        }
    }

    /// A double read for a single-precision target. What comes back is the
    /// bit pattern of the double as the wire holds it; to narrow it is left
    /// to the caller.
    pub fn deserialize_f32(&self) -> (decoded: Result<u64, DeserializationError>)
        ensures
            outcome(decoded) == match self.0@ {
                SpecValue::DoubleValue(bits) => Ok(bits),
                other => Err(SpecDeserializationError::WrongType("f32"@, other)),
            },
    {
        match self.0 {
            WireValue::DoubleValue(bits) => Ok(*bits),
            _ => Err(DeserializationError::WrongType("f32", self.0.clone())),
        }
    }

    /// A double, as its bit pattern.
    pub fn deserialize_f64(&self) -> (decoded: Result<u64, DeserializationError>)
        ensures
            outcome(decoded) == match self.0@ {
                SpecValue::DoubleValue(bits) => Ok(bits),
                other => Err(SpecDeserializationError::WrongType("f64"@, other)),
            },
    {
        match self.0 {
            WireValue::DoubleValue(bits) => Ok(*bits),
            _ => Err(DeserializationError::WrongType("f64", self.0.clone())),
        }
    }

    /// A character is read from a string of exactly one character.
    pub fn deserialize_char(&self) -> (decoded: Result<char, DeserializationError>)
        ensures
            outcome(decoded) == match self.0@ {
                SpecValue::StringValue(text) => if text.len() == 1 {
                    Ok(text[0])
                } else {
                    Err(SpecDeserializationError::WrongType("char"@, self.0@))
                },
                other => Err(SpecDeserializationError::WrongType("char"@, other)),
            },
    {
        match self.0 {
            WireValue::StringValue(v) => {
                if v.as_str().unicode_len() == 1 {
                    Ok(v.as_str().get_char(0))
                } else {
                    Err(DeserializationError::WrongType("char", self.0.clone()))
                }
            },
            _ => Err(DeserializationError::WrongType("char", self.0.clone())),
        }
    }

    pub fn deserialize_str(&self) -> (decoded: Result<&'de str, DeserializationError>)
        ensures
            match self.0@ {
                SpecValue::StringValue(text) => decoded matches Ok(s) && s@ == text,
                other => decoded matches Err(e) && e@ == SpecDeserializationError::WrongType(
                    "str"@,
                    other,
                ),
            },
    {
        match self.0 {
            WireValue::StringValue(v) => Ok(v.as_str()),
            _ => Err(DeserializationError::WrongType("str", self.0.clone())),
        }
    }

    pub fn deserialize_string(&self) -> (decoded: Result<String, DeserializationError>)
        ensures
            match self.0@ {
                SpecValue::StringValue(text) => decoded matches Ok(s) && s@ == text,
                other => decoded matches Err(e) && e@ == SpecDeserializationError::WrongType(
                    "string"@,
                    other,
                ),
            },
    {
        match self.0 {
            WireValue::StringValue(v) => Ok(v.clone()),
            _ => Err(DeserializationError::WrongType("string", self.0.clone())),
        }
    }

    /// Borrowed bytes are read from a bytes value and from nothing else.
    pub fn deserialize_bytes(&self) -> (decoded: Result<&'de [u8], DeserializationError>)
        ensures
            match self.0@ {
                SpecValue::BytesValue(bytes) => decoded matches Ok(b) && b@ == bytes,
                other => decoded matches Err(e) && e@ == SpecDeserializationError::WrongType(
                    "bytes"@,
                    other,
                ),
            },
    {
        match self.0 {
            WireValue::BytesValue(bytes) => Ok(bytes.as_slice()),
            _ => Err(DeserializationError::WrongType("bytes", self.0.clone())),
        }
    }

    /// A byte buffer is read from a bytes value as it is, and from a
    /// timestamp value as the binary layout of that timestamp.
    pub fn deserialize_byte_buf(&self) -> (decoded: Result<Vec<u8>, DeserializationError>)
        ensures
            match self.0@ {
                SpecValue::BytesValue(bytes) => decoded matches Ok(b) && b@ == bytes,
                SpecValue::TimestampValue(t) => decoded matches Ok(b) && b@ == timestamp_encoding(
                    t.seconds,
                    t.nanos,
                ) && timestamp_decoding(b@) == Some((t.seconds, t.nanos)),
                other => decoded matches Err(e) && e@ == SpecDeserializationError::WrongType(
                    "byte_buf"@,
                    other,
                ),
            },
    {
        match self.0 {
            WireValue::BytesValue(bytes) => {
                let copy = bytes.clone();
                assert(copy@ =~= bytes@);
                Ok(copy)
            },
            WireValue::TimestampValue(timestamp) => Ok(timestamp.to_bytes()),
            _ => Err(DeserializationError::WrongType("byte_buf", self.0.clone())),
        }
    }

    /// For an optional target: `None` where the wire holds null, otherwise
    /// the decoder with which to read what is present.
    pub fn deserialize_option(&self) -> (present: Option<ValueDeserializer<'de>>)
        ensures
            match self.0@ {
                SpecValue::NullValue => present is None,
                _ => present matches Some(inner) && inner.0 == self.0,
            },
    {
        match self.0 {
            WireValue::NullValue => None,
            _ => Some(ValueDeserializer(self.0)),
        }
    }

    /// The unit value cannot be read from the wire.
    pub fn deserialize_unit(&self) -> (decoded: Result<(), DeserializationError>)
        ensures
            outcome(decoded) == Err::<(), SpecDeserializationError>(
                SpecDeserializationError::Unrepresentable("unit"@),
            ),
    {
        Err(DeserializationError::Unrepresentable("unit"))
    }

    /// A struct without fields cannot be read from the wire.
    pub fn deserialize_unit_struct(&self, name: &str) -> (decoded: Result<
        (),
        DeserializationError,
    >)
        ensures
            outcome(decoded) == Err::<(), SpecDeserializationError>(
                SpecDeserializationError::Unrepresentable("unit_struct"@),
            ),
    {
        Err(DeserializationError::Unrepresentable("unit_struct"))
    }

    /// A wrapper is transparent: its content is read from the same value.
    pub fn deserialize_newtype_struct(&self, name: &str) -> (inner: ValueDeserializer<'de>)
        ensures
            inner.0 == self.0,
    {
        ValueDeserializer(self.0)
    }

    /// A sequence is read from an array value, item by item, and from a
    /// bytes value, byte by byte.
    pub fn deserialize_seq(&self) -> (source: Result<SeqSource<'de>, DeserializationError>)
        ensures
            match self.0@ {
                SpecValue::ArrayValue(values) => source matches Ok(SeqSource::Values(seq)) && seq@
                    == values,
                SpecValue::BytesValue(bytes) => source matches Ok(SeqSource::Bytes(seq)) && seq@
                    == bytes,
                other => source matches Err(e) && e@ == SpecDeserializationError::WrongType(
                    "seq"@,
                    other,
                ),
            },
    {
        match self.0 {
            WireValue::ArrayValue(values) => {
                proof {
                    lemma_view_array(*values);
                }
                Ok(SeqSource::Values(ArrayValueSeq::new(values.as_slice())))
            },
            WireValue::BytesValue(bytes) => Ok(SeqSource::Bytes(BytesSeq::new(bytes.as_slice()))),
            _ => Err(DeserializationError::WrongType("seq", self.0.clone())),
        }
    }

    /// A tuple is read from an array value and from nothing else.
    pub fn deserialize_tuple(&self, len: usize) -> (items: Result<
        ArrayValueSeq<'de>,
        DeserializationError,
    >)
        ensures
            match self.0@ {
                SpecValue::ArrayValue(values) => items matches Ok(seq) && seq@ == values,
                other => items matches Err(e) && e@ == SpecDeserializationError::WrongType(
                    "tuple"@,
                    other,
                ),
            },
    {
        match self.0 {
            WireValue::ArrayValue(values) => {
                proof {
                    lemma_view_array(*values);
                }
                Ok(ArrayValueSeq::new(values.as_slice()))
            },
            _ => Err(DeserializationError::WrongType("tuple", self.0.clone())),
        }
    }

    /// A tuple struct is read as a sequence is.
    pub fn deserialize_tuple_struct(&self, name: &str, len: usize) -> (source: Result<
        SeqSource<'de>,
        DeserializationError,
    >)
        ensures
            match self.0@ {
                SpecValue::ArrayValue(values) => source matches Ok(SeqSource::Values(seq)) && seq@
                    == values,
                SpecValue::BytesValue(bytes) => source matches Ok(SeqSource::Bytes(seq)) && seq@
                    == bytes,
                other => source matches Err(e) && e@ == SpecDeserializationError::WrongType(
                    "seq"@,
                    other,
                ),
            },
    {
        self.deserialize_seq()
    }

    /// A map is read from a map value and from nothing else.
    pub fn deserialize_map(&self) -> (entries: Result<MapValueSeq<'de>, DeserializationError>)
        ensures
            match self.0@ {
                SpecValue::MapValue(fields) => entries matches Ok(seq) && seq@ == fields
                    && seq.all() == fields && seq.pending_value() is None,
                other => entries matches Err(e) && e@ == SpecDeserializationError::WrongType(
                    "map"@,
                    other,
                ),
            },
    {
        match self.0 {
            WireValue::MapValue(fields) => Ok(MapValueSeq::new(fields)),
            _ => Err(DeserializationError::WrongType("map", self.0.clone())),
        }
    }

    /// A struct is read as a map is.
    pub fn deserialize_struct(&self, name: &str, fields: &[&str]) -> (entries: Result<
        MapValueSeq<'de>,
        DeserializationError,
    >)
        ensures
            match self.0@ {
                SpecValue::MapValue(fields) => entries matches Ok(seq) && seq@ == fields
                    && seq.all() == fields && seq.pending_value() is None,
                other => entries matches Err(e) && e@ == SpecDeserializationError::WrongType(
                    "map"@,
                    other,
                ),
            },
    {
        self.deserialize_map()
    }

    /// A sum type is read from a string, which names a variant without
    /// payload, and from a map that holds a string under `"type"` and a
    /// payload under `"value"` or `"values"`.
    pub fn deserialize_enum(&self, name: &str, variants: &[&str]) -> (source: Result<
        EnumSource<'de>,
        DeserializationError,
    >)
        ensures
            match enum_source(self.0@) {
                Ok(found) => source matches Ok(s) && s@ == found,
                Err(error) => source matches Err(e) && e@ == error,
            },
    {
        match self.0 {
            WireValue::StringValue(v) => Ok(EnumSource::Unit(v.as_str())),
            WireValue::MapValue(fields) => {
                let typ = match fields.get(TYPE) {
                    None => {
                        return Err(DeserializationError::MissingField(TYPE));
                    },
                    Some(WireValue::StringValue(v)) => v.as_str(),
                    Some(other) => {
                        return Err(DeserializationError::WrongType("string", other.clone()));
                    },
                };
                let single = fields.position(VALUE);
                let several = fields.position(VALUES);
                let at = match (single, several) {
                    (Some(i), Some(j)) => if i < j {
                        j
                    } else {
                        i
                    },
                    (Some(i), None) => i,
                    (None, Some(j)) => j,
                    (None, None) => {
                        return Err(DeserializationError::MissingField(VALUE));
                    },
                };
                Ok(EnumSource::Tagged(Enum::new(typ, fields.value_at(at))))
            },
            _ => Err(DeserializationError::WrongType("enum", self.0.clone())),
        }
    }

    /// A name that stands for a field or variant cannot be read from a wire value.
    pub fn deserialize_identifier(&self) -> (decoded: Result<(), DeserializationError>)
        ensures
            outcome(decoded) == Err::<(), SpecDeserializationError>(
                SpecDeserializationError::Unrepresentable("identifier"@),
            ),
    {
        Err(DeserializationError::Unrepresentable("identifier"))
    }

    /// A target that ignores what it is given is read from any value.
    pub fn deserialize_ignored_any(&self) -> (decoded: Result<(), DeserializationError>)
        ensures
            decoded is Ok,
    {
        Ok(())
    }
}

} // verus!
