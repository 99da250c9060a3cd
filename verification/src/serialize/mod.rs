//! The encoder: from structured values to wire values.

pub mod array_builder;
pub mod error;
pub mod kv_map_builder;
pub mod map_builder;
pub mod named_array_builder;
pub mod named_map_builder;
pub mod timestamp_serializer;

use crate::datum::{
    data_model, entries_model, fields_model, Datum, Field, SpecDatum, SpecField,
};
use crate::firestore::{
    insert, timestamp_decoding, FieldMap, SpecFields, SpecValue, Timestamp, WireValue,
};
use crate::seq_facts::lemma_take_step;
use crate::serialize::array_builder::ArrayBuilder;
use crate::serialize::error::{SerializationError, SpecSerializationError};
use crate::serialize::kv_map_builder::KVMapBuilder;
use crate::serialize::map_builder::MapBuilder;
use crate::serialize::named_array_builder::NamedArrayBuilder;
use crate::serialize::named_map_builder::NamedMapBuilder;
use crate::serialize::timestamp_serializer::{NOT_BYTES_MESSAGE, UNDECODABLE_MESSAGE};
use crate::text::{char_to_string, str_eq};
use crate::{lemma_reserved_names_differ, DATE_MAGIC, TYPE, VALUE, VALUES};
use vstd::prelude::*;
use vstd::slice::slice_to_vec;

verus! {

/// The model of what an encoding step returns.
pub open spec fn result_model(result: Result<WireValue, SerializationError>) -> Result<
    SpecValue,
    SpecSerializationError,
> {
    match result {
        Ok(value) => Ok(value@),
        Err(error) => Err(error@),
    }
}

/// The map that stands for a variant with a payload: the variant's name
/// under `"type"`, then the payload under `key`.
pub open spec fn tagged(variant: Seq<char>, key: Seq<char>, payload: SpecValue) -> SpecValue {
    SpecValue::MapValue(seq![(TYPE@, SpecValue::StringValue(variant)), (key, payload)])
}

/// What a structured value encodes to.
pub open spec fn serialized(datum: SpecDatum) -> Result<SpecValue, SpecSerializationError>
    decreases datum,
{
    match datum {
        SpecDatum::Bool(v) => Ok(SpecValue::BooleanValue(v)),
        SpecDatum::I8(v) => Ok(SpecValue::IntegerValue(v as i64)),
        SpecDatum::I16(v) => Ok(SpecValue::IntegerValue(v as i64)),
        SpecDatum::I32(v) => Ok(SpecValue::IntegerValue(v as i64)),
        SpecDatum::I64(v) => Ok(SpecValue::IntegerValue(v)),
        SpecDatum::U8(v) => Ok(SpecValue::IntegerValue(v as i64)),
        SpecDatum::U16(v) => Ok(SpecValue::IntegerValue(v as i64)),
        SpecDatum::U32(v) => Ok(SpecValue::IntegerValue(v as i64)),
        SpecDatum::U64(v) => if v <= i64::MAX {
            Ok(SpecValue::IntegerValue(v as i64))
        } else {
            Err(SpecSerializationError::OutsideIntRange(v))
        },
        SpecDatum::F32(bits) => Ok(SpecValue::DoubleValue(bits)),
        SpecDatum::F64(bits) => Ok(SpecValue::DoubleValue(bits)),
        SpecDatum::Char(c) => Ok(SpecValue::StringValue(seq![c])),
        SpecDatum::Str(s) => Ok(SpecValue::StringValue(s)),
        SpecDatum::Bytes(b) => Ok(SpecValue::BytesValue(b)),
        SpecDatum::Absent => Ok(SpecValue::NullValue),
        SpecDatum::Present(inner) => serialized(*inner),
        SpecDatum::Unit => Err(SpecSerializationError::Unrepresentable("()"@)),
        SpecDatum::UnitStruct => Err(SpecSerializationError::Unrepresentable("unit_struct"@)),
        SpecDatum::UnitVariant(variant) => Ok(SpecValue::StringValue(variant)),
        SpecDatum::NewtypeStruct(name, inner) => if name == DATE_MAGIC@ {
            serialized_timestamp(*inner)
        } else {
            serialized(*inner)
        },
        SpecDatum::NewtypeVariant(variant, inner) => match serialized(*inner) {
            Ok(payload) => Ok(tagged(variant, VALUE@, payload)),
            Err(error) => Err(error),
        },
        SpecDatum::Sequence(items) => array_of(serialized_items(items)),
        SpecDatum::Tuple(items) => array_of(serialized_items(items)),
        SpecDatum::TupleStruct(items) => array_of(serialized_items(items)),
        SpecDatum::TupleVariant(variant, items) => match serialized_items(items) {
            Ok(values) => Ok(tagged(variant, VALUES@, SpecValue::ArrayValue(values))),
            Err(error) => Err(error),
        },
        SpecDatum::Mapping(entries) => match serialized_entries(entries) {
            Ok(fields) => Ok(SpecValue::MapValue(fields)),
            Err(error) => Err(error),
        },
        SpecDatum::Struct(fields) => match serialized_fields(fields) {
            Ok(fields) => Ok(SpecValue::MapValue(fields)),
            Err(error) => Err(error),
        },
        SpecDatum::StructVariant(variant, fields) => match serialized_fields(fields) {
            Ok(fields) => Ok(tagged(variant, VALUES@, SpecValue::MapValue(fields))),
            Err(error) => Err(error),
        },
    }
}

/// What the content of a wrapper named by the timestamp marker encodes to:
/// only bytes that are the binary layout of a timestamp are taken.
pub open spec fn serialized_timestamp(payload: SpecDatum) -> Result<
    SpecValue,
    SpecSerializationError,
> {
    match payload {
        SpecDatum::Bytes(bytes) => match timestamp_decoding(bytes) {
            Some((seconds, nanos)) => Ok(SpecValue::TimestampValue(Timestamp { seconds, nanos })),
            None => Err(SpecSerializationError::Message(UNDECODABLE_MESSAGE@)),
        },
        _ => Err(SpecSerializationError::Message(NOT_BYTES_MESSAGE@)),
    }
}

/// The array of the values that the items of an ordered aggregate encoded
/// to, or their first failure.
pub open spec fn array_of(values: Result<Seq<SpecValue>, SpecSerializationError>) -> Result<
    SpecValue,
    SpecSerializationError,
> {
    match values {
        Ok(values) => Ok(SpecValue::ArrayValue(values)),
        Err(error) => Err(error),
    }
}

/// What the items of an ordered aggregate encode to, in order; the first
/// failure among them otherwise.
pub open spec fn serialized_items(items: Seq<SpecDatum>) -> Result<
    Seq<SpecValue>,
    SpecSerializationError,
>
    decreases items,
{
    if items.len() == 0 {
        Ok(Seq::empty())
    } else {
        match serialized_items(items.drop_last()) {
            Err(error) => Err(error),
            Ok(values) => match serialized(items.last()) {
                Err(error) => Err(error),
                Ok(value) => Ok(values.push(value)),
            },
        }
    }
}

/// What the entries of a map encode to. Key and value of each entry are
/// encoded in turn; a key must encode to a string, under which the value is
/// then stored.
pub open spec fn serialized_entries(entries: Seq<(SpecDatum, SpecDatum)>) -> Result<
    SpecFields,
    SpecSerializationError,
>
    decreases entries,
{
    if entries.len() == 0 {
        Ok(Seq::empty())
    } else {
        match serialized_entries(entries.drop_last()) {
            Err(error) => Err(error),
            Ok(fields) => match serialized(entries.last().0) {
                Err(error) => Err(error),
                Ok(SpecValue::StringValue(key)) => match serialized(entries.last().1) {
                    Err(error) => Err(error),
                    Ok(value) => Ok(insert(fields, key, value)),
                },
                Ok(_) => Err(SpecSerializationError::NonStringKey),
            },
        }
    }
}

/// What named fields encode to. A field marked to be skipped leaves no trace.
pub open spec fn serialized_fields(fields: Seq<SpecField>) -> Result<
    SpecFields,
    SpecSerializationError,
>
    decreases fields,
{
    if fields.len() == 0 {
        Ok(Seq::empty())
    } else {
        match serialized_fields(fields.drop_last()) {
            Err(error) => Err(error),
            Ok(stored) => if fields.last().skip {
                Ok(stored)
            } else {
                match serialized(fields.last().value) {
                    Err(error) => Err(error),
                    Ok(value) => Ok(insert(stored, fields.last().name, value)),
                }
            },
        }
    }
}

/// Once a prefix of the items fails to encode, the whole fails in the same way.
pub proof fn lemma_items_prefix_fails(items: Seq<SpecDatum>, n: int)
    requires
        0 <= n <= items.len(),
        serialized_items(items.take(n)) is Err,
    ensures
        serialized_items(items) == serialized_items(items.take(n)),
    decreases items.len() - n,
{
    if n == items.len() {
        assert(items.take(n) =~= items);
    } else {
        lemma_take_step(items, n);
        lemma_items_prefix_fails(items, n + 1);
    }
}

/// Once a prefix of the entries fails to encode, the whole fails in the same way.
pub proof fn lemma_entries_prefix_fails(entries: Seq<(SpecDatum, SpecDatum)>, n: int)
    requires
        0 <= n <= entries.len(),
        serialized_entries(entries.take(n)) is Err,
    ensures
        serialized_entries(entries) == serialized_entries(entries.take(n)),
    decreases entries.len() - n,
{
    if n == entries.len() {
        assert(entries.take(n) =~= entries);
    } else {
        lemma_take_step(entries, n);
        lemma_entries_prefix_fails(entries, n + 1);
    }
}

/// Once a prefix of the fields fails to encode, the whole fails in the same way.
pub proof fn lemma_fields_prefix_fails(fields: Seq<SpecField>, n: int)
    requires
        0 <= n <= fields.len(),
        serialized_fields(fields.take(n)) is Err,
    ensures
        serialized_fields(fields) == serialized_fields(fields.take(n)),
    decreases fields.len() - n,
{
    if n == fields.len() {
        assert(fields.take(n) =~= fields);
    } else {
        lemma_take_step(fields, n);
        lemma_fields_prefix_fails(fields, n + 1);
    }
}

/// Builds the map that stands for a variant with a payload.
pub(crate) fn tag(variant: String, key: &str, payload: WireValue) -> (map: WireValue)
    requires
        key@ != TYPE@,
    ensures
        map@ == tagged(variant@, key@, payload@),
{
    let mut fields = FieldMap::with_capacity(2);
    fields.insert(TYPE.to_owned(), WireValue::StringValue(variant));
    assert(fields@ =~= seq![(TYPE@, SpecValue::StringValue(variant@))]);
    fields.insert(key.to_owned(), payload);
    assert(fields@ =~= seq![(TYPE@, SpecValue::StringValue(variant@)), (key@, payload@)]);
    WireValue::MapValue(fields)
}

/// The encoder. Each method takes one kind of shape and gives what it
/// encodes to, or the accumulator that collects its parts.
#[derive(Clone, Copy, Debug)]
pub struct ValueSerializer;

impl ValueSerializer {
    pub fn serialize_bool(self, v: bool) -> (encoded: Result<WireValue, SerializationError>)
        ensures
            result_model(encoded) == Ok::<SpecValue, SpecSerializationError>(SpecValue::BooleanValue(v)),
    {
        Ok(WireValue::BooleanValue(v))
    }

    pub fn serialize_i8(self, v: i8) -> (encoded: Result<WireValue, SerializationError>)
        ensures
            result_model(encoded) == Ok::<SpecValue, SpecSerializationError>(
                SpecValue::IntegerValue(v as i64),
            ),
    {
        Ok(WireValue::IntegerValue(v as i64))
    }

    pub fn serialize_i16(self, v: i16) -> (encoded: Result<WireValue, SerializationError>)
        ensures
            result_model(encoded) == Ok::<SpecValue, SpecSerializationError>(
                SpecValue::IntegerValue(v as i64),
            ),
    {
        Ok(WireValue::IntegerValue(v as i64))
    }

    pub fn serialize_i32(self, v: i32) -> (encoded: Result<WireValue, SerializationError>)
        ensures
            result_model(encoded) == Ok::<SpecValue, SpecSerializationError>(
                SpecValue::IntegerValue(v as i64),
            ),
    {
        Ok(WireValue::IntegerValue(v as i64))
    }

    pub fn serialize_i64(self, v: i64) -> (encoded: Result<WireValue, SerializationError>)
        ensures
            result_model(encoded) == Ok::<SpecValue, SpecSerializationError>(SpecValue::IntegerValue(v)),
    {
        Ok(WireValue::IntegerValue(v))
    }

    pub fn serialize_u8(self, v: u8) -> (encoded: Result<WireValue, SerializationError>)
        ensures
            result_model(encoded) == Ok::<SpecValue, SpecSerializationError>(
                SpecValue::IntegerValue(v as i64),
            ),
    {
        Ok(WireValue::IntegerValue(v as i64))
    }

    pub fn serialize_u16(self, v: u16) -> (encoded: Result<WireValue, SerializationError>)
        ensures
            result_model(encoded) == Ok::<SpecValue, SpecSerializationError>(
                SpecValue::IntegerValue(v as i64),
            ),
    {
        Ok(WireValue::IntegerValue(v as i64))
    }

    pub fn serialize_u32(self, v: u32) -> (encoded: Result<WireValue, SerializationError>)
        ensures
            result_model(encoded) == Ok::<SpecValue, SpecSerializationError>(
                SpecValue::IntegerValue(v as i64),
            ),
    {
        Ok(WireValue::IntegerValue(v as i64))
    }

    /// An unsigned 64-bit number is taken as far as a signed one can hold it.
    pub fn serialize_u64(self, v: u64) -> (encoded: Result<WireValue, SerializationError>)
        ensures
            result_model(encoded) == if v <= i64::MAX {
                Ok(SpecValue::IntegerValue(v as i64))
            } else {
                Err(SpecSerializationError::OutsideIntRange(v))
            },
    {
        if v <= 0x7fff_ffff_ffff_ffffu64 {
            Ok(WireValue::IntegerValue(v as i64))
        } else {
            Err(SerializationError::OutsideIntRange(v))
        }
    }

    /// A single-precision number, given as the bit pattern of the
    /// double-precision number equal to it: to widen it is left to the caller.
    pub fn serialize_f32(self, bits: u64) -> (encoded: Result<WireValue, SerializationError>)
        ensures
            result_model(encoded) == Ok::<SpecValue, SpecSerializationError>(
                SpecValue::DoubleValue(bits),
            ),
    {
        Ok(WireValue::DoubleValue(bits))
    }

    /// A double-precision number, given as its bit pattern.
    pub fn serialize_f64(self, bits: u64) -> (encoded: Result<WireValue, SerializationError>)
        ensures
            result_model(encoded) == Ok::<SpecValue, SpecSerializationError>(SpecValue::DoubleValue(bits)),
    {
        Ok(WireValue::DoubleValue(bits))
    }

    pub fn serialize_char(self, v: char) -> (encoded: Result<WireValue, SerializationError>)
        ensures
            result_model(encoded) == Ok::<SpecValue, SpecSerializationError>(
                SpecValue::StringValue(seq![v]),
            ),
    {
        Ok(WireValue::StringValue(char_to_string(v)))
    }

    pub fn serialize_str(self, v: &str) -> (encoded: Result<WireValue, SerializationError>)
        ensures
            result_model(encoded) == Ok::<SpecValue, SpecSerializationError>(SpecValue::StringValue(v@)),
    {
        Ok(WireValue::StringValue(v.to_owned()))
    }

    pub fn serialize_bytes(self, v: &[u8]) -> (encoded: Result<WireValue, SerializationError>)
        ensures
            result_model(encoded) == Ok::<SpecValue, SpecSerializationError>(SpecValue::BytesValue(v@)),
    {
        Ok(WireValue::BytesValue(slice_to_vec(v)))
    }

    pub fn serialize_none(self) -> (encoded: Result<WireValue, SerializationError>)
        ensures
            result_model(encoded) == Ok::<SpecValue, SpecSerializationError>(SpecValue::NullValue),
    {
        Ok(WireValue::NullValue)
    }

    /// An option that holds a value encodes to what the value encodes to.
    pub fn serialize_some(self, value: &Datum) -> (encoded: Result<WireValue, SerializationError>)
        ensures
            result_model(encoded) == serialized(value@),
        decreases value, 1nat,
    {
        value.serialize()
    }

    /// The unit value has no counterpart on the wire.
    pub fn serialize_unit(self) -> (encoded: Result<WireValue, SerializationError>)
        ensures
            result_model(encoded) == Err::<SpecValue, SpecSerializationError>(
                SpecSerializationError::Unrepresentable("()"@),
            ),
    {
        Err(SerializationError::Unrepresentable("()".to_owned()))
    }

    /// A struct without fields has no counterpart on the wire.
    pub fn serialize_unit_struct(self, name: &str) -> (encoded: Result<
        WireValue,
        SerializationError,
    >)
        ensures
            result_model(encoded) == Err::<SpecValue, SpecSerializationError>(
                SpecSerializationError::Unrepresentable("unit_struct"@),
            ),
    {
        Err(SerializationError::Unrepresentable("unit_struct".to_owned()))
    }

    /// A variant without payload encodes to its name.
    pub fn serialize_unit_variant(self, name: &str, variant_index: u32, variant: &str) -> (encoded:
        Result<WireValue, SerializationError>)
        ensures
            result_model(encoded) == Ok::<SpecValue, SpecSerializationError>(
                SpecValue::StringValue(variant@),
            ),
    {
        Ok(WireValue::StringValue(variant.to_owned()))
    }

    /// Whether a wrapper of this name marks its content as a timestamp.
    pub fn is_timestamp_marker(self, name: &str) -> (marked: bool)
        ensures
            marked == (name@ == DATE_MAGIC@),
    {
        str_eq(name, DATE_MAGIC)
    }

    /// A wrapper is transparent, but for the one named by the timestamp
    /// marker: its content is read as the bytes of a timestamp.
    pub fn serialize_newtype_struct(self, name: &str, value: &Datum) -> (encoded: Result<
        WireValue,
        SerializationError,
    >)
        ensures
            result_model(encoded) == serialized(
                SpecDatum::NewtypeStruct(name@, Box::new(value@)),
            ),
        decreases value, 1nat,
    {
        if self.is_timestamp_marker(name) {
            value.serialize_timestamp()
        } else {
            value.serialize()
        }
    }

    /// The tagged map for a variant with one value as payload, the payload
    /// being encoded already.
    pub fn newtype_variant(self, variant: &str, payload: WireValue) -> (map: WireValue)
        ensures
            map@ == tagged(variant@, VALUE@, payload@),
    {
        proof {
            lemma_reserved_names_differ();
        }
        tag(variant.to_owned(), VALUE, payload)
    }

    /// A variant with one value as payload encodes to a map of the variant's
    /// name and what the payload encodes to.
    pub fn serialize_newtype_variant(
        self,
        name: &str,
        variant_index: u32,
        variant: &str,
        value: &Datum,
    ) -> (encoded: Result<WireValue, SerializationError>)
        ensures
            result_model(encoded) == serialized(
                SpecDatum::NewtypeVariant(variant@, Box::new(value@)),
            ),
        decreases value, 1nat,
    {
        match value.serialize() {
            Ok(payload) => Ok(self.newtype_variant(variant, payload)),
            Err(error) => Err(error),
        }
    }

    pub fn serialize_seq(self, len: Option<usize>) -> (builder: Result<
        ArrayBuilder,
        SerializationError,
    >)
        ensures
            builder matches Ok(b) && b@ == Seq::<SpecValue>::empty(),
    {
        let builder = if let Some(len) = len {
            ArrayBuilder::with_capacity(len)
        } else {
            ArrayBuilder::default()
        };
        Ok(builder)
    }

    pub fn serialize_tuple(self, len: usize) -> (builder: Result<ArrayBuilder, SerializationError>)
        ensures
            builder matches Ok(b) && b@ == Seq::<SpecValue>::empty(),
    {
        Ok(ArrayBuilder::with_capacity(len))
    }

    pub fn serialize_tuple_struct(self, name: &str, len: usize) -> (builder: Result<
        ArrayBuilder,
        SerializationError,
    >)
        ensures
            builder matches Ok(b) && b@ == Seq::<SpecValue>::empty(),
    {
        Ok(ArrayBuilder::with_capacity(len))
    }

    pub fn serialize_tuple_variant(
        self,
        name: &str,
        variant_index: u32,
        variant: &str,
        len: usize,
    ) -> (builder: Result<NamedArrayBuilder, SerializationError>)
        ensures
            builder matches Ok(b) && b@ == Seq::<SpecValue>::empty() && b.name() == variant@,
    {
        Ok(NamedArrayBuilder::with_capacity(variant.to_owned(), len))
    }

    pub fn serialize_map(self, len: Option<usize>) -> (builder: Result<
        KVMapBuilder,
        SerializationError,
    >)
        ensures
            builder matches Ok(b) && b@ == Seq::<(Seq<char>, SpecValue)>::empty()
                && b.pending_key() is None,
    {
        if let Some(len) = len {
            Ok(KVMapBuilder::with_capacity(len))
        } else {
            Ok(KVMapBuilder::default())
        }
    }

    pub fn serialize_struct(self, name: &str, len: usize) -> (builder: Result<
        MapBuilder,
        SerializationError,
    >)
        ensures
            builder matches Ok(b) && b@ == Seq::<(Seq<char>, SpecValue)>::empty(),
    {
        Ok(MapBuilder::with_capacity(len))
    }

    pub fn serialize_struct_variant(
        self,
        name: &str,
        variant_index: u32,
        variant: &str,
        len: usize,
    ) -> (builder: Result<NamedMapBuilder, SerializationError>)
        ensures
            builder matches Ok(b) && b@ == Seq::<(Seq<char>, SpecValue)>::empty() && b.name()
                == variant@,
    {
        Ok(NamedMapBuilder::with_capacity(variant.to_owned(), len))
    }
}

impl Datum {
    /// Encodes this value.
    pub fn serialize(&self) -> (encoded: Result<WireValue, SerializationError>)
        ensures
            result_model(encoded) == serialized(self@),
        decreases self, 0nat,
    {
        let serializer = ValueSerializer;
        match self {
            Datum::Bool(v) => serializer.serialize_bool(*v),
            Datum::I8(v) => serializer.serialize_i8(*v),
            Datum::I16(v) => serializer.serialize_i16(*v),
            Datum::I32(v) => serializer.serialize_i32(*v),
            Datum::I64(v) => serializer.serialize_i64(*v),
            Datum::U8(v) => serializer.serialize_u8(*v),
            Datum::U16(v) => serializer.serialize_u16(*v),
            Datum::U32(v) => serializer.serialize_u32(*v),
            Datum::U64(v) => serializer.serialize_u64(*v),
            Datum::F32(bits) => serializer.serialize_f32(*bits),
            Datum::F64(bits) => serializer.serialize_f64(*bits),
            Datum::Char(c) => serializer.serialize_char(*c),
            Datum::Str(s) => serializer.serialize_str(s.as_str()),
            Datum::Bytes(b) => serializer.serialize_bytes(b.as_slice()),
            Datum::Absent => serializer.serialize_none(),
            Datum::Present(inner) => serializer.serialize_some(&**inner),
            Datum::Unit => serializer.serialize_unit(),
            Datum::UnitStruct => serializer.serialize_unit_struct(""),
            Datum::UnitVariant(variant) => serializer.serialize_unit_variant(
                "",
                0,
                variant.as_str(),
            ),
            Datum::NewtypeStruct(name, inner) => serializer.serialize_newtype_struct(
                name.as_str(),
                &**inner,
            ),
            Datum::NewtypeVariant(variant, inner) => serializer.serialize_newtype_variant(
                "",
                0,
                variant.as_str(),
                &**inner,
            ),
            Datum::Sequence(items) => {
                match serializer.serialize_seq(Some(items.len())) {
                    Ok(builder) => Self::serialize_items(items, builder),
                    Err(error) => Err(error),
                }
            },
            Datum::Tuple(items) => {
                match serializer.serialize_tuple(items.len()) {
                    Ok(builder) => Self::serialize_items(items, builder),
                    Err(error) => Err(error),
                }
            },
            Datum::TupleStruct(items) => {
                match serializer.serialize_tuple_struct("", items.len()) {
                    Ok(builder) => Self::serialize_items(items, builder),
                    Err(error) => Err(error),
                }
            },
            Datum::TupleVariant(variant, items) => {
                match serializer.serialize_tuple_variant("", 0, variant.as_str(), items.len()) {
                    Ok(builder) => Self::serialize_variant_items(items, builder),
                    Err(error) => Err(error),
                }
            },
            Datum::Mapping(entries) => {
                match serializer.serialize_map(Some(entries.len())) {
                    Ok(builder) => Self::serialize_entries(entries, builder),
                    Err(error) => Err(error),
                }
            },
            Datum::Struct(fields) => {
                match serializer.serialize_struct("", fields.len()) {
                    Ok(builder) => Self::serialize_fields(fields, builder),
                    Err(error) => Err(error),
                }
            },
            Datum::StructVariant(variant, fields) => {
                match serializer.serialize_struct_variant("", 0, variant.as_str(), fields.len()) {
                    Ok(builder) => Self::serialize_variant_fields(fields, builder),
                    Err(error) => Err(error),
                }
            },
        }
    }

    /// Hands the items of an ordered aggregate to their accumulator, one by
    /// one, and closes it.
    fn serialize_items(items: &Vec<Datum>, builder: ArrayBuilder) -> (encoded: Result<
        WireValue,
        SerializationError,
    >)
        requires
            builder@ == Seq::<SpecValue>::empty(),
        ensures
            result_model(encoded) == array_of(serialized_items(data_model(*items))),
        decreases items, 2nat,
    {
        let mut builder = builder;
        let ghost model = data_model(*items);
        let mut i: usize = 0;
        while i < items.len()
            invariant
                i <= items@.len(),
                model == data_model(*items),
                serialized_items(model.take(i as int)) == Ok::<
                    Seq<SpecValue>,
                    SpecSerializationError,
                >(builder@),
            decreases items@.len() - i,
        {
            proof {
                lemma_take_step(model, i as int);
            }
            match builder.serialize_element(&items[i]) {
                Ok(()) => {},
                Err(error) => {
                    proof {
                        lemma_items_prefix_fails(model, i + 1);
                    }
                    return Err(error);
                },
            }
            i += 1;
        }
        assert(model.take(i as int) =~= model);
        builder.end()
    }

    /// Hands the items of a tuple-shaped variant to their accumulator, one
    /// by one, and closes it.
    fn serialize_variant_items(items: &Vec<Datum>, builder: NamedArrayBuilder) -> (encoded: Result<
        WireValue,
        SerializationError,
    >)
        requires
            builder@ == Seq::<SpecValue>::empty(),
        ensures
            result_model(encoded) == match serialized_items(data_model(*items)) {
                Ok(values) => Ok(tagged(builder.name(), VALUES@, SpecValue::ArrayValue(values))),
                Err(error) => Err(error),
            },
        decreases items, 2nat,
    {
        let ghost name = builder.name();
        let mut builder = builder;
        let ghost model = data_model(*items);
        let mut i: usize = 0;
        while i < items.len()
            invariant
                i <= items@.len(),
                model == data_model(*items),
                builder.name() == name,
                serialized_items(model.take(i as int)) == Ok::<
                    Seq<SpecValue>,
                    SpecSerializationError,
                >(builder@),
            decreases items@.len() - i,
        {
            proof {
                lemma_take_step(model, i as int);
            }
            match builder.serialize_field(&items[i]) {
                Ok(()) => {},
                Err(error) => {
                    proof {
                        lemma_items_prefix_fails(model, i + 1);
                    }
                    return Err(error);
                },
            }
            i += 1;
        }
        assert(model.take(i as int) =~= model);
        builder.end()
    }

    /// Hands the entries of a map to their accumulator, key and value in
    /// turn, and closes it.
    fn serialize_entries(entries: &Vec<(Datum, Datum)>, builder: KVMapBuilder) -> (encoded: Result<
        WireValue,
        SerializationError,
    >)
        requires
            builder@ == Seq::<(Seq<char>, SpecValue)>::empty(),
        ensures
            result_model(encoded) == match serialized_entries(entries_model(*entries)) {
                Ok(fields) => Ok(SpecValue::MapValue(fields)),
                Err(error) => Err(error),
            },
        decreases entries, 2nat,
    {
        let mut builder = builder;
        let ghost model = entries_model(*entries);
        let mut i: usize = 0;
        while i < entries.len()
            invariant
                i <= entries@.len(),
                model == entries_model(*entries),
                serialized_entries(model.take(i as int)) == Ok::<
                    SpecFields,
                    SpecSerializationError,
                >(builder@),
            decreases entries@.len() - i,
        {
            proof {
                lemma_take_step(model, i as int);
            }
            match builder.serialize_key(&entries[i].0) {
                Ok(()) => {},
                Err(error) => {
                    proof {
                        lemma_entries_prefix_fails(model, i + 1);
                    }
                    return Err(error);
                },
            }
            match builder.serialize_value(&entries[i].1) {
                Ok(()) => {},
                Err(error) => {
                    proof {
                        lemma_entries_prefix_fails(model, i + 1);
                    }
                    return Err(error);
                },
            }
            i += 1;
        }
        assert(model.take(i as int) =~= model);
        builder.end()
    }

    /// Hands the fields of a struct to their accumulator, one by one, and
    /// closes it.
    fn serialize_fields(fields: &Vec<Field>, builder: MapBuilder) -> (encoded: Result<
        WireValue,
        SerializationError,
    >)
        requires
            builder@ == Seq::<(Seq<char>, SpecValue)>::empty(),
        ensures
            result_model(encoded) == match serialized_fields(fields_model(*fields)) {
                Ok(stored) => Ok(SpecValue::MapValue(stored)),
                Err(error) => Err(error),
            },
        decreases fields, 2nat,
    {
        let mut builder = builder;
        let ghost model = fields_model(*fields);
        let mut i: usize = 0;
        while i < fields.len()
            invariant
                i <= fields@.len(),
                model == fields_model(*fields),
                serialized_fields(model.take(i as int)) == Ok::<
                    SpecFields,
                    SpecSerializationError,
                >(builder@),
            decreases fields@.len() - i,
        {
            proof {
                lemma_take_step(model, i as int);
            }
            let field = &fields[i];
            let step = if field.skip {
                builder.skip_field(field.name.as_str())
            } else {
                builder.serialize_field(field.name.as_str(), &field.value)
            };
            match step {
                Ok(()) => {},
                Err(error) => {
                    proof {
                        lemma_fields_prefix_fails(model, i + 1);
                    }
                    return Err(error);
                },
            }
            i += 1;
        }
        assert(model.take(i as int) =~= model);
        builder.end()
    }

    /// Hands the fields of a record-shaped variant to their accumulator, one
    /// by one, and closes it.
    fn serialize_variant_fields(fields: &Vec<Field>, builder: NamedMapBuilder) -> (encoded: Result<
        WireValue,
        SerializationError,
    >)
        requires
            builder@ == Seq::<(Seq<char>, SpecValue)>::empty(),
        ensures
            result_model(encoded) == match serialized_fields(fields_model(*fields)) {
                Ok(stored) => Ok(tagged(builder.name(), VALUES@, SpecValue::MapValue(stored))),
                Err(error) => Err(error),
            },
        decreases fields, 2nat,
    {
        let ghost name = builder.name();
        let mut builder = builder;
        let ghost model = fields_model(*fields);
        let mut i: usize = 0;
        while i < fields.len()
            invariant
                i <= fields@.len(),
                model == fields_model(*fields),
                builder.name() == name,
                serialized_fields(model.take(i as int)) == Ok::<
                    SpecFields,
                    SpecSerializationError,
                >(builder@),
            decreases fields@.len() - i,
        {
            proof {
                lemma_take_step(model, i as int);
            }
            let field = &fields[i];
            let step = if field.skip {
                builder.skip_field(field.name.as_str())
            } else {
                builder.serialize_field(field.name.as_str(), &field.value)
            };
            match step {
                Ok(()) => {},
                Err(error) => {
                    proof {
                        lemma_fields_prefix_fails(model, i + 1);
                    }
                    return Err(error);
                },
            }
            i += 1;
        }
        assert(model.take(i as int) =~= model);
        builder.end()
    }
}

} // verus!
