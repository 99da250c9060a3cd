//! Decoding by the shape of the target: the wire value is read as the shape
//! asks, part by part.

use crate::datum::{data_model, entries_model, fields_model, Datum, Field, SpecDatum, SpecField};
use crate::deserialize::error::{DeserializationError, SpecDeserializationError};
use crate::deserialize::{
    bytes_as_values, enum_source, narrowed, ArrayValueSeq, BytesSeq, EnumSource, MapValueSeq,
    SeqSource, SpecEnumSource, ValueDeserializer,
};
use crate::firestore::{lookup, timestamp_encoding, SpecFields, SpecValue, WireValue};
use crate::seq_facts::lemma_take_step;
use crate::shape::{
    field_shapes_model, shapes_model, variants_model, FieldShape, PayloadShape, Shape,
    SpecFieldShape, SpecPayloadShape, SpecShape, SpecVariantShape, VariantShape,
};
use crate::text::str_eq;
use vstd::prelude::*;
use vstd::string::StringExecFns;

verus! {

/// The message for a value of a map that is asked for before its key.
pub const VALUE_BEFORE_KEY_MESSAGE: &'static str = "Shouldn't visit value before key.";

/// The message for a tuple that asks for more elements than the value holds.
pub const INVALID_LENGTH_MESSAGE: &'static str = "invalid length";

/// The message for a variant with one value as payload that came as a bare name.
pub const UNIT_FOR_NEWTYPE_MESSAGE: &'static str =
    "invalid type: unit variant, expected newtype variant";

/// The message for a variant with a tuple as payload that came as a bare name.
pub const UNIT_FOR_TUPLE_MESSAGE: &'static str =
    "invalid type: unit variant, expected tuple variant";

/// The message for a variant with a record as payload that came as a bare name.
pub const UNIT_FOR_STRUCT_MESSAGE: &'static str =
    "invalid type: unit variant, expected struct variant";

/// The failure for a struct whose field `name` is not in the map.
pub open spec fn missing_field(name: Seq<char>) -> SpecDeserializationError {
    SpecDeserializationError::Message("missing field `"@ + name + "`"@)
}

/// The failure for a variant name that the target does not have.
pub open spec fn unknown_variant(name: Seq<char>) -> SpecDeserializationError {
    SpecDeserializationError::Message("unknown variant `"@ + name + "`"@)
}

/// The model of what decoding returns.
pub open spec fn decoded_model(result: Result<Datum, DeserializationError>) -> Result<
    SpecDatum,
    SpecDeserializationError,
> {
    match result {
        Ok(datum) => Ok(datum@),
        Err(error) => Err(error@),
    }
}

/// The place of the first variant named `name`, if there is one.
pub open spec fn find_variant(variants: Seq<SpecVariantShape>, name: Seq<char>) -> Option<int>
    decreases variants.len(),
{
    if variants.len() == 0 {
        None
    } else {
        match find_variant(variants.drop_last(), name) {
            Some(i) => Some(i),
            None => if variants.last().name == name {
                Some(variants.len() - 1)
            } else {
                None
            },
        }
    }
}

/// A variant that is found stands within the variants and has the name asked for.
pub proof fn lemma_find_variant(variants: Seq<SpecVariantShape>, name: Seq<char>)
    ensures
        match find_variant(variants, name) {
            Some(i) => 0 <= i < variants.len() && variants[i].name == name && forall|j: int|
                0 <= j < i ==> (#[trigger] variants[j]).name != name,
            None => forall|j: int| 0 <= j < variants.len() ==> (#[trigger] variants[j]).name != name,
        },
    decreases variants.len(),
{
    if variants.len() > 0 {
        lemma_find_variant(variants.drop_last(), name);
        assert forall|j: int| 0 <= j < variants.len() - 1 implies variants[j]
            == variants.drop_last()[j] by {}
    }
}

/// What a wire value decodes to when it is read as a scalar of the kind `shape`.
pub open spec fn deserialized_scalar(value: SpecValue, shape: SpecShape) -> Result<
    SpecDatum,
    SpecDeserializationError,
> {
    match shape {
        SpecShape::Bool => match value {
            SpecValue::BooleanValue(v) => Ok(SpecDatum::Bool(v)),
            _ => Err(SpecDeserializationError::WrongType("bool"@, value)),
        },
        SpecShape::I8 => match narrowed(value, "i8"@, i8::MIN as int, i8::MAX as int) {
            Ok(v) => Ok(SpecDatum::I8(v as i8)),
            Err(error) => Err(error),
        },
        SpecShape::I16 => match narrowed(value, "i16"@, i16::MIN as int, i16::MAX as int) {
            Ok(v) => Ok(SpecDatum::I16(v as i16)),
            Err(error) => Err(error),
        },
        SpecShape::I32 => match narrowed(value, "i32"@, i32::MIN as int, i32::MAX as int) {
            Ok(v) => Ok(SpecDatum::I32(v as i32)),
            Err(error) => Err(error),
        },
        SpecShape::I64 => match narrowed(value, "i64"@, i64::MIN as int, i64::MAX as int) {
            Ok(v) => Ok(SpecDatum::I64(v as i64)),
            Err(error) => Err(error),
        },
        SpecShape::U8 => match narrowed(value, "u8"@, 0, u8::MAX as int) {
            Ok(v) => Ok(SpecDatum::U8(v as u8)),
            Err(error) => Err(error),
        },
        SpecShape::U16 => match narrowed(value, "u16"@, 0, u16::MAX as int) {
            Ok(v) => Ok(SpecDatum::U16(v as u16)),
            Err(error) => Err(error),
        },
        SpecShape::U32 => match narrowed(value, "u32"@, 0, u32::MAX as int) {
            Ok(v) => Ok(SpecDatum::U32(v as u32)),
            Err(error) => Err(error),
        },
        SpecShape::U64 => match narrowed(value, "u64"@, 0, i64::MAX as int) {
            Ok(v) => Ok(SpecDatum::U64(v as u64)),
            Err(error) => Err(error),
        },
        SpecShape::F32 => match value {
            SpecValue::DoubleValue(bits) => Ok(SpecDatum::F32(bits)),
            _ => Err(SpecDeserializationError::WrongType("f32"@, value)),
        },
        SpecShape::F64 => match value {
            SpecValue::DoubleValue(bits) => Ok(SpecDatum::F64(bits)),
            _ => Err(SpecDeserializationError::WrongType("f64"@, value)),
        },
        SpecShape::Char => match value {
            SpecValue::StringValue(text) => if text.len() == 1 {
                Ok(SpecDatum::Char(text[0]))
            } else {
                Err(SpecDeserializationError::WrongType("char"@, value))
            },
            _ => Err(SpecDeserializationError::WrongType("char"@, value)),
        },
        SpecShape::Str => match value {
            SpecValue::StringValue(text) => Ok(SpecDatum::Str(text)),
            _ => Err(SpecDeserializationError::WrongType("str"@, value)),
        },
        SpecShape::Text => match value {
            SpecValue::StringValue(text) => Ok(SpecDatum::Str(text)),
            _ => Err(SpecDeserializationError::WrongType("string"@, value)),
        },
        SpecShape::Bytes => match value {
            SpecValue::BytesValue(bytes) => Ok(SpecDatum::Bytes(bytes)),
            _ => Err(SpecDeserializationError::WrongType("bytes"@, value)),
        },
        SpecShape::ByteBuf => match value {
            SpecValue::BytesValue(bytes) => Ok(SpecDatum::Bytes(bytes)),
            SpecValue::TimestampValue(t) => Ok(
                SpecDatum::Bytes(timestamp_encoding(t.seconds, t.nanos)),
            ),
            _ => Err(SpecDeserializationError::WrongType("byte_buf"@, value)),
        },
        SpecShape::Unit => Err(SpecDeserializationError::Unrepresentable("unit"@)),
        SpecShape::UnitStruct => Err(SpecDeserializationError::Unrepresentable("unit_struct"@)),
        SpecShape::Identifier => Err(SpecDeserializationError::Unrepresentable("identifier"@)),
        SpecShape::IgnoredAny => Ok(SpecDatum::Unit),
        _ => Err(SpecDeserializationError::Unrepresentable("any"@)),
    }
}

/// What a wire value decodes to when it is read as `shape`.
pub open spec fn deserialized(value: SpecValue, shape: SpecShape) -> Result<
    SpecDatum,
    SpecDeserializationError,
>
    decreases shape, 1nat, 0nat,
{
    match shape {
        SpecShape::Optional(inner) => match value {
            SpecValue::NullValue => Ok(SpecDatum::Absent),
            _ => match deserialized(value, *inner) {
                Ok(datum) => Ok(SpecDatum::Present(Box::new(datum))),
                Err(error) => Err(error),
            },
        },
        SpecShape::NewtypeStruct(name, inner) => match deserialized(value, *inner) {
            Ok(datum) => Ok(SpecDatum::NewtypeStruct(name, Box::new(datum))),
            Err(error) => Err(error),
        },
        SpecShape::Sequence(element) => match value {
            SpecValue::ArrayValue(items) => match deserialized_each(items, *element) {
                Ok(data) => Ok(SpecDatum::Sequence(data)),
                Err(error) => Err(error),
            },
            SpecValue::BytesValue(bytes) => match deserialized_each(
                bytes_as_values(bytes),
                *element,
            ) {
                Ok(data) => Ok(SpecDatum::Sequence(data)),
                Err(error) => Err(error),
            },
            _ => Err(SpecDeserializationError::WrongType("seq"@, value)),
        },
        SpecShape::Tuple(shapes) => match value {
            SpecValue::ArrayValue(items) => match deserialized_tuple(items, shapes) {
                Ok(data) => Ok(SpecDatum::Tuple(data)),
                Err(error) => Err(error),
            },
            _ => Err(SpecDeserializationError::WrongType("tuple"@, value)),
        },
        SpecShape::TupleStruct(shapes) => match value {
            SpecValue::ArrayValue(items) => match deserialized_tuple(items, shapes) {
                Ok(data) => Ok(SpecDatum::TupleStruct(data)),
                Err(error) => Err(error),
            },
            SpecValue::BytesValue(bytes) => match deserialized_tuple(
                bytes_as_values(bytes),
                shapes,
            ) {
                Ok(data) => Ok(SpecDatum::TupleStruct(data)),
                Err(error) => Err(error),
            },
            _ => Err(SpecDeserializationError::WrongType("seq"@, value)),
        },
        SpecShape::Mapping(key, entry) => match value {
            SpecValue::MapValue(fields) => match deserialized_entries(fields, shape) {
                Ok(entries) => Ok(SpecDatum::Mapping(entries)),
                Err(error) => Err(error),
            },
            _ => Err(SpecDeserializationError::WrongType("map"@, value)),
        },
        SpecShape::Struct(field_shapes) => match value {
            SpecValue::MapValue(fields) => match deserialized_fields(fields, field_shapes) {
                Ok(data) => Ok(SpecDatum::Struct(data)),
                Err(error) => Err(error),
            },
            _ => Err(SpecDeserializationError::WrongType("map"@, value)),
        },
        SpecShape::Enum(variants) => match enum_source(value) {
            Err(error) => Err(error),
            Ok(source) => match find_variant(variants, source.variant()) {
                None => Err(unknown_variant(source.variant())),
                Some(i) => {
                    proof {
                        lemma_find_variant(variants, source.variant());
                    }
                    deserialized_variant(source, variants[i].payload)
                },
            },
        },
        _ => deserialized_scalar(value, shape),
    }
}

/// What the source of a sum type decodes to when its variant carries `payload`.
pub open spec fn deserialized_variant(source: SpecEnumSource, payload: SpecPayloadShape) -> Result<
    SpecDatum,
    SpecDeserializationError,
>
    decreases payload, 1nat, 0nat,
{
    match source {
        SpecEnumSource::Unit(name) => match payload {
            SpecPayloadShape::Unit => Ok(SpecDatum::UnitVariant(name)),
            SpecPayloadShape::Newtype(_) => Err(
                SpecDeserializationError::Message(UNIT_FOR_NEWTYPE_MESSAGE@),
            ),
            SpecPayloadShape::Tuple(_) => Err(
                SpecDeserializationError::Message(UNIT_FOR_TUPLE_MESSAGE@),
            ),
            SpecPayloadShape::Struct(_) => Err(
                SpecDeserializationError::Message(UNIT_FOR_STRUCT_MESSAGE@),
            ),
        },
        SpecEnumSource::Tagged(name, value) => match payload {
            SpecPayloadShape::Unit => Err(
                SpecDeserializationError::WrongType("unit_variant"@, value),
            ),
            SpecPayloadShape::Newtype(inner) => match deserialized(value, *inner) {
                Ok(datum) => Ok(SpecDatum::NewtypeVariant(name, Box::new(datum))),
                Err(error) => Err(error),
            },
            SpecPayloadShape::Tuple(shapes) => match value {
                SpecValue::ArrayValue(items) => match deserialized_tuple(items, shapes) {
                    Ok(data) => Ok(SpecDatum::TupleVariant(name, data)),
                    Err(error) => Err(error),
                },
                _ => Err(SpecDeserializationError::WrongType("tuple"@, value)),
            },
            SpecPayloadShape::Struct(field_shapes) => match value {
                SpecValue::MapValue(fields) => match deserialized_fields(fields, field_shapes) {
                    Ok(data) => Ok(SpecDatum::StructVariant(name, data)),
                    Err(error) => Err(error),
                },
                _ => Err(SpecDeserializationError::WrongType("map"@, value)),
            },
        },
    }
}

/// What the items of a sequence decode to when each is read as `element`:
/// the decoded items in order, or the first failure among them.
pub open spec fn deserialized_each(items: Seq<SpecValue>, element: SpecShape) -> Result<
    Seq<SpecDatum>,
    SpecDeserializationError,
>
    decreases element, 2nat, items.len(),
{
    if items.len() == 0 {
        Ok(Seq::empty())
    } else {
        match deserialized_each(items.drop_last(), element) {
            Err(error) => Err(error),
            Ok(data) => match deserialized(items.last(), element) {
                Err(error) => Err(error),
                Ok(datum) => Ok(data.push(datum)),
            },
        }
    }
}

/// What the first items of an array decode to when they are read as the
/// elements of a tuple, one shape each. Items beyond the last shape are not
/// looked at; a shape without an item is a failure.
pub open spec fn deserialized_tuple(items: Seq<SpecValue>, shapes: Seq<SpecShape>) -> Result<
    Seq<SpecDatum>,
    SpecDeserializationError,
>
    decreases shapes, 0nat, 0nat,
{
    if shapes.len() == 0 {
        Ok(Seq::empty())
    } else {
        match deserialized_tuple(items, shapes.drop_last()) {
            Err(error) => Err(error),
            Ok(data) => if items.len() < shapes.len() {
                Err(SpecDeserializationError::Message(INVALID_LENGTH_MESSAGE@))
            } else {
                match deserialized(items[shapes.len() - 1], shapes.last()) {
                    Err(error) => Err(error),
                    Ok(datum) => Ok(data.push(datum)),
                }
            },
        }
    }
}

/// What the entries of a map decode to when they are read as the entries of
/// the mapping `shape`: each name as a key, each value as a value, in the
/// order in which the map holds them.
pub open spec fn deserialized_entries(fields: SpecFields, shape: SpecShape) -> Result<
    Seq<(SpecDatum, SpecDatum)>,
    SpecDeserializationError,
>
    decreases shape, 0nat, fields.len(),
{
    if fields.len() == 0 {
        Ok(Seq::empty())
    } else {
        match shape {
            SpecShape::Mapping(key_shape, value_shape) => match deserialized_entries(
                fields.drop_last(),
                shape,
            ) {
                Err(error) => Err(error),
                Ok(entries) => match deserialized(
                    SpecValue::StringValue(fields.last().0),
                    *key_shape,
                ) {
                    Err(error) => Err(error),
                    Ok(key) => match deserialized(fields.last().1, *value_shape) {
                        Err(error) => Err(error),
                        Ok(value) => Ok(entries.push((key, value))),
                    },
                },
            },
            _ => Ok(Seq::empty()),
        }
    }
}

/// What a map decodes to when it is read as the fields of a struct: for each
/// field of the target, in the target's order, what stands under its name.
/// A field that the map lacks is a failure; what the map holds beyond the
/// target's fields is not looked at.
pub open spec fn deserialized_fields(fields: SpecFields, shapes: Seq<SpecFieldShape>) -> Result<
    Seq<SpecField>,
    SpecDeserializationError,
>
    decreases shapes, 0nat, 0nat,
{
    if shapes.len() == 0 {
        Ok(Seq::empty())
    } else {
        match deserialized_fields(fields, shapes.drop_last()) {
            Err(error) => Err(error),
            Ok(data) => match lookup(fields, shapes.last().name) {
                None => Err(missing_field(shapes.last().name)),
                Some(value) => match deserialized(value, shapes.last().shape) {
                    Err(error) => Err(error),
                    Ok(datum) => Ok(
                        data.push(
                            SpecField { name: shapes.last().name, value: datum, skip: false },
                        ),
                    ),
                },
            },
        }
    }
}

/// Once the first shapes of a tuple fail to be read, the whole tuple fails in the same way.
pub proof fn lemma_tuple_prefix_fails(items: Seq<SpecValue>, shapes: Seq<SpecShape>, n: int)
    requires
        0 <= n <= shapes.len(),
        deserialized_tuple(items, shapes.take(n)) is Err,
    ensures
        deserialized_tuple(items, shapes) == deserialized_tuple(items, shapes.take(n)),
    decreases shapes.len() - n,
{
    if n == shapes.len() {
        assert(shapes.take(n) =~= shapes);
    } else {
        lemma_take_step(shapes, n);
        lemma_tuple_prefix_fails(items, shapes, n + 1);
    }
}

/// Once the first items of a sequence fail to be read, the whole sequence fails in the same way.
pub proof fn lemma_each_prefix_fails(items: Seq<SpecValue>, element: SpecShape, n: int)
    requires
        0 <= n <= items.len(),
        deserialized_each(items.take(n), element) is Err,
    ensures
        deserialized_each(items, element) == deserialized_each(items.take(n), element),
    decreases items.len() - n,
{
    if n == items.len() {
        assert(items.take(n) =~= items);
    } else {
        lemma_take_step(items, n);
        lemma_each_prefix_fails(items, element, n + 1);
    }
}

/// Once the first entries of a map fail to be read, the whole map fails in the same way.
pub proof fn lemma_entries_prefix_fail(fields: SpecFields, shape: SpecShape, n: int)
    requires
        0 <= n <= fields.len(),
        shape is Mapping,
        deserialized_entries(fields.take(n), shape) is Err,
    ensures
        deserialized_entries(fields, shape) == deserialized_entries(fields.take(n), shape),
    decreases fields.len() - n,
{
    if n == fields.len() {
        assert(fields.take(n) =~= fields);
    } else {
        lemma_take_step(fields, n);
        lemma_entries_prefix_fail(fields, shape, n + 1);
    }
}

/// Once the first fields of a struct fail to be read, the whole struct fails in the same way.
pub proof fn lemma_fields_prefix_fail(fields: SpecFields, shapes: Seq<SpecFieldShape>, n: int)
    requires
        0 <= n <= shapes.len(),
        deserialized_fields(fields, shapes.take(n)) is Err,
    ensures
        deserialized_fields(fields, shapes) == deserialized_fields(fields, shapes.take(n)),
    decreases shapes.len() - n,
{
    if n == shapes.len() {
        assert(shapes.take(n) =~= shapes);
    } else {
        lemma_take_step(shapes, n);
        lemma_fields_prefix_fail(fields, shapes, n + 1);
    }
}

/// What reading the next element of a sequence comes to: with nothing left,
/// `None` and no change; otherwise the first element is used up and decoded
/// as `seed`.
pub open spec fn element_read(
    before: Seq<SpecValue>,
    after: Seq<SpecValue>,
    seed: SpecShape,
    read: Result<Option<Datum>, DeserializationError>,
) -> bool {
    if before.len() == 0 {
        read matches Ok(None) && after == before
    } else {
        after == before.skip(1) && match deserialized(before[0], seed) {
            Ok(datum) => read matches Ok(Some(d)) && d@ == datum,
            Err(error) => read matches Err(e) && e@ == error,
        }
    }
}

impl<'de> ArrayValueSeq<'de> {
    /// Reads the next item as `seed`, if one is left.
    pub fn next_element_seed(&mut self, seed: &Shape) -> (read: Result<
        Option<Datum>,
        DeserializationError,
    >)
        ensures
            element_read(old(self)@, final(self)@, seed@, read),
        decreases seed, 1nat, 1nat,
    {
        match self.next() {
            Some(value) => match seed.deserialize(&ValueDeserializer(value)) {
                Ok(datum) => Ok(Some(datum)),
                Err(error) => Err(error),
            },
            None => Ok(None),
        }
    }
}

impl<'de> BytesSeq<'de> {
    /// Reads the next byte as `seed`, if one is left. The byte is offered as
    /// the integer that it is.
    pub fn next_element_seed(&mut self, seed: &Shape) -> (read: Result<
        Option<Datum>,
        DeserializationError,
    >)
        ensures
            element_read(bytes_as_values(old(self)@), bytes_as_values(final(self)@), seed@, read),
        decreases seed, 1nat, 1nat,
    {
        match self.next() {
            Some(byte) => {
                assert(bytes_as_values(self@) =~= bytes_as_values(old(self)@).skip(1));
                let value = WireValue::IntegerValue(byte as i64);
                match seed.deserialize(&ValueDeserializer(&value)) {
                    Ok(datum) => Ok(Some(datum)),
                    Err(error) => Err(error),
                }
            },
            None => Ok(None),
        }
    }
}

impl<'de> SeqSource<'de> {
    /// Reads the next element as `seed`, if one is left.
    pub fn next_element_seed(&mut self, seed: &Shape) -> (read: Result<
        Option<Datum>,
        DeserializationError,
    >)
        ensures
            element_read(old(self)@, final(self)@, seed@, read),
        decreases seed, 1nat, 2nat,
    {
        match self {
            SeqSource::Values(seq) => seq.next_element_seed(seed),
            SeqSource::Bytes(seq) => seq.next_element_seed(seed),
        }
    }
}

impl<'de> MapValueSeq<'de> {
    /// Reads the name of the next entry as `seed`, if an entry is left. The
    /// name is offered as the string that it is; the entry's value then
    /// waits to be read.
    pub fn next_key_seed(&mut self, seed: &Shape) -> (read: Result<
        Option<Datum>,
        DeserializationError,
    >)
        ensures
            final(self).all() == old(self).all(),
            if old(self)@.len() == 0 {
                read matches Ok(None) && final(self)@ == old(self)@ && final(self).pending_value()
                    == old(self).pending_value()
            } else {
                final(self)@ == old(self)@.skip(1) && final(self).pending_value() == Some(
                    old(self)@[0].1,
                ) && match deserialized(SpecValue::StringValue(old(self)@[0].0), seed@) {
                    Ok(datum) => read matches Ok(Some(d)) && d@ == datum,
                    Err(error) => read matches Err(e) && e@ == error,
                }
            },
        decreases seed, 1nat, 1nat,
    {
        match self.next_key() {
            Some(name) => {
                let key = WireValue::StringValue(name.to_owned());
                match seed.deserialize(&ValueDeserializer(&key)) {
                    Ok(datum) => Ok(Some(datum)),
                    Err(error) => Err(error),
                }
            },
            None => Ok(None),
        }
    }

    /// Reads as `seed` the value that waits to be read. To ask for a value
    /// before its key is refused.
    pub fn next_value_seed(&mut self, seed: &Shape) -> (read: Result<Datum, DeserializationError>)
        ensures
            final(self).all() == old(self).all(),
            final(self)@ == old(self)@,
            final(self).pending_value() is None,
            decoded_model(read) == match old(self).pending_value() {
                Some(value) => deserialized(value, seed@),
                None => Err(SpecDeserializationError::Message(VALUE_BEFORE_KEY_MESSAGE@)),
            },
        decreases seed, 1nat, 1nat,
    {
        match self.next_value() {
            Some(value) => seed.deserialize(&ValueDeserializer(value)),
            None => Err(DeserializationError::custom(VALUE_BEFORE_KEY_MESSAGE)),
        }
    }
}

impl PayloadShape {
    /// Reads the source of a sum type as the variant that carries this payload.
    pub fn deserialize(&self, source: EnumSource) -> (decoded: Result<
        Datum,
        DeserializationError,
    >)
        ensures
            decoded_model(decoded) == deserialized_variant(source@, self@),
        decreases self, 1nat, 0nat,
    {
        match source {
            EnumSource::Unit(name) => match self {
                PayloadShape::Unit => Ok(Datum::UnitVariant(name.to_owned())),
                PayloadShape::Newtype(_) => Err(
                    DeserializationError::custom(UNIT_FOR_NEWTYPE_MESSAGE),
                ),
                PayloadShape::Tuple(_) => Err(DeserializationError::custom(UNIT_FOR_TUPLE_MESSAGE)),
                PayloadShape::Struct(_) => Err(
                    DeserializationError::custom(UNIT_FOR_STRUCT_MESSAGE),
                ),
            },
            EnumSource::Tagged(access) => {
                let name = access.variant_name().to_owned();
                match self {
                    PayloadShape::Unit => match access.unit_variant() {
                        Ok(()) => Ok(Datum::UnitVariant(name)),
                        Err(error) => Err(error),
                    },
                    PayloadShape::Newtype(inner) => {
                        let payload = access.newtype_variant();
                        match inner.deserialize(&payload) {
                            Ok(datum) => Ok(Datum::NewtypeVariant(name, Box::new(datum))),
                            Err(error) => Err(error),
                        }
                    },
                    PayloadShape::Tuple(shapes) => match access.tuple_variant(shapes.len()) {
                        Ok(items) => match Shape::read_tuple(SeqSource::Values(items), shapes) {
                            Ok(data) => Ok(Datum::TupleVariant(name, data)),
                            Err(error) => Err(error),
                        },
                        Err(error) => Err(error),
                    },
                    PayloadShape::Struct(fields) => match access.struct_variant(
                        field_names(fields).as_slice(),
                    ) {
                        Ok(entries) => match Shape::read_fields(&entries, fields) {
                            Ok(data) => Ok(Datum::StructVariant(name, data)),
                            Err(error) => Err(error),
                        },
                        Err(error) => Err(error),
                    },
                }
            },
        }
    }
}

impl Shape {
    /// Reads a wire value as this shape.
    pub fn deserialize(&self, deserializer: &ValueDeserializer) -> (decoded: Result<
        Datum,
        DeserializationError,
    >)
        ensures
            decoded_model(decoded) == deserialized(deserializer.0@, self@),
        decreases self, 1nat, 0nat,
    {
        match self {
            Shape::Optional(inner) => match deserializer.deserialize_option() {
                None => Ok(Datum::Absent),
                Some(present) => match inner.deserialize(&present) {
                    Ok(datum) => Ok(Datum::Present(Box::new(datum))),
                    Err(error) => Err(error),
                },
            },
            Shape::NewtypeStruct(name, inner) => {
                let content = deserializer.deserialize_newtype_struct(name.as_str());
                match inner.deserialize(&content) {
                    Ok(datum) => Ok(Datum::NewtypeStruct(name.clone(), Box::new(datum))),
                    Err(error) => Err(error),
                }
            },
            Shape::Sequence(element) => match deserializer.deserialize_seq() {
                Ok(source) => match Self::read_each(source, element) {
                    Ok(data) => Ok(Datum::Sequence(data)),
                    Err(error) => Err(error),
                },
                Err(error) => Err(error),
            },
            Shape::Tuple(shapes) => match deserializer.deserialize_tuple(shapes.len()) {
                Ok(items) => match Self::read_tuple(SeqSource::Values(items), shapes) {
                    Ok(data) => Ok(Datum::Tuple(data)),
                    Err(error) => Err(error),
                },
                Err(error) => Err(error),
            },
            Shape::TupleStruct(shapes) => match deserializer.deserialize_tuple_struct(
                "",
                shapes.len(),
            ) {
                Ok(source) => match Self::read_tuple(source, shapes) {
                    Ok(data) => Ok(Datum::TupleStruct(data)),
                    Err(error) => Err(error),
                },
                Err(error) => Err(error),
            },
            Shape::Mapping(_, _) => match deserializer.deserialize_map() {
                Ok(entries) => match self.read_entries(entries) {
                    Ok(data) => Ok(Datum::Mapping(data)),
                    Err(error) => Err(error),
                },
                Err(error) => Err(error),
            },
            Shape::Struct(fields) => match deserializer.deserialize_struct(
                "",
                field_names(fields).as_slice(),
            ) {
                Ok(entries) => match Self::read_fields(&entries, fields) {
                    Ok(data) => Ok(Datum::Struct(data)),
                    Err(error) => Err(error),
                },
                Err(error) => Err(error),
            },
            Shape::Enum(variants) => match deserializer.deserialize_enum(
                "",
                variant_names(variants).as_slice(),
            ) {
                Ok(source) => {
                    let name = match &source {
                        EnumSource::Unit(name) => *name,
                        EnumSource::Tagged(access) => access.variant_name(),
                    };
                    match find(variants, name) {
                        Some(i) => {
                            assert(decreases_to!(self => self->Enum_0@[i as int].payload));
                            variants[i].payload.deserialize(source)
                        },
                        None => Err(
                            DeserializationError::Message(
                                String::from_str("unknown variant `").concat(name).concat("`"),
                            ),
                        ),
                    }
                },
                Err(error) => Err(error),
            },
            _ => self.deserialize_scalar(deserializer),
        }
    }

    /// Reads a wire value as this shape, where the shape is that of a scalar.
    fn deserialize_scalar(&self, deserializer: &ValueDeserializer) -> (decoded: Result<
        Datum,
        DeserializationError,
    >)
        ensures
            decoded_model(decoded) == deserialized_scalar(deserializer.0@, self@),
    {
        match self {
            Shape::Bool => match deserializer.deserialize_bool() {
                Ok(v) => Ok(Datum::Bool(v)),
                Err(error) => Err(error),
            },
            Shape::I8 => match deserializer.deserialize_i8() {
                Ok(v) => Ok(Datum::I8(v)),
                Err(error) => Err(error),
            },
            Shape::I16 => match deserializer.deserialize_i16() {
                Ok(v) => Ok(Datum::I16(v)),
                Err(error) => Err(error),
            },
            Shape::I32 => match deserializer.deserialize_i32() {
                Ok(v) => Ok(Datum::I32(v)),
                Err(error) => Err(error),
            },
            Shape::I64 => match deserializer.deserialize_i64() {
                Ok(v) => Ok(Datum::I64(v)),
                Err(error) => Err(error),
            },
            Shape::U8 => match deserializer.deserialize_u8() {
                Ok(v) => Ok(Datum::U8(v)),
                Err(error) => Err(error),
            },
            Shape::U16 => match deserializer.deserialize_u16() {
                Ok(v) => Ok(Datum::U16(v)),
                Err(error) => Err(error),
            },
            Shape::U32 => match deserializer.deserialize_u32() {
                Ok(v) => Ok(Datum::U32(v)),
                Err(error) => Err(error),
            },
            Shape::U64 => match deserializer.deserialize_u64() {
                Ok(v) => Ok(Datum::U64(v)),
                Err(error) => Err(error),
            },
            Shape::F32 => match deserializer.deserialize_f32() {
                Ok(bits) => Ok(Datum::F32(bits)),
                Err(error) => Err(error),
            },
            Shape::F64 => match deserializer.deserialize_f64() {
                Ok(bits) => Ok(Datum::F64(bits)),
                Err(error) => Err(error),
            },
            Shape::Char => match deserializer.deserialize_char() {
                Ok(c) => Ok(character(c)),
                Err(error) => Err(error),
            },
            Shape::Str => match deserializer.deserialize_str() {
                Ok(text) => Ok(Datum::Str(text.to_owned())),
                Err(error) => Err(error),
            },
            Shape::Text => match deserializer.deserialize_string() {
                Ok(text) => Ok(Datum::Str(text)),
                Err(error) => Err(error),
            },
            Shape::Bytes => match deserializer.deserialize_bytes() {
                Ok(bytes) => Ok(Datum::Bytes(vstd::slice::slice_to_vec(bytes))),
                Err(error) => Err(error),
            },
            Shape::ByteBuf => match deserializer.deserialize_byte_buf() {
                Ok(bytes) => Ok(Datum::Bytes(bytes)),
                Err(error) => Err(error),
            },
            Shape::Unit => match deserializer.deserialize_unit() {
                Ok(()) => Ok(Datum::Unit),
                Err(error) => Err(error),
            },
            Shape::UnitStruct => match deserializer.deserialize_unit_struct("") {
                Ok(()) => Ok(Datum::UnitStruct),
                Err(error) => Err(error),
            },
            Shape::Identifier => match deserializer.deserialize_identifier() {
                Ok(()) => Ok(Datum::Unit),
                Err(error) => Err(error),
            },
            Shape::IgnoredAny => match deserializer.deserialize_ignored_any() {
                Ok(()) => Ok(Datum::Unit),
                Err(error) => Err(error),
            },
            _ => match deserializer.deserialize_any() {
                Ok(()) => Ok(Datum::Unit),
                Err(error) => Err(error),
            },
        }
    }

    /// Reads every element that is left in `source` as `element`.
    fn read_each(source: SeqSource, element: &Shape) -> (decoded: Result<
        Vec<Datum>,
        DeserializationError,
    >)
        ensures
            match deserialized_each(source@, element@) {
                Ok(data) => decoded matches Ok(d) && data_model(d) == data,
                Err(error) => decoded matches Err(e) && e@ == error,
            },
        decreases element, 1nat, 3nat,
    {
        let ghost all = source@;
        let mut rest = source;
        let mut data: Vec<Datum> = Vec::new();
        let ghost mut k: int = 0;
        assert(data_model(data) =~= Seq::<SpecDatum>::empty());
        assert(all.skip(0) =~= all);
        loop
            invariant
                0 <= k <= all.len(),
                all == source@,
                rest@ == all.skip(k),
                deserialized_each(all.take(k), element@) == Ok::<
                    Seq<SpecDatum>,
                    SpecDeserializationError,
                >(data_model(data)),
            decreases all.len() - k,
        {
            let ghost before = data_model(data);
            match rest.next_element_seed(element) {
                Ok(Some(datum)) => {
                    proof {
                        lemma_take_step(all, k);
                    }
                    data.push(datum);
                    proof {
                        assert(data_model(data) =~= before.push(datum@));
                        assert(all.skip(k).skip(1) =~= all.skip(k + 1));
                        k = k + 1;
                    }
                },
                Ok(None) => {
                    assert(all.take(k) =~= all);
                    return Ok(data);
                },
                Err(error) => {
                    proof {
                        lemma_take_step(all, k);
                        lemma_each_prefix_fails(all, element@, k + 1);
                    }
                    return Err(error);
                },
            }
        }
    }

    /// Reads one element from `source` for each of `shapes`, in order.
    pub(crate) fn read_tuple(source: SeqSource, shapes: &Vec<Shape>) -> (decoded: Result<
        Vec<Datum>,
        DeserializationError,
    >)
        ensures
            match deserialized_tuple(source@, shapes_model(*shapes)) {
                Ok(data) => decoded matches Ok(d) && data_model(d) == data,
                Err(error) => decoded matches Err(e) && e@ == error,
            },
        decreases shapes, 0nat, 0nat,
    {
        let ghost all = source@;
        let ghost model = shapes_model(*shapes);
        let mut rest = source;
        let mut data: Vec<Datum> = Vec::with_capacity(shapes.len());
        let mut j: usize = 0;
        assert(data_model(data) =~= Seq::<SpecDatum>::empty());
        assert(all.skip(0) =~= all);
        while j < shapes.len()
            invariant
                j <= shapes@.len(),
                j <= all.len(),
                all == source@,
                model == shapes_model(*shapes),
                rest@ == all.skip(j as int),
                deserialized_tuple(all, model.take(j as int)) == Ok::<
                    Seq<SpecDatum>,
                    SpecDeserializationError,
                >(data_model(data)),
            decreases shapes@.len() - j,
        {
            let ghost before = data_model(data);
            proof {
                lemma_take_step(model, j as int);
            }
            match rest.next_element_seed(&shapes[j]) {
                Ok(Some(datum)) => {
                    data.push(datum);
                    proof {
                        assert(data_model(data) =~= before.push(datum@));
                        assert(all.skip(j as int).skip(1) =~= all.skip(j + 1));
                    }
                },
                Ok(None) => {
                    proof {
                        lemma_tuple_prefix_fails(all, model, j + 1);
                    }
                    return Err(DeserializationError::custom(INVALID_LENGTH_MESSAGE));
                },
                Err(error) => {
                    proof {
                        lemma_tuple_prefix_fails(all, model, j + 1);
                    }
                    return Err(error);
                },
            }
            j += 1;
        }
        assert(model.take(j as int) =~= model);
        Ok(data)
    }

    /// Reads every entry that is left in `entries` as an entry of this mapping.
    fn read_entries(&self, entries: MapValueSeq) -> (decoded: Result<
        Vec<(Datum, Datum)>,
        DeserializationError,
    >)
        requires
            self is Mapping,
            entries.pending_value() is None,
        ensures
            match deserialized_entries(entries@, self@) {
                Ok(data) => decoded matches Ok(d) && entries_model(d) == data,
                Err(error) => decoded matches Err(e) && e@ == error,
            },
        decreases self, 0nat, 1nat,
    {
        let ghost all = entries@;
        let mut rest = entries;
        let mut data: Vec<(Datum, Datum)> = Vec::new();
        let ghost mut k: int = 0;
        assert(entries_model(data) =~= Seq::<(SpecDatum, SpecDatum)>::empty());
        assert(all.skip(0) =~= all);
        match self {
            Shape::Mapping(key_shape, value_shape) => {
                loop
                    invariant
                        0 <= k <= all.len(),
                        all == entries@,
                        rest@ == all.skip(k),
                        rest.pending_value() is None,
                        *self == Shape::Mapping(*key_shape, *value_shape),
                        deserialized_entries(all.take(k), self@) == Ok::<
                            Seq<(SpecDatum, SpecDatum)>,
                            SpecDeserializationError,
                        >(entries_model(data)),
                    decreases all.len() - k,
                {
                    let ghost before = entries_model(data);
                    proof {
                        if k < all.len() {
                            lemma_take_step(all, k);
                        }
                    }
                    let key = match rest.next_key_seed(key_shape) {
                        Ok(Some(key)) => key,
                        Ok(None) => {
                            assert(all.take(k) =~= all);
                            return Ok(data);
                        },
                        Err(error) => {
                            proof {
                                lemma_entries_prefix_fail(all, self@, k + 1);
                            }
                            return Err(error);
                        },
                    };
                    let value = match rest.next_value_seed(value_shape) {
                        Ok(value) => value,
                        Err(error) => {
                            proof {
                                lemma_entries_prefix_fail(all, self@, k + 1);
                            }
                            return Err(error);
                        },
                    };
                    data.push((key, value));
                    proof {
                        assert(entries_model(data) =~= before.push((key@, value@)));
                        assert(all.skip(k).skip(1) =~= all.skip(k + 1));
                        k = k + 1;
                    }
                }
            },
            _ => Ok(data),
        }
    }

    /// Reads from the map behind `entries` the fields that `fields` names, in
    /// the order of `fields`.
    pub(crate) fn read_fields(entries: &MapValueSeq, fields: &Vec<FieldShape>) -> (decoded: Result<
        Vec<Field>,
        DeserializationError,
    >)
        ensures
            match deserialized_fields(entries.all(), field_shapes_model(*fields)) {
                Ok(data) => decoded matches Ok(d) && fields_model(d) == data,
                Err(error) => decoded matches Err(e) && e@ == error,
            },
        decreases fields, 0nat, 0nat,
    {
        let ghost model = field_shapes_model(*fields);
        let mut data: Vec<Field> = Vec::with_capacity(fields.len());
        let mut j: usize = 0;
        assert(fields_model(data) =~= Seq::<SpecField>::empty());
        while j < fields.len()
            invariant
                j <= fields@.len(),
                model == field_shapes_model(*fields),
                deserialized_fields(entries.all(), model.take(j as int)) == Ok::<
                    Seq<SpecField>,
                    SpecDeserializationError,
                >(fields_model(data)),
            decreases fields@.len() - j,
        {
            let ghost before = fields_model(data);
            proof {
                lemma_take_step(model, j as int);
            }
            let field = &fields[j];
            match entries.field(field.name.as_str()) {
                Some(value) => match field.shape.deserialize(&ValueDeserializer(value)) {
                    Ok(datum) => {
                        data.push(Field { name: field.name.clone(), value: datum, skip: false });
                        proof {
                            assert(fields_model(data) =~= before.push(
                                SpecField { name: field.name@, value: datum@, skip: false },
                            ));
                        }
                    },
                    Err(error) => {
                        proof {
                            lemma_fields_prefix_fail(entries.all(), model, j + 1);
                        }
                        return Err(error);
                    },
                },
                None => {
                    proof {
                        lemma_fields_prefix_fail(entries.all(), model, j + 1);
                    }
                    return Err(
                        DeserializationError::Message(
                            String::from_str("missing field `").concat(
                                field.name.as_str(),
                            ).concat("`"),
                        ),
                    );
                },
            }
            j += 1;
        }
        assert(model.take(j as int) =~= model);
        Ok(data)
    }
}

/// The names of the fields of a struct target, in order.
fn field_names(fields: &Vec<FieldShape>) -> (names: Vec<&str>)
    ensures
        names@.len() == fields@.len(),
        forall|i: int| 0 <= i < names@.len() ==> (#[trigger] names@[i])@ == fields@[i].name@,
{
    let mut names: Vec<&str> = Vec::with_capacity(fields.len());
    let mut i: usize = 0;
    while i < fields.len()
        invariant
            i <= fields@.len(),
            names@.len() == i,
            forall|j: int| 0 <= j < i ==> (#[trigger] names@[j])@ == fields@[j].name@,
        decreases fields@.len() - i,
    {
        names.push(fields[i].name.as_str());
        i += 1;
    }
    names
}

/// The names of the variants of a sum-type target, in order.
fn variant_names(variants: &Vec<VariantShape>) -> (names: Vec<&str>)
    ensures
        names@.len() == variants@.len(),
        forall|i: int| 0 <= i < names@.len() ==> (#[trigger] names@[i])@ == variants@[i].name@,
{
    let mut names: Vec<&str> = Vec::with_capacity(variants.len());
    let mut i: usize = 0;
    while i < variants.len()
        invariant
            i <= variants@.len(),
            names@.len() == i,
            forall|j: int| 0 <= j < i ==> (#[trigger] names@[j])@ == variants@[j].name@,
        decreases variants@.len() - i,
    {
        names.push(variants[i].name.as_str());
        i += 1;
    }
    names
}

/// The structured value that holds one character.
fn character(c: char) -> (datum: Datum)
    ensures
        datum@ == SpecDatum::Char(c),
{
    Datum::Char(c)
}

/// Looks for the first variant named `name`.
fn find(variants: &Vec<VariantShape>, name: &str) -> (found: Option<usize>)
    ensures
        found matches Some(at) ==> at < variants@.len() && find_variant(
            variants_model(*variants),
            name@,
        ) == Some(at as int),
        found is None ==> find_variant(variants_model(*variants), name@) is None,
{
    let ghost model = variants_model(*variants);
    let mut i: usize = 0;
    while i < variants.len()
        invariant
            i <= variants@.len(),
            model == variants_model(*variants),
            forall|j: int| 0 <= j < i ==> (#[trigger] model[j]).name != name@,
        decreases variants@.len() - i,
    {
        if str_eq(variants[i].name.as_str(), name) {
            proof {
                assert(model[i as int].name == name@);
                lemma_find_variant(model, name@);
            }
            return Some(i);
        }
        i += 1;
    }
    proof {
        lemma_find_variant(model, name@);
    }
    None
}

} // verus!
