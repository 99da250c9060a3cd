//! What holds of the encoder and the decoder together.

use crate::datum::{SpecDatum, SpecField};
use crate::deserialize::error::SpecDeserializationError;
use crate::deserialize::shaped::{
    deserialized, deserialized_each, deserialized_entries, deserialized_fields, deserialized_tuple,
    deserialized_variant, find_variant, lemma_find_variant,
};
use crate::deserialize::{bytes_as_values, enum_source, SpecEnumSource};
use crate::firestore::{
    distinct_keys, has_key, index_of, insert, timestamp_decoding, SpecFields, SpecValue, Timestamp,
};
use crate::serialize::error::SpecSerializationError;
use crate::serialize::{serialized, serialized_entries, serialized_fields, serialized_items, tagged};
use crate::shape::{SpecFieldShape, SpecPayloadShape, SpecShape};
use crate::timestamp::canonical;
use crate::{lemma_reserved_names_differ, DATE_MAGIC, TYPE, VALUE, VALUES};
use vstd::prelude::*;

verus! {

/// `datum` is a value of the shape `shape`, and one that the wire carries
/// without loss.
///
/// To be a value of the shape is to be of its kind, part by part: the items
/// of a tuple are as many as its shapes; the fields of a struct are those of
/// its shape, under the same names, no two of one name; a variant is found
/// among those of the sum type, with the payload that the sum type gives it;
/// the keys of a map encode to strings that differ from one another; and
/// the wrapper named by the timestamp marker holds bytes, which are read
/// back as an owned buffer.
///
/// Three things the wire does not carry, and a value that holds one of them
/// does not count:
/// - an option that holds a value which encodes to null, as an empty option
///   inside an option does;
/// - a field that is skipped;
/// - under the timestamp marker, bytes that are a timestamp and yet not
///   the layout that the timestamp is written in.
pub open spec fn well_shaped(datum: SpecDatum, shape: SpecShape) -> bool
    decreases datum,
{
    match datum {
        SpecDatum::Bool(_) => shape is Bool,
        SpecDatum::I8(_) => shape is I8,
        SpecDatum::I16(_) => shape is I16,
        SpecDatum::I32(_) => shape is I32,
        SpecDatum::I64(_) => shape is I64,
        SpecDatum::U8(_) => shape is U8,
        SpecDatum::U16(_) => shape is U16,
        SpecDatum::U32(_) => shape is U32,
        SpecDatum::U64(_) => shape is U64,
        SpecDatum::F32(_) => shape is F32,
        SpecDatum::F64(_) => shape is F64,
        SpecDatum::Char(_) => shape is Char,
        SpecDatum::Str(_) => shape is Str || shape is Text,
        SpecDatum::Bytes(_) => shape is Bytes || shape is ByteBuf,
        SpecDatum::Absent => shape is Optional,
        SpecDatum::Present(inner) => {
            &&& shape matches SpecShape::Optional(inner_shape)
            &&& well_shaped(*inner, *inner_shape)
            &&& serialized(*inner) != Ok::<SpecValue, SpecSerializationError>(SpecValue::NullValue)
        },
        SpecDatum::Unit => shape is Unit,
        SpecDatum::UnitStruct => shape is UnitStruct,
        SpecDatum::UnitVariant(name) => {
            &&& shape matches SpecShape::Enum(variants)
            &&& find_variant(variants, name) matches Some(i)
            &&& 0 <= i < variants.len()
            &&& variants[i].payload is Unit
        },
        SpecDatum::NewtypeStruct(name, inner) => {
            &&& shape matches SpecShape::NewtypeStruct(shape_name, inner_shape)
            &&& shape_name == name
            &&& if name == DATE_MAGIC@ {
                &&& *inner_shape is ByteBuf
                &&& *inner matches SpecDatum::Bytes(bytes)
                &&& timestamp_decoding(bytes) is Some ==> canonical(bytes)
            } else {
                well_shaped(*inner, *inner_shape)
            }
        },
        SpecDatum::NewtypeVariant(name, inner) => {
            &&& shape matches SpecShape::Enum(variants)
            &&& find_variant(variants, name) matches Some(i)
            &&& 0 <= i < variants.len()
            &&& variants[i].payload matches SpecPayloadShape::Newtype(inner_shape)
            &&& well_shaped(*inner, *inner_shape)
        },
        SpecDatum::Sequence(items) => {
            &&& shape matches SpecShape::Sequence(element)
            &&& forall|i: int| 0 <= i < items.len() ==> well_shaped(#[trigger] items[i], *element)
        },
        SpecDatum::Tuple(items) => {
            &&& shape matches SpecShape::Tuple(shapes)
            &&& well_shaped_items(items, shapes)
        },
        SpecDatum::TupleStruct(items) => {
            &&& shape matches SpecShape::TupleStruct(shapes)
            &&& well_shaped_items(items, shapes)
        },
        SpecDatum::TupleVariant(name, items) => {
            &&& shape matches SpecShape::Enum(variants)
            &&& find_variant(variants, name) matches Some(i)
            &&& 0 <= i < variants.len()
            &&& variants[i].payload matches SpecPayloadShape::Tuple(shapes)
            &&& well_shaped_items(items, shapes)
        },
        SpecDatum::Mapping(entries) => {
            &&& shape matches SpecShape::Mapping(key_shape, value_shape)
            &&& forall|i: int|
                0 <= i < entries.len() ==> well_shaped((#[trigger] entries[i]).0, *key_shape)
                    && well_shaped(entries[i].1, *value_shape)
            &&& forall|i: int, j: int|
                0 <= i < j < entries.len() ==> serialized((#[trigger] entries[i]).0) != serialized(
                    (#[trigger] entries[j]).0,
                )
        },
        SpecDatum::Struct(fields) => {
            &&& shape matches SpecShape::Struct(shapes)
            &&& well_shaped_fields(fields, shapes)
        },
        SpecDatum::StructVariant(name, fields) => {
            &&& shape matches SpecShape::Enum(variants)
            &&& find_variant(variants, name) matches Some(i)
            &&& 0 <= i < variants.len()
            &&& variants[i].payload matches SpecPayloadShape::Struct(shapes)
            &&& well_shaped_fields(fields, shapes)
        },
    }
}

/// The items of a tuple are as many as its shapes, each a value of its own shape.
pub open spec fn well_shaped_items(items: Seq<SpecDatum>, shapes: Seq<SpecShape>) -> bool
    decreases items,
{
    &&& items.len() == shapes.len()
    &&& forall|i: int| 0 <= i < items.len() ==> well_shaped(#[trigger] items[i], shapes[i])
}

/// The fields of a struct are those of its shape, in the same order and
/// under the same names, each a value of its own shape; none is skipped, and
/// no two have one name.
pub open spec fn well_shaped_fields(fields: Seq<SpecField>, shapes: Seq<SpecFieldShape>) -> bool
    decreases fields,
{
    &&& fields.len() == shapes.len()
    &&& forall|i: int|
        0 <= i < fields.len() ==> {
            &&& !(#[trigger] fields[i]).skip
            &&& fields[i].name == shapes[i].name
            &&& well_shaped(fields[i].value, shapes[i].shape)
        }
    &&& forall|i: int, j: int|
        0 <= i < j < fields.len() ==> (#[trigger] fields[i]).name != (#[trigger] fields[j]).name
}

/// Where the items of an ordered aggregate encode, each item encodes, to the
/// value that stands at its place.
pub proof fn lemma_items_pointwise(items: Seq<SpecDatum>)
    requires
        serialized_items(items) is Ok,
    ensures
        serialized_items(items)->Ok_0.len() == items.len(),
        forall|i: int|
            0 <= i < items.len() ==> serialized(#[trigger] items[i]) == Ok::<
                SpecValue,
                SpecSerializationError,
            >(serialized_items(items)->Ok_0[i]),
    decreases items.len(),
{
    if items.len() > 0 {
        let front = items.drop_last();
        lemma_items_pointwise(front);
        let values = serialized_items(items)->Ok_0;
        assert forall|i: int| 0 <= i < items.len() implies serialized(#[trigger] items[i]) == Ok::<
            SpecValue,
            SpecSerializationError,
        >(values[i]) by {
            if i < items.len() - 1 {
                assert(items[i] == front[i]);
            }
        }
    }
}

/// Where the fields of a struct encode, none of them skipped and no two of
/// one name, each field is stored at its place, under its name.
pub proof fn lemma_fields_pointwise(fields: Seq<SpecField>)
    requires
        serialized_fields(fields) is Ok,
        forall|i: int| 0 <= i < fields.len() ==> !(#[trigger] fields[i]).skip,
        forall|i: int, j: int|
            0 <= i < j < fields.len() ==> (#[trigger] fields[i]).name != (#[trigger] fields[j]).name,
    ensures
        serialized_fields(fields)->Ok_0.len() == fields.len(),
        forall|i: int|
            0 <= i < fields.len() ==> (#[trigger] serialized_fields(fields)->Ok_0[i]).0
                == fields[i].name && serialized(fields[i].value) == Ok::<
                SpecValue,
                SpecSerializationError,
            >(serialized_fields(fields)->Ok_0[i].1),
    decreases fields.len(),
{
    if fields.len() > 0 {
        let front = fields.drop_last();
        assert forall|i: int| 0 <= i < front.len() implies !(#[trigger] front[i]).skip by {
            assert(front[i] == fields[i]);
        }
        assert forall|i: int, j: int| 0 <= i < j < front.len() implies (#[trigger] front[i]).name
            != (#[trigger] front[j]).name by {
            assert(front[i] == fields[i]);
            assert(front[j] == fields[j]);
        }
        lemma_fields_pointwise(front);
        let before = serialized_fields(front)->Ok_0;
        let stored = serialized_fields(fields)->Ok_0;
        let last = fields.last();
        assert(!last.skip);
        assert(!has_key(before, last.name)) by {
            if has_key(before, last.name) {
                let i = index_of(before, last.name);
                assert(before[i].0 == front[i].name);
                assert(front[i] == fields[i]);
                assert(fields[i].name != fields[fields.len() - 1].name);
            }
        }
        assert(stored == before.push((last.name, serialized(last.value)->Ok_0)));
        assert forall|i: int| 0 <= i < fields.len() implies (#[trigger] stored[i]).0
            == fields[i].name && serialized(fields[i].value) == Ok::<
            SpecValue,
            SpecSerializationError,
        >(stored[i].1) by {
            if i < fields.len() - 1 {
                assert(stored[i] == before[i]);
                assert(front[i] == fields[i]);
            }
        }
    }
}

/// Where the entries of a map encode, their keys to strings that differ from
/// one another, each entry is stored at its place: the key as the name, the
/// value as the value.
pub proof fn lemma_entries_pointwise(entries: Seq<(SpecDatum, SpecDatum)>)
    requires
        serialized_entries(entries) is Ok,
        forall|i: int, j: int|
            0 <= i < j < entries.len() ==> serialized((#[trigger] entries[i]).0) != serialized(
                (#[trigger] entries[j]).0,
            ),
    ensures
        serialized_entries(entries)->Ok_0.len() == entries.len(),
        forall|i: int|
            0 <= i < entries.len() ==> serialized(entries[i].0) == Ok::<
                SpecValue,
                SpecSerializationError,
            >(SpecValue::StringValue((#[trigger] serialized_entries(entries)->Ok_0[i]).0))
                && serialized(entries[i].1) == Ok::<SpecValue, SpecSerializationError>(
                serialized_entries(entries)->Ok_0[i].1,
            ),
    decreases entries.len(),
{
    if entries.len() > 0 {
        let front = entries.drop_last();
        assert forall|i: int, j: int| 0 <= i < j < front.len() implies serialized(
            (#[trigger] front[i]).0,
        ) != serialized((#[trigger] front[j]).0) by {
            assert(front[i] == entries[i]);
            assert(front[j] == entries[j]);
        }
        lemma_entries_pointwise(front);
        let before = serialized_entries(front)->Ok_0;
        let stored = serialized_entries(entries)->Ok_0;
        let last = entries.last();
        let key = serialized(last.0)->Ok_0->StringValue_0;
        assert(!has_key(before, key)) by {
            if has_key(before, key) {
                let i = index_of(before, key);
                assert(front[i] == entries[i]);
                assert(serialized(entries[i].0) == serialized(entries[entries.len() - 1].0));
            }
        }
        assert(stored == before.push((key, serialized(last.1)->Ok_0)));
        assert forall|i: int| 0 <= i < entries.len() implies serialized(entries[i].0) == Ok::<
            SpecValue,
            SpecSerializationError,
        >(SpecValue::StringValue((#[trigger] stored[i]).0)) && serialized(entries[i].1) == Ok::<
            SpecValue,
            SpecSerializationError,
        >(stored[i].1) by {
            if i < entries.len() - 1 {
                assert(stored[i] == before[i]);
                assert(front[i] == entries[i]);
            }
        }
    }
}

/// The map that stands for a variant with a payload is read back as a
/// tagged source: the variant's name and the payload.
pub proof fn lemma_tagged_source(variant: Seq<char>, key: Seq<char>, payload: SpecValue)
    requires
        key == VALUE@ || key == VALUES@,
    ensures
        enum_source(tagged(variant, key, payload)) == Ok::<
            SpecEnumSource,
            SpecDeserializationError,
        >(SpecEnumSource::Tagged(variant, payload)),
{
    lemma_reserved_names_differ();
    let fields = seq![(TYPE@, SpecValue::StringValue(variant)), (key, payload)];
    assert(fields[0].0 == TYPE@);
    assert(fields[1].0 == key);
    assert(has_key(fields, TYPE@));
    assert(index_of(fields, TYPE@) == 0);
    assert(has_key(fields, key));
    assert(index_of(fields, key) == 1);
    if key == VALUE@ {
        assert(!has_key(fields, VALUES@));
    } else {
        assert(!has_key(fields, VALUE@));
    }
}

/// Decoding inverts encoding: what a value of a shape encodes to is read
/// back, as that shape, to the value itself.
pub proof fn lemma_decode_inverts_encode(datum: SpecDatum, shape: SpecShape)
    requires
        well_shaped(datum, shape),
    ensures
        serialized(datum) matches Ok(wire) ==> deserialized(wire, shape) == Ok::<
            SpecDatum,
            SpecDeserializationError,
        >(datum),
    decreases datum, 2nat,
{
    match datum {
        SpecDatum::Present(_) => lemma_option_round_trip(datum, shape),
        SpecDatum::NewtypeStruct(_, _) => lemma_wrapper_round_trip(datum, shape),
        SpecDatum::UnitVariant(_) => lemma_variant_round_trip(datum, shape),
        SpecDatum::NewtypeVariant(_, _) => lemma_variant_round_trip(datum, shape),
        SpecDatum::TupleVariant(_, _) => lemma_variant_round_trip(datum, shape),
        SpecDatum::StructVariant(_, _) => lemma_variant_round_trip(datum, shape),
        SpecDatum::Sequence(_) => lemma_aggregate_round_trip(datum, shape),
        SpecDatum::Tuple(_) => lemma_aggregate_round_trip(datum, shape),
        SpecDatum::TupleStruct(_) => lemma_aggregate_round_trip(datum, shape),
        SpecDatum::Mapping(_) => lemma_aggregate_round_trip(datum, shape),
        SpecDatum::Struct(_) => lemma_aggregate_round_trip(datum, shape),
        SpecDatum::Bool(_) => {},
        SpecDatum::Char(_) => {},
        SpecDatum::Str(_) => {},
        SpecDatum::Bytes(_) => {},
        SpecDatum::F32(_) => {},
        SpecDatum::F64(_) => {},
        SpecDatum::Absent => {},
        SpecDatum::Unit => {},
        SpecDatum::UnitStruct => {},
        _ => lemma_integer_round_trip(datum, shape),
    }
}

/// An integer of any width is read back from the integer it encoded to.
pub proof fn lemma_integer_round_trip(datum: SpecDatum, shape: SpecShape)
    requires
        well_shaped(datum, shape),
        datum is I8 || datum is I16 || datum is I32 || datum is I64 || datum is U8 || datum is U16
            || datum is U32 || datum is U64,
    ensures
        serialized(datum) matches Ok(wire) ==> deserialized(wire, shape) == Ok::<
            SpecDatum,
            SpecDeserializationError,
        >(datum),
{
}

/// An option that holds a value is read back from what the value encoded to.
pub proof fn lemma_option_round_trip(datum: SpecDatum, shape: SpecShape)
    requires
        well_shaped(datum, shape),
        datum is Present,
    ensures
        serialized(datum) matches Ok(wire) ==> deserialized(wire, shape) == Ok::<
            SpecDatum,
            SpecDeserializationError,
        >(datum),
    decreases datum, 1nat,
{
    let inner = *datum->Present_0;
    lemma_decode_inverts_encode(inner, *shape->Optional_0);
}

/// A wrapper is read back from what its content encoded to; the wrapper
/// named by the timestamp marker, from the timestamp that its bytes are the
/// layout of.
pub proof fn lemma_wrapper_round_trip(datum: SpecDatum, shape: SpecShape)
    requires
        well_shaped(datum, shape),
        datum is NewtypeStruct,
    ensures
        serialized(datum) matches Ok(wire) ==> deserialized(wire, shape) == Ok::<
            SpecDatum,
            SpecDeserializationError,
        >(datum),
    decreases datum, 1nat,
{
    let name = datum->NewtypeStruct_0;
    let inner = *datum->NewtypeStruct_1;
    let inner_shape = *shape->NewtypeStruct_1;
    if name != DATE_MAGIC@ {
        lemma_decode_inverts_encode(inner, inner_shape);
    } else {
        let bytes = inner->Bytes_0;
        if timestamp_decoding(bytes) is Some {
            let (seconds, nanos) = timestamp_decoding(bytes)->Some_0;
            let wire = SpecValue::TimestampValue(Timestamp { seconds, nanos });
            assert(serialized(datum) == Ok::<SpecValue, SpecSerializationError>(wire));
            assert(deserialized(wire, inner_shape) == Ok::<SpecDatum, SpecDeserializationError>(
                inner,
            ));
        } else {
            assert(serialized(datum) is Err);
        }
    }
}

/// A variant is read back from the string or the tagged map that it encoded to.
pub proof fn lemma_variant_round_trip(datum: SpecDatum, shape: SpecShape)
    requires
        well_shaped(datum, shape),
        datum is UnitVariant || datum is NewtypeVariant || datum is TupleVariant
            || datum is StructVariant,
    ensures
        serialized(datum) matches Ok(wire) ==> deserialized(wire, shape) == Ok::<
            SpecDatum,
            SpecDeserializationError,
        >(datum),
    decreases datum, 1nat,
{
    if serialized(datum) is Ok {
        let wire = serialized(datum)->Ok_0;
        let variants = shape->Enum_0;
        match datum {
            SpecDatum::UnitVariant(name) => {
                lemma_find_variant(variants, name);
                let i = find_variant(variants, name)->Some_0;
                assert(enum_source(wire) == Ok::<SpecEnumSource, SpecDeserializationError>(
                    SpecEnumSource::Unit(name),
                ));
                assert(deserialized_variant(SpecEnumSource::Unit(name), variants[i].payload) == Ok::<
                    SpecDatum,
                    SpecDeserializationError,
                >(datum));
            },
            SpecDatum::NewtypeVariant(name, inner) => {
                lemma_find_variant(variants, name);
                let i = find_variant(variants, name)->Some_0;
                let payload = serialized(*inner)->Ok_0;
                lemma_decode_inverts_encode(*inner, *variants[i].payload->Newtype_0);
                lemma_tagged_source(name, VALUE@, payload);
                assert(wire == tagged(name, VALUE@, payload));
                assert(deserialized_variant(
                    SpecEnumSource::Tagged(name, payload),
                    variants[i].payload,
                ) == Ok::<SpecDatum, SpecDeserializationError>(datum));
            },
            SpecDatum::TupleVariant(name, items) => {
                lemma_find_variant(variants, name);
                let i = find_variant(variants, name)->Some_0;
                let shapes = variants[i].payload->Tuple_0;
                assert(well_shaped_items(items, shapes));
                lemma_tuple_round_trip(items, shapes, items.len() as int);
                assert(shapes.take(items.len() as int) =~= shapes);
                assert(items.take(items.len() as int) =~= items);
                let payload = SpecValue::ArrayValue(serialized_items(items)->Ok_0);
                lemma_tagged_source(name, VALUES@, payload);
                assert(wire == tagged(name, VALUES@, payload));
                assert(deserialized_variant(
                    SpecEnumSource::Tagged(name, payload),
                    variants[i].payload,
                ) == Ok::<SpecDatum, SpecDeserializationError>(datum));
            },
            SpecDatum::StructVariant(name, fields) => {
                lemma_find_variant(variants, name);
                let i = find_variant(variants, name)->Some_0;
                let shapes = variants[i].payload->Struct_0;
                assert(well_shaped_fields(fields, shapes));
                lemma_struct_round_trip(fields, shapes, fields.len() as int);
                assert(shapes.take(fields.len() as int) =~= shapes);
                assert(fields.take(fields.len() as int) =~= fields);
                let payload = SpecValue::MapValue(serialized_fields(fields)->Ok_0);
                lemma_tagged_source(name, VALUES@, payload);
                assert(wire == tagged(name, VALUES@, payload));
                assert(deserialized_variant(
                    SpecEnumSource::Tagged(name, payload),
                    variants[i].payload,
                ) == Ok::<SpecDatum, SpecDeserializationError>(datum));
            },
            _ => {},
        }
    }
}

/// A sequence, a tuple, a map or a struct is read back from the array or
/// the map that it encoded to.
pub proof fn lemma_aggregate_round_trip(datum: SpecDatum, shape: SpecShape)
    requires
        well_shaped(datum, shape),
        datum is Sequence || datum is Tuple || datum is TupleStruct || datum is Mapping
            || datum is Struct,
    ensures
        serialized(datum) matches Ok(wire) ==> deserialized(wire, shape) == Ok::<
            SpecDatum,
            SpecDeserializationError,
        >(datum),
    decreases datum, 1nat,
{
    if serialized(datum) is Ok {
        match datum {
            SpecDatum::Sequence(items) => {
                lemma_sequence_round_trip(items, *shape->Sequence_0, items.len() as int);
                lemma_items_pointwise(items);
                let values = serialized_items(items)->Ok_0;
                assert(values.take(items.len() as int) =~= values);
                assert(items.take(items.len() as int) =~= items);
            },
            SpecDatum::Tuple(items) => {
                let shapes = shape->Tuple_0;
                assert(well_shaped_items(items, shapes));
                lemma_tuple_round_trip(items, shapes, items.len() as int);
                assert(shapes.take(items.len() as int) =~= shapes);
                assert(items.take(items.len() as int) =~= items);
            },
            SpecDatum::TupleStruct(items) => {
                let shapes = shape->TupleStruct_0;
                assert(well_shaped_items(items, shapes));
                lemma_tuple_round_trip(items, shapes, items.len() as int);
                assert(shapes.take(items.len() as int) =~= shapes);
                assert(items.take(items.len() as int) =~= items);
            },
            SpecDatum::Mapping(entries) => {
                lemma_mapping_round_trip(entries, shape, entries.len() as int);
                lemma_entries_pointwise(entries);
                let stored = serialized_entries(entries)->Ok_0;
                assert(stored.take(entries.len() as int) =~= stored);
                assert(entries.take(entries.len() as int) =~= entries);
            },
            SpecDatum::Struct(fields) => {
                let shapes = shape->Struct_0;
                assert(well_shaped_fields(fields, shapes));
                lemma_struct_round_trip(fields, shapes, fields.len() as int);
                assert(shapes.take(fields.len() as int) =~= shapes);
                assert(fields.take(fields.len() as int) =~= fields);
            },
            _ => {},
        }
    }
}

/// The first `n` items of a sequence are read back from what they encoded to.
pub proof fn lemma_sequence_round_trip(items: Seq<SpecDatum>, element: SpecShape, n: int)
    requires
        0 <= n <= items.len(),
        forall|i: int| 0 <= i < items.len() ==> well_shaped(#[trigger] items[i], element),
        serialized_items(items) is Ok,
    ensures
        deserialized_each(serialized_items(items)->Ok_0.take(n), element) == Ok::<
            Seq<SpecDatum>,
            SpecDeserializationError,
        >(items.take(n)),
    decreases items, n,
{
    lemma_items_pointwise(items);
    let values = serialized_items(items)->Ok_0;
    if n == 0 {
        assert(items.take(0) =~= Seq::<SpecDatum>::empty());
    } else {
        lemma_sequence_round_trip(items, element, n - 1);
        lemma_decode_inverts_encode(items[n - 1], element);
        assert(values.take(n).drop_last() =~= values.take(n - 1));
        assert(values.take(n).last() == values[n - 1]);
        assert(items.take(n) =~= items.take(n - 1).push(items[n - 1]));
    }
}

/// The first `n` items of a tuple are read back from what the tuple encoded to.
pub proof fn lemma_tuple_round_trip(items: Seq<SpecDatum>, shapes: Seq<SpecShape>, n: int)
    requires
        0 <= n <= items.len(),
        well_shaped_items(items, shapes),
        serialized_items(items) is Ok,
    ensures
        deserialized_tuple(serialized_items(items)->Ok_0, shapes.take(n)) == Ok::<
            Seq<SpecDatum>,
            SpecDeserializationError,
        >(items.take(n)),
    decreases items, n,
{
    lemma_items_pointwise(items);
    let values = serialized_items(items)->Ok_0;
    if n == 0 {
        assert(items.take(0) =~= Seq::<SpecDatum>::empty());
    } else {
        lemma_tuple_round_trip(items, shapes, n - 1);
        lemma_decode_inverts_encode(items[n - 1], shapes[n - 1]);
        assert(shapes.take(n).drop_last() =~= shapes.take(n - 1));
        assert(shapes.take(n).last() == shapes[n - 1]);
        assert(items.take(n) =~= items.take(n - 1).push(items[n - 1]));
    }
}

/// The first `n` entries of a map are read back from what they encoded to.
pub proof fn lemma_mapping_round_trip(
    entries: Seq<(SpecDatum, SpecDatum)>,
    shape: SpecShape,
    n: int,
)
    requires
        0 <= n <= entries.len(),
        well_shaped(SpecDatum::Mapping(entries), shape),
        serialized_entries(entries) is Ok,
    ensures
        deserialized_entries(serialized_entries(entries)->Ok_0.take(n), shape) == Ok::<
            Seq<(SpecDatum, SpecDatum)>,
            SpecDeserializationError,
        >(entries.take(n)),
    decreases entries, n,
{
    lemma_entries_pointwise(entries);
    let stored = serialized_entries(entries)->Ok_0;
    if n == 0 {
        assert(entries.take(0) =~= Seq::<(SpecDatum, SpecDatum)>::empty());
    } else {
        lemma_mapping_round_trip(entries, shape, n - 1);
        let entry = entries[n - 1];
        lemma_decode_inverts_encode(entry.0, *shape->Mapping_0);
        lemma_decode_inverts_encode(entry.1, *shape->Mapping_1);
        assert(stored.take(n).drop_last() =~= stored.take(n - 1));
        assert(stored.take(n).last() == stored[n - 1]);
        assert(entries.take(n) =~= entries.take(n - 1).push(entry));
    }
}

/// The first `n` fields of a struct are read back from what the struct encoded to.
pub proof fn lemma_struct_round_trip(fields: Seq<SpecField>, shapes: Seq<SpecFieldShape>, n: int)
    requires
        0 <= n <= fields.len(),
        well_shaped_fields(fields, shapes),
        serialized_fields(fields) is Ok,
    ensures
        deserialized_fields(serialized_fields(fields)->Ok_0, shapes.take(n)) == Ok::<
            Seq<SpecField>,
            SpecDeserializationError,
        >(fields.take(n)),
    decreases fields, n,
{
    lemma_fields_pointwise(fields);
    let stored = serialized_fields(fields)->Ok_0;
    if n == 0 {
        assert(fields.take(0) =~= Seq::<SpecField>::empty());
    } else {
        lemma_struct_round_trip(fields, shapes, n - 1);
        let field = fields[n - 1];
        lemma_decode_inverts_encode(field.value, shapes[n - 1].shape);
        assert(shapes.take(n).drop_last() =~= shapes.take(n - 1));
        assert(shapes.take(n).last() == shapes[n - 1]);
        assert(stored[n - 1].0 == field.name);
        assert(has_key(stored, field.name));
        assert(index_of(stored, field.name) == n - 1) by {
            let i = index_of(stored, field.name);
            assert(stored[i].0 == fields[i].name);
            if i < n - 1 {
                assert(fields[i].name != fields[n - 1].name);
            } else if i > n - 1 {
                assert(fields[n - 1].name != fields[i].name);
            }
        }
        assert(fields.take(n) =~= fields.take(n - 1).push(field));
    }
}

/// An unsigned 64-bit number up to the largest signed one is read back as
/// it was; a larger one does not encode, and the failure names it.
pub proof fn lemma_unsigned_round_trip(v: u64)
    ensures
        v <= i64::MAX ==> (serialized(SpecDatum::U64(v)) matches Ok(wire) && deserialized(
            wire,
            SpecShape::U64,
        ) == Ok::<SpecDatum, SpecDeserializationError>(SpecDatum::U64(v))),
        v > i64::MAX ==> serialized(SpecDatum::U64(v)) == Err::<SpecValue, SpecSerializationError>(
            SpecSerializationError::OutsideIntRange(v),
        ),
{
}

/// Each byte as the small integer that it is read as.
pub open spec fn bytes_as_data(bytes: Seq<u8>) -> Seq<SpecDatum> {
    Seq::new(bytes.len(), |i: int| SpecDatum::U8(bytes[i]))
}

/// A bytes value that is read as a sequence of small integers gives its
/// bytes, one by one and in order.
pub proof fn lemma_bytes_as_sequence(bytes: Seq<u8>)
    ensures
        deserialized(SpecValue::BytesValue(bytes), SpecShape::Sequence(Box::new(SpecShape::U8)))
            == Ok::<SpecDatum, SpecDeserializationError>(
            SpecDatum::Sequence(bytes_as_data(bytes)),
        ),
{
    lemma_bytes_one_by_one(bytes, bytes.len() as int);
    assert(bytes_as_values(bytes).take(bytes.len() as int) =~= bytes_as_values(bytes));
    assert(bytes_as_data(bytes).take(bytes.len() as int) =~= bytes_as_data(bytes));
}

/// The first `n` bytes, offered as integers, are read as the small integers
/// that they are.
pub proof fn lemma_bytes_one_by_one(bytes: Seq<u8>, n: int)
    requires
        0 <= n <= bytes.len(),
    ensures
        deserialized_each(bytes_as_values(bytes).take(n), SpecShape::U8) == Ok::<
            Seq<SpecDatum>,
            SpecDeserializationError,
        >(bytes_as_data(bytes).take(n)),
    decreases n,
{
    let values = bytes_as_values(bytes);
    let data = bytes_as_data(bytes);
    if n == 0 {
        assert(data.take(0) =~= Seq::<SpecDatum>::empty());
    } else {
        lemma_bytes_one_by_one(bytes, n - 1);
        assert(values.take(n).drop_last() =~= values.take(n - 1));
        assert(values.take(n).last() == values[n - 1]);
        assert(deserialized(values[n - 1], SpecShape::U8) == Ok::<
            SpecDatum,
            SpecDeserializationError,
        >(data[n - 1]));
        assert(data.take(n) =~= data.take(n - 1).push(data[n - 1]));
    }
}

/// What the fields of a struct encode to holds a name exactly where a field
/// of that name is not skipped: a skipped field leaves nothing behind, no
/// null in its place either.
pub proof fn lemma_skipped_fields_are_omitted(fields: Seq<SpecField>, name: Seq<char>)
    requires
        serialized_fields(fields) is Ok,
    ensures
        has_key(serialized_fields(fields)->Ok_0, name) <==> exists|i: int|
            0 <= i < fields.len() && !(#[trigger] fields[i]).skip && fields[i].name == name,
    decreases fields.len(),
{
    let stored = serialized_fields(fields)->Ok_0;
    if fields.len() > 0 {
        let front = fields.drop_last();
        let last = fields.last();
        lemma_skipped_fields_are_omitted(front, name);
        let before = serialized_fields(front)->Ok_0;
        if has_key(stored, name) {
            let at = index_of(stored, name);
            if has_key(before, name) {
                let i = choose|i: int|
                    0 <= i < front.len() && !(#[trigger] front[i]).skip && front[i].name == name;
                assert(fields[i] == front[i]);
            } else {
                assert(!last.skip && last.name == name) by {
                    if last.skip {
                        assert(stored == before);
                    } else {
                        let value = serialized(last.value)->Ok_0;
                        assert(stored == insert(before, last.name, value));
                        if last.name != name {
                            if has_key(before, last.name) {
                                assert(before[at].0 == name);
                            } else {
                                if at < before.len() {
                                    assert(before[at].0 == name);
                                }
                            }
                        }
                    }
                }
                assert(fields[fields.len() - 1] == last);
            }
        }
        if exists|i: int| 0 <= i < fields.len() && !(#[trigger] fields[i]).skip && fields[i].name
            == name {
            let i = choose|i: int|
                0 <= i < fields.len() && !(#[trigger] fields[i]).skip && fields[i].name == name;
            if i < fields.len() - 1 {
                assert(front[i] == fields[i]);
                assert(has_key(before, name));
                let at = index_of(before, name);
                if last.skip {
                    assert(stored == before);
                } else {
                    let value = serialized(last.value)->Ok_0;
                    if has_key(before, last.name) {
                        let changed = index_of(before, last.name);
                        assert(stored == before.update(changed, (last.name, value)));
                        assert(stored[at].0 == name);
                    } else {
                        assert(stored == before.push((last.name, value)));
                        assert(stored[at].0 == name);
                    }
                }
            } else {
                let value = serialized(last.value)->Ok_0;
                if has_key(before, last.name) {
                    let changed = index_of(before, last.name);
                    assert(stored == before.update(changed, (last.name, value)));
                    assert(stored[changed].0 == name);
                } else {
                    assert(stored == before.push((last.name, value)));
                    assert(stored[before.len() as int].0 == name);
                }
            }
        }
    }
}

/// A struct encodes to a map as soon as the fields that it does not skip
/// encode: a struct can always be the content of a document.
pub proof fn lemma_struct_encodes_to_map(fields: Seq<SpecField>)
    requires
        forall|i: int|
            0 <= i < fields.len() && !(#[trigger] fields[i]).skip ==> serialized(fields[i].value)
                is Ok,
    ensures
        serialized_fields(fields) is Ok,
        serialized(SpecDatum::Struct(fields)) == Ok::<SpecValue, SpecSerializationError>(
            SpecValue::MapValue(serialized_fields(fields)->Ok_0),
        ),
    decreases fields.len(),
{
    if fields.len() > 0 {
        let front = fields.drop_last();
        assert forall|i: int| 0 <= i < front.len() && !(#[trigger] front[i]).skip implies serialized(
            front[i].value,
        ) is Ok by {
            assert(front[i] == fields[i]);
        }
        lemma_struct_encodes_to_map(front);
        assert(fields[fields.len() - 1] == fields.last());
    }
}

/// `value` is one that the encoder can have made: every value in it has a
/// kind of the encoder's own, and no map in it holds a name twice.
pub open spec fn produced(value: SpecValue) -> bool
    decreases value,
{
    match value {
        SpecValue::Unset => false,
        SpecValue::ReferenceValue(_) => false,
        SpecValue::GeoPointValue(_, _) => false,
        SpecValue::ArrayValue(items) => forall|i: int|
            0 <= i < items.len() ==> produced(#[trigger] items[i]),
        SpecValue::MapValue(fields) => produced_fields(fields),
        _ => true,
    }
}

/// No name occurs twice among `fields`, and each value is one that the
/// encoder can have made.
pub open spec fn produced_fields(fields: SpecFields) -> bool
    decreases fields,
{
    &&& distinct_keys(fields)
    &&& forall|i: int| 0 <= i < fields.len() ==> produced((#[trigger] fields[i]).1)
}

/// To store one more value keeps a map one that the encoder can have made.
pub proof fn lemma_insert_keeps_produced(fields: SpecFields, key: Seq<char>, value: SpecValue)
    requires
        produced_fields(fields),
        produced(value),
    ensures
        produced_fields(insert(fields, key, value)),
{
    let after = insert(fields, key, value);
    if has_key(fields, key) {
        let at = index_of(fields, key);
        assert forall|i: int, j: int| 0 <= i < j < after.len() implies (#[trigger] after[i]).0 != (
        #[trigger] after[j]).0 by {
            assert(after[i].0 == fields[i].0);
            assert(after[j].0 == fields[j].0);
        }
        assert forall|i: int| 0 <= i < after.len() implies produced((#[trigger] after[i]).1) by {
            if i != at {
                assert(after[i] == fields[i]);
            }
        }
    } else {
        assert forall|i: int, j: int| 0 <= i < j < after.len() implies (#[trigger] after[i]).0 != (
        #[trigger] after[j]).0 by {
            assert(after[i] == fields[i]);
            if j < fields.len() {
                assert(after[j] == fields[j]);
            }
        }
        assert forall|i: int| 0 <= i < after.len() implies produced((#[trigger] after[i]).1) by {
            if i < fields.len() {
                assert(after[i] == fields[i]);
            }
        }
    }
}

/// The encoder makes no value without a kind, none of the kinds that only
/// pass through, and no map that holds a name twice.
pub proof fn lemma_encoder_output_is_produced(datum: SpecDatum)
    ensures
        serialized(datum) matches Ok(wire) ==> produced(wire),
    decreases datum, 1nat,
{
    if serialized(datum) is Ok {
        lemma_reserved_names_differ();
        match datum {
            SpecDatum::Present(inner) => {
                lemma_encoder_output_is_produced(*inner);
            },
            SpecDatum::NewtypeStruct(name, inner) => {
                lemma_encoder_output_is_produced(*inner);
            },
            SpecDatum::NewtypeVariant(name, inner) => {
                lemma_encoder_output_is_produced(*inner);
                lemma_tagged_is_produced(name, VALUE@, serialized(*inner)->Ok_0);
            },
            SpecDatum::Sequence(items) => {
                lemma_items_are_produced(items);
            },
            SpecDatum::Tuple(items) => {
                lemma_items_are_produced(items);
            },
            SpecDatum::TupleStruct(items) => {
                lemma_items_are_produced(items);
            },
            SpecDatum::TupleVariant(name, items) => {
                lemma_items_are_produced(items);
                lemma_tagged_is_produced(
                    name,
                    VALUES@,
                    SpecValue::ArrayValue(serialized_items(items)->Ok_0),
                );
            },
            SpecDatum::Mapping(entries) => {
                lemma_entries_are_produced(entries);
            },
            SpecDatum::Struct(fields) => {
                lemma_fields_are_produced(fields);
            },
            SpecDatum::StructVariant(name, fields) => {
                lemma_fields_are_produced(fields);
                lemma_tagged_is_produced(
                    name,
                    VALUES@,
                    SpecValue::MapValue(serialized_fields(fields)->Ok_0),
                );
            },
            _ => {},
        }
    }
}

/// The map that stands for a variant is one that the encoder can have made,
/// where its payload is.
pub proof fn lemma_tagged_is_produced(variant: Seq<char>, key: Seq<char>, payload: SpecValue)
    requires
        key == VALUE@ || key == VALUES@,
        produced(payload),
    ensures
        produced(tagged(variant, key, payload)),
{
    lemma_reserved_names_differ();
    let fields = seq![(TYPE@, SpecValue::StringValue(variant)), (key, payload)];
    assert(produced(fields[0].1));
    assert(produced(fields[1].1));
    assert(produced_fields(fields));
}

/// What the items of an ordered aggregate encode to are values that the
/// encoder can have made.
pub proof fn lemma_items_are_produced(items: Seq<SpecDatum>)
    requires
        serialized_items(items) is Ok,
    ensures
        produced(SpecValue::ArrayValue(serialized_items(items)->Ok_0)),
    decreases items, 0nat,
{
    lemma_items_pointwise(items);
    let values = serialized_items(items)->Ok_0;
    assert forall|i: int| 0 <= i < values.len() implies produced(#[trigger] values[i]) by {
        lemma_encoder_output_is_produced(items[i]);
    }
}

/// What the entries of a map encode to is a map that the encoder can have made.
pub proof fn lemma_entries_are_produced(entries: Seq<(SpecDatum, SpecDatum)>)
    requires
        serialized_entries(entries) is Ok,
    ensures
        produced_fields(serialized_entries(entries)->Ok_0),
    decreases entries, 0nat,
{
    if entries.len() > 0 {
        let front = entries.drop_last();
        lemma_entries_are_produced(front);
        let last = entries.last();
        lemma_encoder_output_is_produced(last.1);
        lemma_insert_keeps_produced(
            serialized_entries(front)->Ok_0,
            serialized(last.0)->Ok_0->StringValue_0,
            serialized(last.1)->Ok_0,
        );
    }
}

/// What the fields of a struct encode to is a map that the encoder can have made.
pub proof fn lemma_fields_are_produced(fields: Seq<SpecField>)
    requires
        serialized_fields(fields) is Ok,
    ensures
        produced_fields(serialized_fields(fields)->Ok_0),
    decreases fields, 0nat,
{
    if fields.len() > 0 {
        let front = fields.drop_last();
        lemma_fields_are_produced(front);
        let last = fields.last();
        if !last.skip {
            lemma_encoder_output_is_produced(last.value);
            lemma_insert_keeps_produced(
                serialized_fields(front)->Ok_0,
                last.name,
                serialized(last.value)->Ok_0,
            );
        }
    }
}

/// The shape is that of a target that looks at nothing of what it is given.
pub open spec fn ignores(shape: SpecShape) -> bool
    decreases shape,
{
    match shape {
        SpecShape::IgnoredAny => true,
        SpecShape::Optional(inner) => ignores(*inner),
        SpecShape::NewtypeStruct(_, inner) => ignores(*inner),
        _ => false,
    }
}

/// A value of no kind is refused by every target that looks at what it is given.
pub proof fn lemma_value_of_no_kind_is_refused(shape: SpecShape)
    requires
        !ignores(shape),
    ensures
        deserialized(SpecValue::Unset, shape) is Err,
    decreases shape,
{
    match shape {
        SpecShape::Optional(inner) => {
            lemma_value_of_no_kind_is_refused(*inner);
        },
        SpecShape::NewtypeStruct(_, inner) => {
            lemma_value_of_no_kind_is_refused(*inner);
        },
        _ => {},
    }
}

} // verus!
