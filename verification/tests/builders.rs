use firestore_serde::datum::Datum;
use firestore_serde::firestore::{FieldMap, WireValue};
use firestore_serde::serialize::array_builder::ArrayBuilder;
use firestore_serde::serialize::error::SerializationError;
use firestore_serde::serialize::kv_map_builder::KVMapBuilder;
use firestore_serde::serialize::map_builder::MapBuilder;
use firestore_serde::serialize::named_array_builder::NamedArrayBuilder;
use firestore_serde::serialize::named_map_builder::NamedMapBuilder;
use firestore_serde::serialize::ValueSerializer;

fn text(s: &str) -> WireValue {
    WireValue::StringValue(s.to_string())
}

fn map_of(entries: Vec<(&str, WireValue)>) -> WireValue {
    WireValue::MapValue(FieldMap::from_entries(
        entries
            .into_iter()
            .map(|(k, v)| (k.to_string(), v))
            .collect(),
    ))
}

#[test]
fn an_array_is_built_in_order() {
    let mut builder = ArrayBuilder::with_capacity(2);
    builder.serialize_element(&Datum::I8(1)).unwrap();
    builder.serialize_field(&Datum::Bool(true)).unwrap();
    builder.push(text("x"));
    assert_eq!(
        WireValue::ArrayValue(vec![
            WireValue::IntegerValue(1),
            WireValue::BooleanValue(true),
            text("x")
        ]),
        builder.end().unwrap()
    );
    assert_eq!(
        WireValue::ArrayValue(vec![]),
        ArrayBuilder::default().end().unwrap()
    );
}

#[test]
fn an_item_that_fails_is_not_appended() {
    let mut builder = ArrayBuilder::with_capacity(0);
    builder.serialize_element(&Datum::I8(1)).unwrap();
    assert_eq!(
        SerializationError::Unrepresentable("()".to_string()),
        builder.serialize_element(&Datum::Unit).unwrap_err()
    );
    assert_eq!(
        WireValue::ArrayValue(vec![WireValue::IntegerValue(1)]),
        builder.end().unwrap()
    );
}

#[test]
fn a_struct_is_built_under_the_names_of_its_fields() {
    let mut builder = MapBuilder::with_capacity(2);
    builder.serialize_field("a", &Datum::I8(1)).unwrap();
    builder.skip_field("b").unwrap();
    builder.insert("c", text("x"));
    assert_eq!(
        SerializationError::OutsideIntRange(u64::MAX),
        builder
            .serialize_field("d", &Datum::U64(u64::MAX))
            .unwrap_err()
    );
    assert_eq!(
        map_of(vec![("a", WireValue::IntegerValue(1)), ("c", text("x"))]),
        builder.end().unwrap()
    );
}

#[test]
fn a_map_is_built_key_by_key() {
    let mut builder = KVMapBuilder::with_capacity(1);
    assert!(!builder.has_pending_key());
    builder.serialize_key(&Datum::Str("a".to_string())).unwrap();
    assert!(builder.has_pending_key());
    builder.serialize_value(&Datum::I8(1)).unwrap();
    assert!(!builder.has_pending_key());
    builder.put_key(text("b")).unwrap();
    builder.put_value(WireValue::NullValue);
    assert_eq!(
        map_of(vec![
            ("a", WireValue::IntegerValue(1)),
            ("b", WireValue::NullValue)
        ]),
        builder.end().unwrap()
    );
    assert_eq!(
        WireValue::MapValue(FieldMap::new()),
        KVMapBuilder::default().end().unwrap()
    );
}

#[test]
fn a_key_that_is_no_string_is_refused() {
    let mut builder = KVMapBuilder::default();
    assert_eq!(
        SerializationError::NonStringKey,
        builder.serialize_key(&Datum::Bool(true)).unwrap_err()
    );
    assert_eq!(
        SerializationError::NonStringKey,
        builder.put_key(WireValue::IntegerValue(1)).unwrap_err()
    );
    assert_eq!(
        SerializationError::Unrepresentable("()".to_string()),
        builder.serialize_key(&Datum::Unit).unwrap_err()
    );
    assert!(!builder.has_pending_key());
}

#[test]
fn a_value_that_fails_uses_up_its_key() {
    let mut builder = KVMapBuilder::default();
    builder.serialize_key(&Datum::Char('k')).unwrap();
    assert_eq!(
        SerializationError::Unrepresentable("unit_struct".to_string()),
        builder.serialize_value(&Datum::UnitStruct).unwrap_err()
    );
    assert!(!builder.has_pending_key());
    builder.put_key(text("again")).unwrap();
    builder.drop_key();
    assert!(!builder.has_pending_key());
    assert_eq!(
        WireValue::MapValue(FieldMap::new()),
        builder.end().unwrap()
    );
}

#[test]
fn a_tuple_variant_is_tagged_with_its_name() {
    let mut builder = NamedArrayBuilder::with_capacity("V".to_string(), 2);
    builder.serialize_field(&Datum::I8(1)).unwrap();
    builder.push(text("x"));
    assert_eq!(
        map_of(vec![
            ("type", text("V")),
            (
                "values",
                WireValue::ArrayValue(vec![WireValue::IntegerValue(1), text("x")])
            ),
        ]),
        builder.end().unwrap()
    );
}

#[test]
fn a_record_variant_is_tagged_with_its_name() {
    let mut builder = NamedMapBuilder::with_capacity("V".to_string(), 2);
    builder.serialize_field("a", &Datum::I8(1)).unwrap();
    builder.skip_field("b").unwrap();
    builder.insert("type", text("inner"));
    assert_eq!(
        map_of(vec![
            ("type", text("V")),
            (
                "values",
                map_of(vec![("a", WireValue::IntegerValue(1)), ("type", text("inner"))])
            ),
        ]),
        builder.end().unwrap()
    );
}

#[test]
fn the_encoder_hands_out_empty_accumulators() {
    let serializer = ValueSerializer;
    assert_eq!(
        WireValue::ArrayValue(vec![]),
        serializer.serialize_seq(None).unwrap().end().unwrap()
    );
    assert_eq!(
        WireValue::ArrayValue(vec![]),
        serializer.serialize_seq(Some(3)).unwrap().end().unwrap()
    );
    assert_eq!(
        WireValue::ArrayValue(vec![]),
        serializer.serialize_tuple(3).unwrap().end().unwrap()
    );
    assert_eq!(
        WireValue::ArrayValue(vec![]),
        serializer
            .serialize_tuple_struct("T", 3)
            .unwrap()
            .end()
            .unwrap()
    );
    assert_eq!(
        WireValue::MapValue(FieldMap::new()),
        serializer.serialize_map(None).unwrap().end().unwrap()
    );
    assert_eq!(
        WireValue::MapValue(FieldMap::new()),
        serializer.serialize_struct("S", 0).unwrap().end().unwrap()
    );
    assert_eq!(
        map_of(vec![("type", text("V")), ("values", WireValue::ArrayValue(vec![]))]),
        serializer
            .serialize_tuple_variant("E", 0, "V", 0)
            .unwrap()
            .end()
            .unwrap()
    );
    assert_eq!(
        map_of(vec![
            ("type", text("V")),
            ("values", WireValue::MapValue(FieldMap::new()))
        ]),
        serializer
            .serialize_struct_variant("E", 0, "V", 0)
            .unwrap()
            .end()
            .unwrap()
    );
}

#[test]
fn the_encoder_takes_each_scalar() {
    let serializer = ValueSerializer;
    assert_eq!(
        WireValue::BooleanValue(true),
        serializer.serialize_bool(true).unwrap()
    );
    assert_eq!(
        WireValue::IntegerValue(-1),
        serializer.serialize_i8(-1).unwrap()
    );
    assert_eq!(
        WireValue::IntegerValue(-2),
        serializer.serialize_i16(-2).unwrap()
    );
    assert_eq!(
        WireValue::IntegerValue(-3),
        serializer.serialize_i32(-3).unwrap()
    );
    assert_eq!(
        WireValue::IntegerValue(-4),
        serializer.serialize_i64(-4).unwrap()
    );
    assert_eq!(
        WireValue::IntegerValue(1),
        serializer.serialize_u8(1).unwrap()
    );
    assert_eq!(
        WireValue::IntegerValue(2),
        serializer.serialize_u16(2).unwrap()
    );
    assert_eq!(
        WireValue::IntegerValue(3),
        serializer.serialize_u32(3).unwrap()
    );
    assert_eq!(
        WireValue::IntegerValue(4),
        serializer.serialize_u64(4).unwrap()
    );
    assert_eq!(
        WireValue::DoubleValue(1.5f64.to_bits()),
        serializer.serialize_f32(f64::from(1.5f32).to_bits()).unwrap()
    );
    assert_eq!(
        WireValue::DoubleValue(2.5f64.to_bits()),
        serializer.serialize_f64(2.5f64.to_bits()).unwrap()
    );
    assert_eq!(text("s"), serializer.serialize_str("s").unwrap());
    assert_eq!(
        WireValue::BytesValue(vec![1]),
        serializer.serialize_bytes(&[1]).unwrap()
    );
    assert_eq!(WireValue::NullValue, serializer.serialize_none().unwrap());
    assert_eq!(
        WireValue::IntegerValue(5),
        serializer.serialize_some(&Datum::I8(5)).unwrap()
    );
    assert_eq!(
        text("V"),
        serializer.serialize_unit_variant("E", 0, "V").unwrap()
    );
    assert_eq!(
        map_of(vec![("type", text("V")), ("value", WireValue::NullValue)]),
        serializer.newtype_variant("V", WireValue::NullValue)
    );
    assert_eq!(
        map_of(vec![("type", text("V")), ("value", WireValue::IntegerValue(5))]),
        serializer
            .serialize_newtype_variant("E", 0, "V", &Datum::I8(5))
            .unwrap()
    );
    assert!(serializer.is_timestamp_marker("$TimestampValue"));
    assert!(!serializer.is_timestamp_marker("TimestampValue"));
    assert_eq!(
        SerializationError::Message("why".to_string()),
        SerializationError::custom("why")
    );
}
