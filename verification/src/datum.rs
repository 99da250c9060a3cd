//! Structured values, described kind by kind: what the encoder takes and the
//! decoder gives back.

use vstd::prelude::*;

verus! {

/// A structured value. Each variant is one kind of shape that a value can
/// declare itself to have.
#[derive(Debug, PartialEq)]
pub enum Datum {
    Bool(bool),
    I8(i8),
    I16(i16),
    I32(i32),
    I64(i64),
    U8(u8),
    U16(u16),
    U32(u32),
    U64(u64),
    /// A single-precision number, held as the bit pattern of a
    /// double-precision number: of the one equal to it where it is to be
    /// encoded, of the one found on the wire where it was decoded. To widen
    /// and to narrow is left to whoever makes and reads the value.
    F32(u64),
    /// A double-precision number, held as its bit pattern.
    F64(u64),
    Char(char),
    Str(String),
    Bytes(Vec<u8>),
    /// An option that holds nothing.
    Absent,
    /// An option that holds a value.
    Present(Box<Datum>),
    Unit,
    /// A struct without fields.
    UnitStruct,
    /// A variant without payload, by its name.
    UnitVariant(String),
    /// A named wrapper around one value.
    NewtypeStruct(String, Box<Datum>),
    /// A variant, by its name, with one value as payload.
    NewtypeVariant(String, Box<Datum>),
    Sequence(Vec<Datum>),
    Tuple(Vec<Datum>),
    TupleStruct(Vec<Datum>),
    /// A variant, by its name, with a tuple as payload.
    TupleVariant(String, Vec<Datum>),
    /// Keys and values, in the order in which they are visited.
    Mapping(Vec<(Datum, Datum)>),
    Struct(Vec<Field>),
    /// A variant, by its name, with named fields as payload.
    StructVariant(String, Vec<Field>),
}

/// One named field of a struct or of a record-shaped variant.
#[derive(Debug, PartialEq)]
pub struct Field {
    pub name: String,
    pub value: Datum,
    /// A field marked so is left out of what is encoded.
    pub skip: bool,
}

/// The mathematical model of a [`Datum`].
pub ghost enum SpecDatum {
    Bool(bool),
    I8(i8),
    I16(i16),
    I32(i32),
    I64(i64),
    U8(u8),
    U16(u16),
    U32(u32),
    U64(u64),
    F32(u64),
    F64(u64),
    Char(char),
    Str(Seq<char>),
    Bytes(Seq<u8>),
    Absent,
    Present(Box<SpecDatum>),
    Unit,
    UnitStruct,
    UnitVariant(Seq<char>),
    NewtypeStruct(Seq<char>, Box<SpecDatum>),
    NewtypeVariant(Seq<char>, Box<SpecDatum>),
    Sequence(Seq<SpecDatum>),
    Tuple(Seq<SpecDatum>),
    TupleStruct(Seq<SpecDatum>),
    TupleVariant(Seq<char>, Seq<SpecDatum>),
    Mapping(Seq<(SpecDatum, SpecDatum)>),
    Struct(Seq<SpecField>),
    StructVariant(Seq<char>, Seq<SpecField>),
}

/// The mathematical model of a [`Field`].
pub ghost struct SpecField {
    pub name: Seq<char>,
    pub value: SpecDatum,
    pub skip: bool,
}

/// The model of one structured value.
pub open spec fn datum_model(datum: Datum) -> SpecDatum
    decreases datum,
{
    match datum {
        Datum::Bool(v) => SpecDatum::Bool(v),
        Datum::I8(v) => SpecDatum::I8(v),
        Datum::I16(v) => SpecDatum::I16(v),
        Datum::I32(v) => SpecDatum::I32(v),
        Datum::I64(v) => SpecDatum::I64(v),
        Datum::U8(v) => SpecDatum::U8(v),
        Datum::U16(v) => SpecDatum::U16(v),
        Datum::U32(v) => SpecDatum::U32(v),
        Datum::U64(v) => SpecDatum::U64(v),
        Datum::F32(bits) => SpecDatum::F32(bits),
        Datum::F64(bits) => SpecDatum::F64(bits),
        Datum::Char(c) => SpecDatum::Char(c),
        Datum::Str(s) => SpecDatum::Str(s@),
        Datum::Bytes(b) => SpecDatum::Bytes(b@),
        Datum::Absent => SpecDatum::Absent,
        Datum::Present(inner) => SpecDatum::Present(Box::new(datum_model(*inner))),
        Datum::Unit => SpecDatum::Unit,
        Datum::UnitStruct => SpecDatum::UnitStruct,
        Datum::UnitVariant(variant) => SpecDatum::UnitVariant(variant@),
        Datum::NewtypeStruct(name, inner) => SpecDatum::NewtypeStruct(
            name@,
            Box::new(datum_model(*inner)),
        ),
        Datum::NewtypeVariant(variant, inner) => SpecDatum::NewtypeVariant(
            variant@,
            Box::new(datum_model(*inner)),
        ),
        Datum::Sequence(items) => SpecDatum::Sequence(data_model(items)),
        Datum::Tuple(items) => SpecDatum::Tuple(data_model(items)),
        Datum::TupleStruct(items) => SpecDatum::TupleStruct(data_model(items)),
        Datum::TupleVariant(variant, items) => SpecDatum::TupleVariant(variant@, data_model(items)),
        Datum::Mapping(entries) => SpecDatum::Mapping(entries_model(entries)),
        Datum::Struct(fields) => SpecDatum::Struct(fields_model(fields)),
        Datum::StructVariant(variant, fields) => SpecDatum::StructVariant(
            variant@,
            fields_model(fields),
        ),
    }
}

/// The models of a run of structured values, one for one.
pub open spec fn data_model(items: Vec<Datum>) -> Seq<SpecDatum>
    decreases items,
{
    Seq::new(
        items@.len(),
        |i: int|
            if 0 <= i < items@.len() {
                datum_model(items@[i])
            } else {
                SpecDatum::Unit
            },
    )
}

/// The models of a run of entries, one for one.
pub open spec fn entries_model(entries: Vec<(Datum, Datum)>) -> Seq<(SpecDatum, SpecDatum)>
    decreases entries,
{
    Seq::new(
        entries@.len(),
        |i: int|
            if 0 <= i < entries@.len() {
                (datum_model(entries@[i].0), datum_model(entries@[i].1))
            } else {
                (SpecDatum::Unit, SpecDatum::Unit)
            },
    )
}

/// The models of a run of fields, one for one.
pub open spec fn fields_model(fields: Vec<Field>) -> Seq<SpecField>
    decreases fields,
{
    Seq::new(
        fields@.len(),
        |i: int|
            if 0 <= i < fields@.len() {
                SpecField {
                    name: fields@[i].name@,
                    value: datum_model(fields@[i].value),
                    skip: fields@[i].skip,
                }
            } else {
                SpecField { name: Seq::empty(), value: SpecDatum::Unit, skip: true }
            },
    )
}

impl View for Datum {
    type V = SpecDatum;

    open spec fn view(&self) -> SpecDatum {
        datum_model(*self)
    }
}

impl View for Field {
    type V = SpecField;

    open spec fn view(&self) -> SpecField {
        SpecField { name: self.name@, value: self.value@, skip: self.skip }
    }
}

} // verus!
