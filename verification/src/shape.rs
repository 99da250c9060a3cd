//! Descriptions of targets: what kind of value the decoder is asked to read.

use vstd::prelude::*;

verus! {

/// The shape of a target, kind by kind.
#[derive(Debug, PartialEq)]
pub enum Shape {
    Bool,
    I8,
    I16,
    I32,
    I64,
    U8,
    U16,
    U32,
    U64,
    F32,
    F64,
    Char,
    /// Text that is borrowed from the wire value.
    Str,
    /// Text that is owned.
    Text,
    /// Bytes that are borrowed from the wire value.
    Bytes,
    /// Bytes that are owned.
    ByteBuf,
    /// An option of the shape given.
    Optional(Box<Shape>),
    Unit,
    UnitStruct,
    /// A named wrapper around the shape given.
    NewtypeStruct(String, Box<Shape>),
    /// Any number of elements of one shape.
    Sequence(Box<Shape>),
    /// As many elements as shapes are given, each of its own shape.
    Tuple(Vec<Shape>),
    TupleStruct(Vec<Shape>),
    /// Keys of the first shape with values of the second.
    Mapping(Box<Shape>, Box<Shape>),
    Struct(Vec<FieldShape>),
    /// A sum type, by its variants.
    Enum(Vec<VariantShape>),
    /// The name of a field or variant.
    Identifier,
    /// A target that takes whatever it is given and keeps nothing of it.
    IgnoredAny,
    /// A target that says nothing of its shape.
    Any,
}

/// One named field of a struct target.
#[derive(Debug, PartialEq)]
pub struct FieldShape {
    pub name: String,
    pub shape: Shape,
}

/// One variant of a sum-type target.
#[derive(Debug, PartialEq)]
pub struct VariantShape {
    pub name: String,
    pub payload: PayloadShape,
}

/// What a variant carries.
#[derive(Debug, PartialEq)]
pub enum PayloadShape {
    Unit,
    Newtype(Box<Shape>),
    Tuple(Vec<Shape>),
    Struct(Vec<FieldShape>),
}

/// The mathematical model of a [`Shape`].
pub ghost enum SpecShape {
    Bool,
    I8,
    I16,
    I32,
    I64,
    U8,
    U16,
    U32,
    U64,
    F32,
    F64,
    Char,
    Str,
    Text,
    Bytes,
    ByteBuf,
    Optional(Box<SpecShape>),
    Unit,
    UnitStruct,
    NewtypeStruct(Seq<char>, Box<SpecShape>),
    Sequence(Box<SpecShape>),
    Tuple(Seq<SpecShape>),
    TupleStruct(Seq<SpecShape>),
    Mapping(Box<SpecShape>, Box<SpecShape>),
    Struct(Seq<SpecFieldShape>),
    Enum(Seq<SpecVariantShape>),
    Identifier,
    IgnoredAny,
    Any,
}

/// The mathematical model of a [`FieldShape`].
pub ghost struct SpecFieldShape {
    pub name: Seq<char>,
    pub shape: SpecShape,
}

/// The mathematical model of a [`VariantShape`].
pub ghost struct SpecVariantShape {
    pub name: Seq<char>,
    pub payload: SpecPayloadShape,
}

/// The mathematical model of a [`PayloadShape`].
pub ghost enum SpecPayloadShape {
    Unit,
    Newtype(Box<SpecShape>),
    Tuple(Seq<SpecShape>),
    Struct(Seq<SpecFieldShape>),
}

/// The model of one shape.
pub open spec fn shape_model(shape: Shape) -> SpecShape
    decreases shape,
{
    match shape {
        Shape::Bool => SpecShape::Bool,
        Shape::I8 => SpecShape::I8,
        Shape::I16 => SpecShape::I16,
        Shape::I32 => SpecShape::I32,
        Shape::I64 => SpecShape::I64,
        Shape::U8 => SpecShape::U8,
        Shape::U16 => SpecShape::U16,
        Shape::U32 => SpecShape::U32,
        Shape::U64 => SpecShape::U64,
        Shape::F32 => SpecShape::F32,
        Shape::F64 => SpecShape::F64,
        Shape::Char => SpecShape::Char,
        Shape::Str => SpecShape::Str,
        Shape::Text => SpecShape::Text,
        Shape::Bytes => SpecShape::Bytes,
        Shape::ByteBuf => SpecShape::ByteBuf,
        Shape::Optional(inner) => SpecShape::Optional(Box::new(shape_model(*inner))),
        Shape::Unit => SpecShape::Unit,
        Shape::UnitStruct => SpecShape::UnitStruct,
        Shape::NewtypeStruct(name, inner) => SpecShape::NewtypeStruct(
            name@,
            Box::new(shape_model(*inner)),
        ),
        Shape::Sequence(element) => SpecShape::Sequence(Box::new(shape_model(*element))),
        Shape::Tuple(shapes) => SpecShape::Tuple(shapes_model(shapes)),
        Shape::TupleStruct(shapes) => SpecShape::TupleStruct(shapes_model(shapes)),
        Shape::Mapping(key, value) => SpecShape::Mapping(
            Box::new(shape_model(*key)),
            Box::new(shape_model(*value)),
        ),
        Shape::Struct(fields) => SpecShape::Struct(field_shapes_model(fields)),
        Shape::Enum(variants) => SpecShape::Enum(variants_model(variants)),
        Shape::Identifier => SpecShape::Identifier,
        Shape::IgnoredAny => SpecShape::IgnoredAny,
        Shape::Any => SpecShape::Any,
    }
}

/// The model of what a variant carries.
pub open spec fn payload_model(payload: PayloadShape) -> SpecPayloadShape
    decreases payload,
{
    match payload {
        PayloadShape::Unit => SpecPayloadShape::Unit,
        PayloadShape::Newtype(inner) => SpecPayloadShape::Newtype(Box::new(shape_model(*inner))),
        PayloadShape::Tuple(shapes) => SpecPayloadShape::Tuple(shapes_model(shapes)),
        PayloadShape::Struct(fields) => SpecPayloadShape::Struct(field_shapes_model(fields)),
    }
}

/// The models of a run of variants, one for one.
pub open spec fn variants_model(variants: Vec<VariantShape>) -> Seq<SpecVariantShape>
    decreases variants,
{
    Seq::new(
        variants@.len(),
        |i: int|
            if 0 <= i < variants@.len() {
                SpecVariantShape {
                    name: variants@[i].name@,
                    payload: payload_model(variants@[i].payload),
                }
            } else {
                SpecVariantShape { name: Seq::empty(), payload: SpecPayloadShape::Unit }
            },
    )
}

/// The models of a run of shapes, one for one.
pub open spec fn shapes_model(shapes: Vec<Shape>) -> Seq<SpecShape>
    decreases shapes,
{
    Seq::new(
        shapes@.len(),
        |i: int|
            if 0 <= i < shapes@.len() {
                shape_model(shapes@[i])
            } else {
                SpecShape::Unit
            },
    )
}

/// The models of a run of field shapes, one for one.
pub open spec fn field_shapes_model(fields: Vec<FieldShape>) -> Seq<SpecFieldShape>
    decreases fields,
{
    Seq::new(
        fields@.len(),
        |i: int|
            if 0 <= i < fields@.len() {
                SpecFieldShape { name: fields@[i].name@, shape: shape_model(fields@[i].shape) }
            } else {
                SpecFieldShape { name: Seq::empty(), shape: SpecShape::Unit }
            },
    )
}

impl View for Shape {
    type V = SpecShape;

    open spec fn view(&self) -> SpecShape {
        shape_model(*self)
    }
}

impl View for PayloadShape {
    type V = SpecPayloadShape;

    open spec fn view(&self) -> SpecPayloadShape {
        payload_model(*self)
    }
}

impl View for FieldShape {
    type V = SpecFieldShape;

    open spec fn view(&self) -> SpecFieldShape {
        SpecFieldShape { name: self.name@, shape: self.shape@ }
    }
}

impl View for VariantShape {
    type V = SpecVariantShape;

    open spec fn view(&self) -> SpecVariantShape {
        SpecVariantShape { name: self.name@, payload: self.payload@ }
    }
}

} // verus!
