//! What can go wrong while a value is turned into a wire value.

use vstd::prelude::*;

verus! {

/// A failure to encode.
#[derive(Debug, PartialEq)]
pub enum SerializationError {
    /// A free-form message, for failures that have no kind of their own.
    Message(String),
    /// An unsigned 64-bit number above the largest signed one.
    OutsideIntRange(u64),
    /// A kind of value that the wire has no counterpart for.
    Unrepresentable(String),
    /// The top-level value of a document did not encode to a map.
    NotAMap,
    /// A map key did not encode to a string.
    NonStringKey,
}

/// The mathematical model of a [`SerializationError`].
pub ghost enum SpecSerializationError {
    Message(Seq<char>),
    OutsideIntRange(u64),
    Unrepresentable(Seq<char>),
    NotAMap,
    NonStringKey,
}

impl View for SerializationError {
    type V = SpecSerializationError;

    open spec fn view(&self) -> SpecSerializationError {
        match self {
            SerializationError::Message(text) => SpecSerializationError::Message(text@),
            SerializationError::OutsideIntRange(v) => SpecSerializationError::OutsideIntRange(*v),
            SerializationError::Unrepresentable(kind) => SpecSerializationError::Unrepresentable(
                kind@,
            ),
            SerializationError::NotAMap => SpecSerializationError::NotAMap,
            SerializationError::NonStringKey => SpecSerializationError::NonStringKey,
        }
    }
}

impl SerializationError {
    /// The error that carries `msg` and nothing else.
    pub fn custom(msg: &str) -> (error: SerializationError)
        ensures
            error@ == SpecSerializationError::Message(msg@),
    {
        SerializationError::Message(msg.to_owned())
    }
}

} // verus!
