//! What can go wrong while a wire value is turned back into a value.

use crate::firestore::{SpecValue, WireValue};
use vstd::prelude::*;

verus! {

/// A failure to decode.
#[derive(Debug, PartialEq)]
pub enum DeserializationError {
    /// A free-form message, for failures that have no kind of their own.
    Message(String),
    /// The wire value is not of a kind that the target can be read from.
    /// Holds the name of the kind that was asked for, and the value found.
    WrongType(&'static str, WireValue),
    /// The wire holds an integer that the target cannot hold. Holds the name
    /// of the target and the integer.
    IntRange(&'static str, i64),
    /// A map lacks a field that must be there.
    MissingField(&'static str),
    /// A kind of target that cannot be read from the wire at all.
    Unrepresentable(&'static str),
}

/// The mathematical model of a [`DeserializationError`].
pub ghost enum SpecDeserializationError {
    Message(Seq<char>),
    WrongType(Seq<char>, SpecValue),
    IntRange(Seq<char>, i64),
    MissingField(Seq<char>),
    Unrepresentable(Seq<char>),
}

impl View for DeserializationError {
    type V = SpecDeserializationError;

    open spec fn view(&self) -> SpecDeserializationError {
        match self {
            DeserializationError::Message(text) => SpecDeserializationError::Message(text@),
            DeserializationError::WrongType(expected, found) => SpecDeserializationError::WrongType(
                expected@,
                found@,
            ),
            DeserializationError::IntRange(target, value) => SpecDeserializationError::IntRange(
                target@,
                *value,
            ),
            DeserializationError::MissingField(field) => SpecDeserializationError::MissingField(
                field@,
            ),
            DeserializationError::Unrepresentable(kind) => SpecDeserializationError::Unrepresentable(
                kind@,
            ),
        }
    }
}

impl DeserializationError {
    /// The error that carries `msg` and nothing else.
    pub fn custom(msg: &str) -> (error: DeserializationError)
        ensures
            error@ == SpecDeserializationError::Message(msg@),
    {
        DeserializationError::Message(msg.to_owned())
    }
}

/// The model of what a decoding step returns: the value as it is, the error
/// by its model.
pub open spec fn outcome<T>(result: Result<T, DeserializationError>) -> Result<
    T,
    SpecDeserializationError,
> {
    match result {
        Ok(value) => Ok(value),
        Err(error) => Err(error@),
    }
}

} // verus!
