//! Why a validation did not succeed.

use crate::cel;
use crate::protobuf::ReadError;
use vstd::prelude::*;

verus! {

/// A descriptor that could not be registered.
#[derive(Debug)]
pub struct DescriptorError {
    message: String,
}

impl View for DescriptorError {
    type V = Seq<char>;

    closed spec fn view(&self) -> Seq<char> {
        self.message@
    }
}

impl DescriptorError {
    pub(crate) fn new(message: String) -> (r: DescriptorError)
        ensures
            r@ == message@,
    {
        DescriptorError { message }
    }

    /// The text of the error.
    pub fn text(&self) -> (r: &str)
        ensures
            r@ == self@,
    {
        self.message.as_str()
    }
}

/// One or more rule violations, carried by [`Error::Validation`] as a
/// serialized `buf.validate.Violations`.
#[derive(Debug)]
pub struct ValidationError {
    violations: Vec<u8>,
}

impl View for ValidationError {
    type V = Seq<u8>;

    closed spec fn view(&self) -> Seq<u8> {
        self.violations@
    }
}

impl ValidationError {
    pub(crate) fn new(violations: Vec<u8>) -> (r: ValidationError)
        ensures
            r@ == violations@,
    {
        ValidationError { violations }
    }

    /// The violations, as a serialized `buf.validate.Violations`.
    pub fn violations(&self) -> (r: &[u8])
        ensures
            r@ == self@,
    {
        self.violations.as_slice()
    }

    /// The text of the error.
    pub fn text(&self) -> (r: String)
        ensures
            r@ == "validation failed"@,
    {
        "validation failed".to_owned()
    }
}

/// A failed validation.
///
/// [`Validation`](Self::Validation) means the message broke its rules and
/// carries the violations, while every other variant means validation itself
/// did not run to completion. `E` is the error of the runtime that holds the
/// message.
#[derive(Debug)]
#[non_exhaustive]
pub enum Error<E> {
    /// The message broke one or more of its rules.
    Validation(ValidationError),
    /// Validation rules could not be compiled.
    Compilation(String),
    /// A rule failed while being evaluated.
    Evaluation(String),
    /// Bad input: an unparsable payload or an unknown type.
    Argument(String),
    /// A failure that fits no other category.
    Unexpected(String),
    /// The message could not be read.
    Read(ReadError<E>),
}

/// What an [`Error`] holds.
pub enum ErrorV<E> {
    Validation(Seq<u8>),
    Compilation(Seq<char>),
    Evaluation(Seq<char>),
    Argument(Seq<char>),
    Unexpected(Seq<char>),
    Read(E),
}

impl<E> View for Error<E> {
    type V = ErrorV<E>;

    open spec fn view(&self) -> ErrorV<E> {
        match self {
            Error::Validation(error) => ErrorV::Validation(error@),
            Error::Compilation(message) => ErrorV::Compilation(message@),
            Error::Evaluation(message) => ErrorV::Evaluation(message@),
            Error::Argument(message) => ErrorV::Argument(message@),
            Error::Unexpected(message) => ErrorV::Unexpected(message@),
            Error::Read(error) => ErrorV::Read(error@),
        }
    }
}

/// The error that a failure of the CEL backend is reported as once rules
/// run.
pub open spec fn from_cel<E>(error: cel::ErrorV) -> ErrorV<E> {
    match error {
        cel::ErrorV::Runtime(message) => ErrorV::Evaluation(message),
        cel::ErrorV::Argument(message) => ErrorV::Argument(message),
        cel::ErrorV::Compilation(message) => ErrorV::Unexpected(message),
        cel::ErrorV::Unexpected(message) => ErrorV::Unexpected(message),
    }
}

impl<E> Error<E> {
    /// The text of the error; none for a read that failed, whose error has
    /// its own.
    pub fn text(&self) -> (r: Option<String>)
        ensures
            match (r, self@) {
                (Some(text), ErrorV::Validation(_)) => text@ == "validation failed"@,
                (Some(text), ErrorV::Compilation(message)) => text@ == "compilation error: "@
                    + message,
                (Some(text), ErrorV::Evaluation(message)) => text@ == "evaluation error: "@
                    + message,
                (Some(text), ErrorV::Argument(message)) => text@ == "invalid argument: "@
                    + message,
                (Some(text), ErrorV::Unexpected(message)) => text@ == "unexpected error: "@
                    + message,
                (None, ErrorV::Read(_)) => true,
                _ => false,
            },
    {
        match self {
            Error::Validation(error) => Some(error.text()),
            Error::Compilation(message) => Some(
                crate::text::concat("compilation error: ", message.as_str()),
            ),
            Error::Evaluation(message) => Some(
                crate::text::concat("evaluation error: ", message.as_str()),
            ),
            Error::Argument(message) => Some(
                crate::text::concat("invalid argument: ", message.as_str()),
            ),
            Error::Unexpected(message) => Some(
                crate::text::concat("unexpected error: ", message.as_str()),
            ),
            Error::Read(_) => None,
        }
    }

    /// The error a failure of the CEL backend is reported as once rules run:
    /// an expression failing is an evaluation error, a payload the backend
    /// cannot parse an argument error, and anything else is unexpected.
    pub fn from_cel(error: cel::Error) -> (r: Error<E>)
        ensures
            r@ == from_cel::<E>(error@),
    {
        match error {
            cel::Error::Runtime(message) => Error::Evaluation(message),
            cel::Error::Argument(message) => Error::Argument(message),
            cel::Error::Compilation(message) => Error::Unexpected(message),
            cel::Error::Unexpected(message) => Error::Unexpected(message),
        }
    }
}

/// What an error of CEL says is kept. A failure to evaluate is one of the
/// evaluation, a wrong argument is one of the argument, and any other is
/// unexpected while a message is validated.
pub proof fn law_cel_errors_keep_their_text<E>(error: cel::ErrorV)
    ensures
        error is Runtime ==> from_cel::<E>(error) == ErrorV::<E>::Evaluation(error.text()),
        error is Argument ==> from_cel::<E>(error) == ErrorV::<E>::Argument(error.text()),
        error is Compilation || error is Unexpected ==> from_cel::<E>(error) == ErrorV::<
            E,
        >::Unexpected(error.text()),
        error matches cel::ErrorV::Runtime(m) ==> error.text() == m,
        error matches cel::ErrorV::Argument(m) ==> error.text() == m,
        error matches cel::ErrorV::Compilation(m) ==> error.text() == m,
        error matches cel::ErrorV::Unexpected(m) ==> error.text() == m,
{
}

} // verus!
