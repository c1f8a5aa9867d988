//! What the validator tells a runtime about a field it asks for.

use vstd::prelude::*;

verus! {

/// A Protobuf scalar type.
#[derive(Clone, Copy, Debug, PartialEq, Eq, Structural)]
pub enum Scalar {
    Bool,
    Int32,
    Int64,
    Uint32,
    Uint64,
    Sint32,
    Sint64,
    Fixed32,
    Fixed64,
    Sfixed32,
    Sfixed64,
    Float,
    Double,
    String,
    Bytes,
}

/// The type of one value: a singular field's, a list's elements', a map's
/// keys' or values'.
#[derive(Clone, Copy, Debug, PartialEq, Eq, Structural)]
pub enum Singular {
    Scalar(Scalar),
    /// An enum, read as its number.
    Enum,
    /// A message, of the type [`Field::message_type`] names.
    Message,
}

/// How a field holds its values.
#[derive(Clone, Copy, Debug, PartialEq, Eq, Structural)]
pub enum Kind {
    /// One value.
    Singular(Singular),
    /// A repeated field.
    List(Singular),
    /// A map field.
    Mapping { key: Scalar, value: Singular },
}

/// A field of the message being validated, as the validator describes it
/// when asking a [`Message`](super::Message) for it.
///
/// The description is resolved from the descriptors registered with the
/// validator, and provided to a runtime.
#[derive(Debug)]
pub struct Field {
    number: u32,
    name: String,
    kind: Kind,
    message_type: Option<String>,
    has_presence: bool,
    oneof: Option<String>,
}

/// What a [`Field`] holds.
pub struct FieldV {
    pub number: u32,
    pub name: Seq<char>,
    pub kind: Kind,
    pub message_type: Option<Seq<char>>,
    pub has_presence: bool,
    pub oneof: Option<Seq<char>>,
}

impl View for Field {
    type V = FieldV;

    closed spec fn view(&self) -> FieldV {
        FieldV {
            number: self.number,
            name: self.name@,
            kind: self.kind,
            message_type: crate::validate::text_of(self.message_type),
            has_presence: self.has_presence,
            oneof: crate::validate::text_of(self.oneof),
        }
    }
}

/// A field of a well-known type, which the rules read for themselves.
pub open spec fn well_known_field(number: u32, name: Seq<char>, kind: Kind) -> FieldV {
    FieldV { number, name, kind, message_type: None, has_presence: false, oneof: None }
}

/// What the fields hold.
pub open spec fn fields_of(fields: Seq<Field>) -> Seq<FieldV> {
    fields.map_values(|f: Field| f@)
}

impl Field {
    /// The field so described.
    pub(crate) fn new(
        number: u32,
        name: String,
        kind: Kind,
        message_type: Option<String>,
        has_presence: bool,
        oneof: Option<String>,
    ) -> (r: Field)
        ensures
            r@ == (FieldV {
                number,
                name: name@,
                kind,
                message_type: crate::validate::text_of(message_type),
                has_presence,
                oneof: crate::validate::text_of(oneof),
            }),
    {
        Field { number, name, kind, message_type, has_presence, oneof }
    }

    /// A field of a well-known type, which the rules read for themselves.
    /// The well-known types are proto3, so no such field tracks presence.
    pub(crate) fn well_known(number: u32, name: &str, kind: Kind) -> (r: Field)
        ensures
            r@ == well_known_field(number, name@, kind),
    {
        Field {
            number,
            name: name.to_owned(),
            kind,
            message_type: None,
            has_presence: false,
            oneof: None,
        }
    }

    /// The same description.
    pub fn copy(&self) -> (r: Field)
        ensures
            r@ == self@,
    {
        Field {
            number: self.number,
            name: self.name.clone(),
            kind: self.kind,
            message_type: crate::validate::copy_text(&self.message_type),
            has_presence: self.has_presence,
            oneof: crate::validate::copy_text(&self.oneof),
        }
    }

    /// The field number.
    pub fn number(&self) -> (r: u32)
        ensures
            r == self@.number,
    {
        self.number
    }

    /// The field's name in the `.proto` source.
    pub fn name(&self) -> (r: &str)
        ensures
            r@ == self@.name,
    {
        self.name.as_str()
    }

    /// How the field holds its values.
    pub fn kind(&self) -> (r: Kind)
        ensures
            r == self@.kind,
    {
        self.kind
    }

    /// The fully-qualified name of the message type the field holds: its
    /// value's for a singular field, its elements' for a list, its values'
    /// for a map. `None` when it is not a message.
    pub fn message_type(&self) -> (r: Option<&str>)
        ensures
            match (r, self@.message_type) {
                (Some(name), Some(expected)) => name@ == expected,
                (None, None) => true,
                _ => false,
            },
    {
        match &self.message_type {
            Some(name) => Some(name.as_str()),
            None => None,
        }
    }

    /// Whether the field tracks presence, so that
    /// [`Message::has`](super::Message::has) means set rather than
    /// non-default. Never for a list or map.
    pub fn has_presence(&self) -> (r: bool)
        ensures
            r == self@.has_presence,
    {
        self.has_presence
    }

    /// The name of the oneof the field is a member of. A proto3 `optional`
    /// field's synthetic oneof does not count.
    pub fn oneof(&self) -> (r: Option<&str>)
        ensures
            match (r, self@.oneof) {
                (Some(name), Some(expected)) => name@ == expected,
                (None, None) => true,
                _ => false,
            },
    {
        match &self.oneof {
            Some(name) => Some(name.as_str()),
            None => None,
        }
    }
}

} // verus!
