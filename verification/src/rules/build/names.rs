//! The names that rules messages and types go by.

use crate::descriptors::{FieldDescriptor, FieldKind, SingularKind};
use crate::protobuf::Scalar;
use crate::rules::plan::{
    expected_type, rules_field, rules_message, scalar_kind_of, shape_of_kind, type_text,
};
use crate::rules::{ScalarKind, Shape};
use crate::validate::rules::RulesType;
use crate::validate::Type;
use vstd::prelude::*;

verus! {

/// The field of `FieldRules` that holds the rules.
pub(crate) fn field_name(rules: &RulesType) -> (r: &'static str)
    ensures
        r@ == rules_field(*rules),
{
    match rules {
        RulesType::Float(_) => "float",
        RulesType::Double(_) => "double",
        RulesType::Int32(_) => "int32",
        RulesType::Int64(_) => "int64",
        RulesType::Uint32(_) => "uint32",
        RulesType::Uint64(_) => "uint64",
        RulesType::Sint32(_) => "sint32",
        RulesType::Sint64(_) => "sint64",
        RulesType::Fixed32(_) => "fixed32",
        RulesType::Fixed64(_) => "fixed64",
        RulesType::Sfixed32(_) => "sfixed32",
        RulesType::Sfixed64(_) => "sfixed64",
        RulesType::Bool(_) => "bool",
        RulesType::String(_) => "string",
        RulesType::Bytes(_) => "bytes",
        RulesType::Enum(_) => "enum",
        RulesType::Repeated(_) => "repeated",
        RulesType::Mapping(_) => "map",
        RulesType::Any(_) => "any",
        RulesType::Duration(_) => "duration",
        RulesType::FieldMask(_) => "field_mask",
        RulesType::Timestamp(_) => "timestamp",
    }
}

/// The full name of the rules message.
pub(crate) fn message_name(rules: &RulesType) -> (r: &'static str)
    ensures
        r@ == rules_message(*rules),
{
    match rules {
        RulesType::Float(_) => "buf.validate.FloatRules",
        RulesType::Double(_) => "buf.validate.DoubleRules",
        RulesType::Int32(_) => "buf.validate.Int32Rules",
        RulesType::Int64(_) => "buf.validate.Int64Rules",
        RulesType::Uint32(_) => "buf.validate.UInt32Rules",
        RulesType::Uint64(_) => "buf.validate.UInt64Rules",
        RulesType::Sint32(_) => "buf.validate.SInt32Rules",
        RulesType::Sint64(_) => "buf.validate.SInt64Rules",
        RulesType::Fixed32(_) => "buf.validate.Fixed32Rules",
        RulesType::Fixed64(_) => "buf.validate.Fixed64Rules",
        RulesType::Sfixed32(_) => "buf.validate.SFixed32Rules",
        RulesType::Sfixed64(_) => "buf.validate.SFixed64Rules",
        RulesType::Bool(_) => "buf.validate.BoolRules",
        RulesType::String(_) => "buf.validate.StringRules",
        RulesType::Bytes(_) => "buf.validate.BytesRules",
        RulesType::Enum(_) => "buf.validate.EnumRules",
        RulesType::Repeated(_) => "buf.validate.RepeatedRules",
        RulesType::Mapping(_) => "buf.validate.MapRules",
        RulesType::Any(_) => "buf.validate.AnyRules",
        RulesType::Duration(_) => "buf.validate.DurationRules",
        RulesType::FieldMask(_) => "buf.validate.FieldMaskRules",
        RulesType::Timestamp(_) => "buf.validate.TimestampRules",
    }
}

/// The standard rules of a scalar type: the field type they expect, and the
/// wrapper message that also satisfies them (none for the types without a
/// wrapper).
pub(crate) fn scalar_rules(rules: &RulesType) -> (r: Option<(Type, &'static str)>)
    ensures
        match (r, expected_type(*rules)) {
            (Some((ty, wrapper)), Some((expected, name))) => ty == expected && wrapper@ == name,
            (None, None) => true,
            _ => false,
        },
{
    match rules {
        RulesType::Float(_) => Some((Type::Float, "google.protobuf.FloatValue")),
        RulesType::Double(_) => Some((Type::Double, "google.protobuf.DoubleValue")),
        RulesType::Int32(_) => Some((Type::Int32, "google.protobuf.Int32Value")),
        RulesType::Int64(_) => Some((Type::Int64, "google.protobuf.Int64Value")),
        RulesType::Uint32(_) => Some((Type::Uint32, "google.protobuf.UInt32Value")),
        RulesType::Uint64(_) => Some((Type::Uint64, "google.protobuf.UInt64Value")),
        RulesType::Sint32(_) => Some((Type::Sint32, "")),
        RulesType::Sint64(_) => Some((Type::Sint64, "")),
        RulesType::Fixed32(_) => Some((Type::Fixed32, "")),
        RulesType::Fixed64(_) => Some((Type::Fixed64, "")),
        RulesType::Sfixed32(_) => Some((Type::Sfixed32, "")),
        RulesType::Sfixed64(_) => Some((Type::Sfixed64, "")),
        RulesType::Bool(_) => Some((Type::Bool, "google.protobuf.BoolValue")),
        RulesType::String(_) => Some((Type::String, "google.protobuf.StringValue")),
        RulesType::Bytes(_) => Some((Type::Bytes, "google.protobuf.BytesValue")),
        RulesType::Enum(_) => Some((Type::Enum, "")),
        RulesType::Repeated(_)
        | RulesType::Mapping(_)
        | RulesType::Any(_)
        | RulesType::Duration(_)
        | RulesType::FieldMask(_)
        | RulesType::Timestamp(_) => None,
    }
}

/// A type in error messages.
pub(crate) fn type_label(ty: Type) -> (r: &'static str)
    ensures
        r@ == type_text(ty),
{
    match ty {
        Type::Double => "double",
        Type::Float => "float",
        Type::Int64 => "int64",
        Type::Uint64 => "uint64",
        Type::Int32 => "int32",
        Type::Fixed64 => "fixed64",
        Type::Fixed32 => "fixed32",
        Type::Bool => "bool",
        Type::String => "string",
        Type::Group => "group",
        Type::Message => "message",
        Type::Bytes => "bytes",
        Type::Uint32 => "uint32",
        Type::Enum => "enum",
        Type::Sfixed32 => "sfixed32",
        Type::Sfixed64 => "sfixed64",
        Type::Sint32 => "sint32",
        Type::Sint64 => "sint64",
    }
}

/// How a value is handed to CEL, if it is a scalar.
pub(crate) fn scalar_kind(kind: SingularKind) -> (r: Option<ScalarKind>)
    ensures
        r == scalar_kind_of(kind),
{
    match kind {
        SingularKind::Scalar(scalar) => Some(
            match scalar {
                Scalar::Bool => ScalarKind::Bool,
                Scalar::Int32
                | Scalar::Int64
                | Scalar::Sint32
                | Scalar::Sint64
                | Scalar::Sfixed32
                | Scalar::Sfixed64 => ScalarKind::Int,
                Scalar::Uint32
                | Scalar::Uint64
                | Scalar::Fixed32
                | Scalar::Fixed64 => ScalarKind::Uint,
                Scalar::Float | Scalar::Double => ScalarKind::Double,
                Scalar::String => ScalarKind::String,
                Scalar::Bytes => ScalarKind::Bytes,
            },
        ),
        SingularKind::Enum(_) => Some(ScalarKind::Int),
        SingularKind::Message(_) => None,
    }
}

/// How a field holds its values.
pub(crate) fn shape_of(field: &FieldDescriptor) -> (r: Shape)
    ensures
        r == shape_of_kind(field.kind),
{
    match field.kind {
        FieldKind::Singular(_) => Shape::Singular,
        FieldKind::List(_) => Shape::List,
        FieldKind::Mapping { key, .. } => Shape::Mapping { key },
    }
}

} // verus!
