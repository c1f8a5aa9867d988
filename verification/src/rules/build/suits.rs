//! Which rules suit which values.

use super::super::plan::{
    entry_target, expected_type, field_target, ignores_empty, rules_field, rules_message,
    scalar_kind_of, shape_of_kind, type_text, Source, Target,
};
use super::super::{ScalarKind, Shape};
use crate::cel::Engine;
use crate::descriptors::{
    field_numbered, type_of_kind, type_of_scalar, value_kind, FieldDescriptor, FieldKind, FieldPresence,
    SingularKind,
};
use crate::error::ErrorV;
use crate::protobuf::Scalar;
use crate::validate::rules::{Ignore, RulesType, StandardRules};
use crate::validate::Type;
use vstd::prelude::*;

verus! {

/// The rules of scalar types, which one type suits.
pub open spec fn scalar_rules(rules: RulesType) -> bool {
    !(rules is Repeated || rules is Mapping || rules is Any || rules is Duration
        || rules is FieldMask || rules is Timestamp)
}

/// The text of a type tells it from the others.
pub proof fn law_texts_tell_types_apart(a: Type, b: Type)
    ensures
        type_text(a) == type_text(b) ==> a == b,
{
    reveal_strlit("double");
    reveal_strlit("float");
    reveal_strlit("int64");
    reveal_strlit("uint64");
    reveal_strlit("int32");
    reveal_strlit("fixed64");
    reveal_strlit("fixed32");
    reveal_strlit("bool");
    reveal_strlit("string");
    reveal_strlit("group");
    reveal_strlit("message");
    reveal_strlit("bytes");
    reveal_strlit("uint32");
    reveal_strlit("enum");
    reveal_strlit("sfixed32");
    reveal_strlit("sfixed64");
    reveal_strlit("sint32");
    reveal_strlit("sint64");
    let x = type_text(a);
    let y = type_text(b);
    if x == y {
        assert(x.len() == y.len());
        assert(x[0] == y[0]);
        assert(x[1] == y[1]);
        assert(x[3] == y[3]);
        assert(x[4] == y[4]);
        assert(x[5] == y[5]);
        assert(x[6] == y[6]);
        assert(a == b);
    }
}

/// Standard rules of a scalar type suit exactly the fields of the type that
/// they are named after. A field of another type that holds no message is
/// refused, and told both types.
pub proof fn law_scalar_rules_suit_the_type_of_their_name<C: Engine>(
    source: Source<C>,
    target: Target,
    rules: RulesType,
)
    requires
        scalar_rules(rules),
    ensures
        type_text(target.ty) == rules_field(rules) ==> source.mismatch(target, rules) is None,
        type_text(target.ty) != rules_field(rules) && target.ty != Type::Message
            ==> source.mismatch(target, rules) is Some,
        source.mismatch(target, rules) is Some ==> source.mismatch(target, rules) == Some(
            "field type does not match rule type: "@ + type_text(target.ty) + " != "@
                + rules_field(rules),
        ),
{
    let expected = expected_type(rules)->Some_0.0;
    assert(type_text(expected) == rules_field(rules));
    law_texts_tell_types_apart(target.ty, expected);
}

/// The text of each type is its name in `.proto` files.
pub proof fn law_types_are_named(ty: Type)
    ensures
        ty is Double ==> type_text(ty) == "double"@,
        ty is Float ==> type_text(ty) == "float"@,
        ty is Int64 ==> type_text(ty) == "int64"@,
        ty is Uint64 ==> type_text(ty) == "uint64"@,
        ty is Int32 ==> type_text(ty) == "int32"@,
        ty is Fixed64 ==> type_text(ty) == "fixed64"@,
        ty is Fixed32 ==> type_text(ty) == "fixed32"@,
        ty is Bool ==> type_text(ty) == "bool"@,
        ty is String ==> type_text(ty) == "string"@,
        ty is Group ==> type_text(ty) == "group"@,
        ty is Message ==> type_text(ty) == "message"@,
        ty is Bytes ==> type_text(ty) == "bytes"@,
        ty is Uint32 ==> type_text(ty) == "uint32"@,
        ty is Enum ==> type_text(ty) == "enum"@,
        ty is Sfixed32 ==> type_text(ty) == "sfixed32"@,
        ty is Sfixed64 ==> type_text(ty) == "sfixed64"@,
        ty is Sint32 ==> type_text(ty) == "sint32"@,
        ty is Sint64 ==> type_text(ty) == "sint64"@,
{
}

/// The rules of each type stand in the field of `FieldRules` that has the
/// name of the type.
pub proof fn law_rules_are_named(rules: RulesType)
    ensures
        rules is Double ==> rules_field(rules) == type_text(Type::Double),
        rules is Float ==> rules_field(rules) == type_text(Type::Float),
        rules is Int64 ==> rules_field(rules) == type_text(Type::Int64),
        rules is Uint64 ==> rules_field(rules) == type_text(Type::Uint64),
        rules is Int32 ==> rules_field(rules) == type_text(Type::Int32),
        rules is Fixed64 ==> rules_field(rules) == type_text(Type::Fixed64),
        rules is Fixed32 ==> rules_field(rules) == type_text(Type::Fixed32),
        rules is Bool ==> rules_field(rules) == type_text(Type::Bool),
        rules is String ==> rules_field(rules) == type_text(Type::String),
        rules is Bytes ==> rules_field(rules) == type_text(Type::Bytes),
        rules is Uint32 ==> rules_field(rules) == type_text(Type::Uint32),
        rules is Enum ==> rules_field(rules) == type_text(Type::Enum),
        rules is Sfixed32 ==> rules_field(rules) == type_text(Type::Sfixed32),
        rules is Sfixed64 ==> rules_field(rules) == type_text(Type::Sfixed64),
        rules is Sint32 ==> rules_field(rules) == type_text(Type::Sint32),
        rules is Sint64 ==> rules_field(rules) == type_text(Type::Sint64),
        rules is Repeated ==> rules_field(rules) == "repeated"@,
        rules is Mapping ==> rules_field(rules) == "map"@,
        rules is Any ==> rules_field(rules) == "any"@,
        rules is Duration ==> rules_field(rules) == "duration"@,
        rules is FieldMask ==> rules_field(rules) == "field_mask"@,
        rules is Timestamp ==> rules_field(rules) == "timestamp"@,
{
}

/// A letter in lower case.
pub open spec fn lower(c: char) -> char {
    if 'A' <= c && c <= 'Z' {
        ((c as u32) + 32) as char
    } else {
        c
    }
}

/// A text in lower case.
pub open spec fn lowered(text: Seq<char>) -> Seq<char> {
    text.map_values(|c: char| lower(c))
}

/// The rules message of a scalar type is named after the field that holds
/// the rules: but for the case of its letters it is the field's name, behind
/// the package and in front of `Rules`.
pub proof fn law_rules_messages_are_named_after_their_field(rules: RulesType)
    requires
        !(rules is FieldMask),
    ensures
        lowered(rules_message(rules)) == "buf.validate."@ + rules_field(rules) + "rules"@,
{
    reveal_strlit("buf.validate.");
    reveal_strlit("rules");
    match rules {
        RulesType::Double(_) => {
            reveal_strlit("double");
            reveal_strlit("buf.validate.DoubleRules");
            assert(lowered(rules_message(rules)) =~= "buf.validate."@ + rules_field(rules)
                + "rules"@);
        },
        RulesType::Float(_) => {
            reveal_strlit("float");
            reveal_strlit("buf.validate.FloatRules");
            assert(lowered(rules_message(rules)) =~= "buf.validate."@ + rules_field(rules)
                + "rules"@);
        },
        RulesType::Int64(_) => {
            reveal_strlit("int64");
            reveal_strlit("buf.validate.Int64Rules");
            assert(lowered(rules_message(rules)) =~= "buf.validate."@ + rules_field(rules)
                + "rules"@);
        },
        RulesType::Uint64(_) => {
            reveal_strlit("uint64");
            reveal_strlit("buf.validate.UInt64Rules");
            assert(lowered(rules_message(rules)) =~= "buf.validate."@ + rules_field(rules)
                + "rules"@);
        },
        RulesType::Int32(_) => {
            reveal_strlit("int32");
            reveal_strlit("buf.validate.Int32Rules");
            assert(lowered(rules_message(rules)) =~= "buf.validate."@ + rules_field(rules)
                + "rules"@);
        },
        RulesType::Fixed64(_) => {
            reveal_strlit("fixed64");
            reveal_strlit("buf.validate.Fixed64Rules");
            assert(lowered(rules_message(rules)) =~= "buf.validate."@ + rules_field(rules)
                + "rules"@);
        },
        RulesType::Fixed32(_) => {
            reveal_strlit("fixed32");
            reveal_strlit("buf.validate.Fixed32Rules");
            assert(lowered(rules_message(rules)) =~= "buf.validate."@ + rules_field(rules)
                + "rules"@);
        },
        RulesType::Bool(_) => {
            reveal_strlit("bool");
            reveal_strlit("buf.validate.BoolRules");
            assert(lowered(rules_message(rules)) =~= "buf.validate."@ + rules_field(rules)
                + "rules"@);
        },
        RulesType::String(_) => {
            reveal_strlit("string");
            reveal_strlit("buf.validate.StringRules");
            assert(lowered(rules_message(rules)) =~= "buf.validate."@ + rules_field(rules)
                + "rules"@);
        },
        RulesType::Bytes(_) => {
            reveal_strlit("bytes");
            reveal_strlit("buf.validate.BytesRules");
            assert(lowered(rules_message(rules)) =~= "buf.validate."@ + rules_field(rules)
                + "rules"@);
        },
        RulesType::Uint32(_) => {
            reveal_strlit("uint32");
            reveal_strlit("buf.validate.UInt32Rules");
            assert(lowered(rules_message(rules)) =~= "buf.validate."@ + rules_field(rules)
                + "rules"@);
        },
        RulesType::Enum(_) => {
            reveal_strlit("enum");
            reveal_strlit("buf.validate.EnumRules");
            assert(lowered(rules_message(rules)) =~= "buf.validate."@ + rules_field(rules)
                + "rules"@);
        },
        RulesType::Sfixed32(_) => {
            reveal_strlit("sfixed32");
            reveal_strlit("buf.validate.SFixed32Rules");
            assert(lowered(rules_message(rules)) =~= "buf.validate."@ + rules_field(rules)
                + "rules"@);
        },
        RulesType::Sfixed64(_) => {
            reveal_strlit("sfixed64");
            reveal_strlit("buf.validate.SFixed64Rules");
            assert(lowered(rules_message(rules)) =~= "buf.validate."@ + rules_field(rules)
                + "rules"@);
        },
        RulesType::Sint32(_) => {
            reveal_strlit("sint32");
            reveal_strlit("buf.validate.SInt32Rules");
            assert(lowered(rules_message(rules)) =~= "buf.validate."@ + rules_field(rules)
                + "rules"@);
        },
        RulesType::Sint64(_) => {
            reveal_strlit("sint64");
            reveal_strlit("buf.validate.SInt64Rules");
            assert(lowered(rules_message(rules)) =~= "buf.validate."@ + rules_field(rules)
                + "rules"@);
        },
        RulesType::Repeated(_) => {
            reveal_strlit("repeated");
            reveal_strlit("buf.validate.RepeatedRules");
            assert(lowered(rules_message(rules)) =~= "buf.validate."@ + rules_field(rules)
                + "rules"@);
        },
        RulesType::Mapping(_) => {
            reveal_strlit("map");
            reveal_strlit("buf.validate.MapRules");
            assert(lowered(rules_message(rules)) =~= "buf.validate."@ + rules_field(rules)
                + "rules"@);
        },
        RulesType::Any(_) => {
            reveal_strlit("any");
            reveal_strlit("buf.validate.AnyRules");
            assert(lowered(rules_message(rules)) =~= "buf.validate."@ + rules_field(rules)
                + "rules"@);
        },
        RulesType::Duration(_) => {
            reveal_strlit("duration");
            reveal_strlit("buf.validate.DurationRules");
            assert(lowered(rules_message(rules)) =~= "buf.validate."@ + rules_field(rules)
                + "rules"@);
        },
        RulesType::Timestamp(_) => {
            reveal_strlit("timestamp");
            reveal_strlit("buf.validate.TimestampRules");
            assert(lowered(rules_message(rules)) =~= "buf.validate."@ + rules_field(rules)
                + "rules"@);
        },
        RulesType::FieldMask(_) => {},
    }
}

/// The name of a rules message whose field has more than one word.
pub proof fn law_field_mask_rules_are_named(rules: RulesType)
    requires
        rules is FieldMask,
    ensures
        rules_message(rules) == "buf.validate.FieldMaskRules"@,
{
}

/// Whether a value is a message of the named type.
pub open spec fn holds_type<C: Engine>(
    source: Source<C>,
    target: Target,
    name: Seq<char>,
) -> bool {
    target.kind matches SingularKind::Message(index) && index < source.descriptors.messages@.len()
        && source.descriptors.messages@[index as int].full_name@ == name
}

/// Whether a value is a message of a registered type that has a name.
pub open spec fn holds_message<C: Engine>(source: Source<C>, target: Target) -> bool {
    target.kind matches SingularKind::Message(index) && index < source.descriptors.messages@.len()
        && source.descriptors.messages@[index as int].full_name@.len() > 0
}

/// Standard rules of a scalar type suit the wrapper message of the type too,
/// and no other message. The types without a wrapper suit none.
pub proof fn law_scalar_rules_suit_the_wrapper_of_their_type<C: Engine>(
    source: Source<C>,
    target: Target,
    rules: RulesType,
)
    requires
        scalar_rules(rules),
        target.ty == Type::Message,
        holds_message(source, target),
    ensures
        rules is Float ==> (source.mismatch(target, rules) is None <==> holds_type(
            source,
            target,
            "google.protobuf.FloatValue"@,
        )),
        rules is Double ==> (source.mismatch(target, rules) is None <==> holds_type(
            source,
            target,
            "google.protobuf.DoubleValue"@,
        )),
        rules is Int32 ==> (source.mismatch(target, rules) is None <==> holds_type(
            source,
            target,
            "google.protobuf.Int32Value"@,
        )),
        rules is Int64 ==> (source.mismatch(target, rules) is None <==> holds_type(
            source,
            target,
            "google.protobuf.Int64Value"@,
        )),
        rules is Uint32 ==> (source.mismatch(target, rules) is None <==> holds_type(
            source,
            target,
            "google.protobuf.UInt32Value"@,
        )),
        rules is Uint64 ==> (source.mismatch(target, rules) is None <==> holds_type(
            source,
            target,
            "google.protobuf.UInt64Value"@,
        )),
        rules is Bool ==> (source.mismatch(target, rules) is None <==> holds_type(
            source,
            target,
            "google.protobuf.BoolValue"@,
        )),
        rules is String ==> (source.mismatch(target, rules) is None <==> holds_type(
            source,
            target,
            "google.protobuf.StringValue"@,
        )),
        rules is Bytes ==> (source.mismatch(target, rules) is None <==> holds_type(
            source,
            target,
            "google.protobuf.BytesValue"@,
        )),
        rules is Sint32 || rules is Sint64 || rules is Fixed32 || rules is Fixed64
            || rules is Sfixed32 || rules is Sfixed64 || rules is Enum ==> source.mismatch(
            target,
            rules,
        ) is Some,
{
    reveal_strlit("");
}

/// The rules of well-known messages suit the messages of their type alone.
pub proof fn law_message_rules_suit_their_type<C: Engine>(
    source: Source<C>,
    target: Target,
    rules: RulesType,
)
    requires
        holds_message(source, target) || !(target.kind is Message),
    ensures
        rules is Duration ==> (source.mismatch(target, rules) is None <==> holds_type(
            source,
            target,
            "google.protobuf.Duration"@,
        )),
        rules is Duration && source.mismatch(target, rules) is Some ==> source.mismatch(target, rules)
            == Some("duration field validator on non-duration field"@),
        rules is Timestamp ==> (source.mismatch(target, rules) is None <==> holds_type(
            source,
            target,
            "google.protobuf.Timestamp"@,
        )),
        rules is Timestamp && source.mismatch(target, rules) is Some ==> source.mismatch(target, rules)
            == Some("timestamp field validator on non-timestamp field"@),
        rules is FieldMask ==> (source.mismatch(target, rules) is None <==> holds_type(
            source,
            target,
            "google.protobuf.FieldMask"@,
        )),
        rules is FieldMask && source.mismatch(target, rules) is Some ==> source.mismatch(target, rules)
            == Some("field_mask field validator on non-field_mask field"@),
        rules is Any ==> (source.mismatch(target, rules) is None <==> holds_type(
            source,
            target,
            "google.protobuf.Any"@,
        )),
        rules is Any && source.mismatch(target, rules) is Some ==> source.mismatch(target, rules)
            == Some("any field validator on non-any field"@),
{
}

/// Rules that do not suit a value are refused, with the reason.
pub proof fn law_rules_that_do_not_suit_are_refused<C: Engine, E>(
    source: Source<C>,
    target: Target,
    standard: StandardRules,
)
    requires
        source.mismatch(target, standard.rules) is Some,
    ensures
        source.standard::<E>(target, standard) == Err::<
            super::super::plan::StandardV<C::Program>,
            ErrorV<E>,
        >(ErrorV::Compilation(source.mismatch(target, standard.rules)->Some_0)),
{
}

/// The rules of lists suit lists alone, and those of maps suit maps alone.
pub proof fn law_container_rules_suit_containers<C: Engine, E>(
    source: Source<C>,
    target: Target,
    rules: RulesType,
)
    ensures
        rules is Repeated && source.items::<E>(target, rules) is Ok ==> target.shape is List,
        rules is Mapping && source.items::<E>(target, rules) is Ok ==> target.shape is Mapping,
        rules is Repeated && target.shape is Singular ==> source.items::<E>(target, rules)->Err_0
            == ErrorV::<E>::Compilation("repeated field validator on non-repeated field"@),
        rules is Repeated && target.shape is Mapping ==> source.items::<E>(target, rules)->Err_0
            == ErrorV::<E>::Compilation("repeated field validator on map field"@),
        rules is Mapping && !(target.shape is Mapping) ==> source.items::<E>(target, rules)->Err_0
            == ErrorV::<E>::Compilation("map field validator on non-map field"@),
        !(rules is Repeated) && !(rules is Mapping) ==> source.items::<E>(target, rules) is Ok,
{
}

/// What the standard rules of a value give besides their checks: the lists of
/// `any` rules, the enum whose numbers `defined_only` goes by, and the field
/// of a wrapper message that the rules of a scalar type are for, each where
/// the rules are of that kind and nowhere else.
pub proof fn law_standard_rules_go_by_their_kind<C: Engine, E>(
    source: Source<C>,
    target: Target,
    standard: StandardRules,
)
    requires
        source.standard::<E>(target, standard) is Ok,
    ensures
        ({
            let built = source.standard::<E>(target, standard)->Ok_0;
            &&& built.any is Some <==> standard.rules is Any
            &&& standard.rules matches RulesType::Any(r) ==> {
                &&& built.any->Some_0.in_list.len() == r.in_list@.len()
                &&& built.any->Some_0.not_in.len() == r.not_in@.len()
                &&& forall|i: int|
                    0 <= i < r.in_list@.len() ==> #[trigger] built.any->Some_0.in_list[i]
                        == r.in_list@[i]@
                &&& forall|i: int|
                    0 <= i < r.not_in@.len() ==> #[trigger] built.any->Some_0.not_in[i]
                        == r.not_in@[i]@
            }
            &&& built.defined_only is Some <==> {
                &&& standard.rules matches RulesType::Enum(r) && r.defined_only == Some(true)
                &&& target.kind is Enum
                &&& target.shape is Singular
            }
            &&& built.defined_only matches Some(index) ==> target.kind == SingularKind::Enum(index)
            &&& built.wrapper is Some ==> scalar_rules(standard.rules) && target.ty == Type::Message
                && target.kind is Message
            &&& scalar_rules(standard.rules) ==> built.wrapper == source.wrapper_field(target)
            &&& source.items::<E>(target, standard.rules) matches Ok((items, keys, values))
                && built.items == items && built.keys == keys && built.values == values
            &&& source.predefined::<E>(standard) matches Ok((checks, compiled)) && built.checks
                == checks && built.compiled == compiled
            &&& built.items is Some ==> standard.rules is Repeated
            &&& built.keys is Some || built.values is Some ==> standard.rules is Mapping
        }),
{
}

/// The field that the rules of a wrapper message are for is the first of its
/// fields with the number 1.
pub proof fn law_wrappers_hold_their_value_in_the_first_field<C: Engine>(
    source: Source<C>,
    target: Target,
    index: u64,
    i: int,
)
    requires
        target.kind == SingularKind::Message(index),
        target.ty == Type::Message,
        index < source.descriptors.messages@.len(),
        0 <= i < source.descriptors.messages@[index as int].fields@.len(),
        source.descriptors.messages@[index as int].fields@[i].number == 1,
        forall|j: int|
            0 <= j < i ==> (
            #[trigger] source.descriptors.messages@[index as int].fields@[j]).number != 1,
    ensures
        source.wrapper_field(target) matches Some(field) && field.number == 1 && field.name
            == source.descriptors.messages@[index as int].fields@[i].name@,
{
    lemma_numbered(source.descriptors.messages@[index as int].fields@, 1, 0, i);
}

/// The first field with a number is found by it.
pub proof fn lemma_numbered(fields: Seq<FieldDescriptor>, number: u32, k: int, i: int)
    requires
        0 <= k <= i < fields.len(),
        fields[i].number == number,
        forall|j: int| k <= j < i ==> (#[trigger] fields[j]).number != number,
    ensures
        field_numbered(fields, number, k) == Some(i),
    decreases i - k,
{
    if k < i {
        lemma_numbered(fields, number, k + 1, i);
    }
}

/// Unset values are left out where the rules say so, and where a field of one
/// value tracks presence; never otherwise, and never of the keys and values
/// of maps on their own.
pub proof fn law_unset_values_are_ignored(field: FieldDescriptor, kind: SingularKind, ignore: Option<
    Ignore,
>)
    ensures
        ignores_empty(field_target(field), ignore) <==> {
            ||| ignore == Some(Ignore::IfZeroValue)
            ||| (field.kind is Singular && field.presence != FieldPresence::Implicit)
        },
        ignores_empty(entry_target(kind), ignore) <==> ignore == Some(Ignore::IfZeroValue),
        field.kind is List ==> (ignores_empty(
            (Target { ty: type_of_kind(value_kind(field.kind)), ..field_target(field) }),
            ignore,
        ) <==> ignore == Some(Ignore::IfZeroValue)),
{
}

/// How scalars are handed to CEL goes by the type: signed numbers and the
/// numbers of enums as signed, unsigned as unsigned, and so on. Messages are
/// no scalars.
pub proof fn law_scalars_go_by_their_type(kind: SingularKind)
    ensures
        ({
            let ty = type_of_kind(kind);
            let signed = ty is Int32 || ty is Int64 || ty is Sint32 || ty is Sint64
                || ty is Sfixed32 || ty is Sfixed64 || ty is Enum;
            let unsigned = ty is Uint32 || ty is Uint64 || ty is Fixed32 || ty is Fixed64;
            let handed = scalar_kind_of(kind);
            &&& signed <==> handed == Some(ScalarKind::Int)
            &&& unsigned <==> handed == Some(ScalarKind::Uint)
            &&& ty is Float || ty is Double <==> handed == Some(ScalarKind::Double)
            &&& ty is Bool <==> handed == Some(ScalarKind::Bool)
            &&& ty is String <==> handed == Some(ScalarKind::String)
            &&& ty is Bytes <==> handed == Some(ScalarKind::Bytes)
            &&& ty is Message <==> handed is None
        }),
{
}

/// The text of a scalar's type.
pub proof fn law_scalar_types_are_named(scalar: Scalar)
    ensures
        scalar is Bool ==> type_text(type_of_scalar(scalar)) == "bool"@,
        scalar is Int32 ==> type_text(type_of_scalar(scalar)) == "int32"@,
        scalar is Int64 ==> type_text(type_of_scalar(scalar)) == "int64"@,
        scalar is Uint32 ==> type_text(type_of_scalar(scalar)) == "uint32"@,
        scalar is Uint64 ==> type_text(type_of_scalar(scalar)) == "uint64"@,
        scalar is Sint32 ==> type_text(type_of_scalar(scalar)) == "sint32"@,
        scalar is Sint64 ==> type_text(type_of_scalar(scalar)) == "sint64"@,
        scalar is Fixed32 ==> type_text(type_of_scalar(scalar)) == "fixed32"@,
        scalar is Fixed64 ==> type_text(type_of_scalar(scalar)) == "fixed64"@,
        scalar is Sfixed32 ==> type_text(type_of_scalar(scalar)) == "sfixed32"@,
        scalar is Sfixed64 ==> type_text(type_of_scalar(scalar)) == "sfixed64"@,
        scalar is Float ==> type_text(type_of_scalar(scalar)) == "float"@,
        scalar is Double ==> type_text(type_of_scalar(scalar)) == "double"@,
        scalar is String ==> type_text(type_of_scalar(scalar)) == "string"@,
        scalar is Bytes ==> type_text(type_of_scalar(scalar)) == "bytes"@,
{
}

/// The shape of a field is that of its kind, with the same keys, and what it
/// holds is what it is checked for.
pub proof fn law_targets_go_by_the_field(field: FieldDescriptor)
    ensures
        field.kind is Singular <==> shape_of_kind(field.kind) == Shape::Singular,
        field.kind is List <==> shape_of_kind(field.kind) == Shape::List,
        field.kind matches FieldKind::Mapping { key, .. } ==> shape_of_kind(field.kind) == (
        Shape::Mapping { key }),
        field.kind matches FieldKind::Singular(kind) ==> field_target(field).kind == kind,
        field.kind matches FieldKind::List(kind) ==> field_target(field).kind == kind,
        field.kind matches FieldKind::Mapping { value, .. } ==> field_target(field).kind == value
            && field_target(field).ty == Type::Message,
        field.kind matches FieldKind::Singular(kind) ==> field_target(field).ty == (if field.group {
            Type::Group
        } else {
            type_of_kind(kind)
        }),
        field.kind matches FieldKind::List(kind) ==> field_target(field).ty == (if field.group {
            Type::Group
        } else {
            type_of_kind(kind)
        }),
        field_target(field).shape == shape_of_kind(field.kind),
        field_target(field).presence == field.presence,
{
}

} // verus!
