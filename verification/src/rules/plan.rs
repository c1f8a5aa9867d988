//! What building the rules of message types gives.

use super::standard::build::string::text_or_empty;
use super::standard::build::{rule_checks, NativeV};
use super::standard::CheckV;
use super::{
    AnyCheckV, FieldEvaluatorV, ItemEvaluatorV, MessageEvaluatorV, MessageOneofV, NestedV,
    OneofRequiredV, ProgramSetV, RuleMetaV, ScalarKind, Shape, ValueRulesV,
};
use crate::cel::{BindingV, Engine, ExpressionV};
use crate::descriptors::{
    extension_element, field_element, field_numbered, map_element, message_index, named_element,
    type_of_field, type_of_kind, value_kind, Descriptors, FieldDescriptor, FieldKind, FieldPresence,
    MessageDescriptor, SchemaV, SingularKind,
};
use crate::error::ErrorV;
use crate::pool::{dynamic_in, has_unknown, index_in, set_numbers};
use crate::protobuf::{FieldV, Scalar};
use crate::rules::outcome::subscripted;
use crate::text::{joined, texts};
use crate::validate::rules::{
    FieldRules, Ignore, MessageOneofRule, MessageRules, OneofRules, Rule, RulesType, StandardRules,
};
use crate::validate::{FieldPathElementV, SubscriptV, Type};
use vstd::prelude::*;

verus! {

/// The value a set of rules applies to: a field, or the elements, keys or
/// values of one.
#[derive(Clone, Copy, Debug)]
pub struct Target {
    /// What one value is.
    pub kind: SingularKind,
    /// Its `FieldDescriptorProto.Type`, for type checks and path elements.
    pub ty: Type,
    /// The container it comes from; a repeated field's elements still count
    /// as a repeated field.
    pub shape: Shape,
    /// The presence of the field itself, for singular fields.
    pub presence: FieldPresence,
    /// Whether this is a map entry's key or value, which never ignores
    /// unset values on its own.
    pub map_entry: bool,
}

/// The rules of one value, before they are placed as a field or item
/// evaluator: the value's own, and the ones only a field carries.
pub struct BuiltV<P> {
    pub rules: ValueRulesV<P>,
    pub required: bool,
    pub defined_only: Option<u64>,
    pub items: Option<ItemEvaluatorV<P>>,
    pub keys: Option<ItemEvaluatorV<P>>,
    pub values: Option<ItemEvaluatorV<P>>,
}

/// The custom CEL of one field or message: the expressions to compile, what
/// each reports, and the rules message the predefined ones bind as `rules`.
pub struct CompiledV {
    pub expressions: Seq<ExpressionV>,
    pub metas: Seq<RuleMetaV>,
    pub rules: Option<BindingV>,
}

/// What the standard rules of a value give.
pub struct StandardV<P> {
    pub checks: Seq<CheckV>,
    pub any: Option<AnyCheckV>,
    pub wrapper: Option<FieldV>,
    pub defined_only: Option<u64>,
    pub items: Option<ItemEvaluatorV<P>>,
    pub keys: Option<ItemEvaluatorV<P>>,
    pub values: Option<ItemEvaluatorV<P>>,
    pub compiled: CompiledV,
}

/// What a rules message sets: whether anything unknown, and the numbers of
/// the rule fields, in ascending order.
pub struct DecodedV {
    pub unknown: bool,
    pub numbers: Seq<u32>,
}

/// Which items of a container an item evaluator is for.
#[derive(Clone, Copy, Debug, PartialEq, Eq, Structural)]
pub enum ItemKind {
    Items,
    Keys,
    Values,
}

/// No custom CEL.
pub open spec fn no_cel() -> CompiledV {
    CompiledV { expressions: Seq::empty(), metas: Seq::empty(), rules: None }
}

/// The custom CEL with one more rule.
pub open spec fn pushed(
    compiled: CompiledV,
    id: Seq<char>,
    message: Seq<char>,
    expression: Seq<char>,
    rule_field_number: i32,
    rule_path: Seq<FieldPathElementV>,
) -> CompiledV {
    CompiledV {
        expressions: compiled.expressions.push(ExpressionV { expression, rule_field_number }),
        metas: compiled.metas.push(RuleMetaV { id, message, expression, rule_path }),
        rules: compiled.rules,
    }
}

/// The custom CEL with one more rule.
pub open spec fn with_cel_rule(
    compiled: CompiledV,
    rule: Rule,
    rule_field_number: i32,
    rule_path: Seq<FieldPathElementV>,
) -> CompiledV {
    pushed(
        compiled,
        text_or_empty(rule.id),
        text_or_empty(rule.message),
        text_or_empty(rule.expression),
        rule_field_number,
        rule_path,
    )
}

/// The rule path of the `i`th rule of a list: none for a message's.
pub open spec fn indexed_path(list: Option<FieldPathElementV>, i: int) -> Seq<FieldPathElementV> {
    match list {
        Some(element) => seq![subscripted(element, SubscriptV::Index(i as u64))],
        None => Seq::empty(),
    }
}

/// The custom CEL with the first `n` expressions, which are rules that have
/// themselves for an id and no message.
pub open spec fn with_expressions(
    compiled: CompiledV,
    expressions: Seq<String>,
    list: Option<FieldPathElementV>,
    n: nat,
) -> CompiledV
    decreases n,
{
    if n == 0 {
        compiled
    } else {
        let i = n - 1;
        pushed(
            with_expressions(compiled, expressions, list, i as nat),
            expressions[i]@,
            Seq::empty(),
            expressions[i]@,
            0,
            indexed_path(list, i),
        )
    }
}

/// The custom CEL with the first `n` rules.
pub open spec fn with_cel_rules(
    compiled: CompiledV,
    rules: Seq<Rule>,
    list: Option<FieldPathElementV>,
    n: nat,
) -> CompiledV
    decreases n,
{
    if n == 0 {
        compiled
    } else {
        let i = n - 1;
        with_cel_rule(
            with_cel_rules(compiled, rules, list, i as nat),
            rules[i],
            0,
            indexed_path(list, i),
        )
    }
}

/// The custom CEL with the first `n` rules that an extension field is
/// predefined as.
pub open spec fn with_predefined(
    compiled: CompiledV,
    rules: Seq<Rule>,
    rule_field_number: i32,
    rule_path: Seq<FieldPathElementV>,
    n: nat,
) -> CompiledV
    decreases n,
{
    if n == 0 {
        compiled
    } else {
        let i = n - 1;
        with_cel_rule(
            with_predefined(compiled, rules, rule_field_number, rule_path, i as nat),
            rules[i],
            rule_field_number,
            rule_path,
        )
    }
}

/// Checks with their rule path.
pub open spec fn placed(natives: Seq<NativeV>, rule_path: Seq<FieldPathElementV>) -> Seq<CheckV> {
    natives.map_values(
        |n: NativeV| CheckV { id: n.id, message: n.message, rule_path, test: n.test },
    )
}

/// The field of `FieldRules` that holds the rules.
pub open spec fn rules_field(rules: RulesType) -> Seq<char> {
    match rules {
        RulesType::Float(_) => "float"@,
        RulesType::Double(_) => "double"@,
        RulesType::Int32(_) => "int32"@,
        RulesType::Int64(_) => "int64"@,
        RulesType::Uint32(_) => "uint32"@,
        RulesType::Uint64(_) => "uint64"@,
        RulesType::Sint32(_) => "sint32"@,
        RulesType::Sint64(_) => "sint64"@,
        RulesType::Fixed32(_) => "fixed32"@,
        RulesType::Fixed64(_) => "fixed64"@,
        RulesType::Sfixed32(_) => "sfixed32"@,
        RulesType::Sfixed64(_) => "sfixed64"@,
        RulesType::Bool(_) => "bool"@,
        RulesType::String(_) => "string"@,
        RulesType::Bytes(_) => "bytes"@,
        RulesType::Enum(_) => "enum"@,
        RulesType::Repeated(_) => "repeated"@,
        RulesType::Mapping(_) => "map"@,
        RulesType::Any(_) => "any"@,
        RulesType::Duration(_) => "duration"@,
        RulesType::FieldMask(_) => "field_mask"@,
        RulesType::Timestamp(_) => "timestamp"@,
    }
}

/// The full name of the rules message.
pub open spec fn rules_message(rules: RulesType) -> Seq<char> {
    match rules {
        RulesType::Float(_) => "buf.validate.FloatRules"@,
        RulesType::Double(_) => "buf.validate.DoubleRules"@,
        RulesType::Int32(_) => "buf.validate.Int32Rules"@,
        RulesType::Int64(_) => "buf.validate.Int64Rules"@,
        RulesType::Uint32(_) => "buf.validate.UInt32Rules"@,
        RulesType::Uint64(_) => "buf.validate.UInt64Rules"@,
        RulesType::Sint32(_) => "buf.validate.SInt32Rules"@,
        RulesType::Sint64(_) => "buf.validate.SInt64Rules"@,
        RulesType::Fixed32(_) => "buf.validate.Fixed32Rules"@,
        RulesType::Fixed64(_) => "buf.validate.Fixed64Rules"@,
        RulesType::Sfixed32(_) => "buf.validate.SFixed32Rules"@,
        RulesType::Sfixed64(_) => "buf.validate.SFixed64Rules"@,
        RulesType::Bool(_) => "buf.validate.BoolRules"@,
        RulesType::String(_) => "buf.validate.StringRules"@,
        RulesType::Bytes(_) => "buf.validate.BytesRules"@,
        RulesType::Enum(_) => "buf.validate.EnumRules"@,
        RulesType::Repeated(_) => "buf.validate.RepeatedRules"@,
        RulesType::Mapping(_) => "buf.validate.MapRules"@,
        RulesType::Any(_) => "buf.validate.AnyRules"@,
        RulesType::Duration(_) => "buf.validate.DurationRules"@,
        RulesType::FieldMask(_) => "buf.validate.FieldMaskRules"@,
        RulesType::Timestamp(_) => "buf.validate.TimestampRules"@,
    }
}

/// The field type that the rules of a scalar type expect, and the wrapper
/// message that also satisfies them (none for the types without a wrapper).
pub open spec fn expected_type(rules: RulesType) -> Option<(Type, Seq<char>)> {
    match rules {
        RulesType::Float(_) => Some((Type::Float, "google.protobuf.FloatValue"@)),
        RulesType::Double(_) => Some((Type::Double, "google.protobuf.DoubleValue"@)),
        RulesType::Int32(_) => Some((Type::Int32, "google.protobuf.Int32Value"@)),
        RulesType::Int64(_) => Some((Type::Int64, "google.protobuf.Int64Value"@)),
        RulesType::Uint32(_) => Some((Type::Uint32, "google.protobuf.UInt32Value"@)),
        RulesType::Uint64(_) => Some((Type::Uint64, "google.protobuf.UInt64Value"@)),
        RulesType::Sint32(_) => Some((Type::Sint32, ""@)),
        RulesType::Sint64(_) => Some((Type::Sint64, ""@)),
        RulesType::Fixed32(_) => Some((Type::Fixed32, ""@)),
        RulesType::Fixed64(_) => Some((Type::Fixed64, ""@)),
        RulesType::Sfixed32(_) => Some((Type::Sfixed32, ""@)),
        RulesType::Sfixed64(_) => Some((Type::Sfixed64, ""@)),
        RulesType::Bool(_) => Some((Type::Bool, "google.protobuf.BoolValue"@)),
        RulesType::String(_) => Some((Type::String, "google.protobuf.StringValue"@)),
        RulesType::Bytes(_) => Some((Type::Bytes, "google.protobuf.BytesValue"@)),
        RulesType::Enum(_) => Some((Type::Enum, ""@)),
        _ => None,
    }
}

/// A type in error messages.
pub open spec fn type_text(ty: Type) -> Seq<char> {
    match ty {
        Type::Double => "double"@,
        Type::Float => "float"@,
        Type::Int64 => "int64"@,
        Type::Uint64 => "uint64"@,
        Type::Int32 => "int32"@,
        Type::Fixed64 => "fixed64"@,
        Type::Fixed32 => "fixed32"@,
        Type::Bool => "bool"@,
        Type::String => "string"@,
        Type::Group => "group"@,
        Type::Message => "message"@,
        Type::Bytes => "bytes"@,
        Type::Uint32 => "uint32"@,
        Type::Enum => "enum"@,
        Type::Sfixed32 => "sfixed32"@,
        Type::Sfixed64 => "sfixed64"@,
        Type::Sint32 => "sint32"@,
        Type::Sint64 => "sint64"@,
    }
}

/// How a value is handed to CEL, if it is a scalar.
pub open spec fn scalar_kind_of(kind: SingularKind) -> Option<ScalarKind> {
    match kind {
        SingularKind::Scalar(scalar) => Some(
            match scalar {
                Scalar::Bool => ScalarKind::Bool,
                Scalar::Int32
                | Scalar::Int64
                | Scalar::Sint32
                | Scalar::Sint64
                | Scalar::Sfixed32
                | Scalar::Sfixed64 => ScalarKind::Int,
                Scalar::Uint32
                | Scalar::Uint64
                | Scalar::Fixed32
                | Scalar::Fixed64 => ScalarKind::Uint,
                Scalar::Float | Scalar::Double => ScalarKind::Double,
                Scalar::String => ScalarKind::String,
                Scalar::Bytes => ScalarKind::Bytes,
            },
        ),
        SingularKind::Enum(_) => Some(ScalarKind::Int),
        SingularKind::Message(_) => None,
    }
}

/// How a field holds its values.
pub open spec fn shape_of_kind(kind: FieldKind) -> Shape {
    match kind {
        FieldKind::Singular(_) => Shape::Singular,
        FieldKind::List(_) => Shape::List,
        FieldKind::Mapping { key, .. } => Shape::Mapping { key },
    }
}

/// Rules that do not compile.
pub open spec fn refused<T, E>(message: Seq<char>) -> Result<T, ErrorV<E>> {
    Err(ErrorV::Compilation(message))
}

/// The position of the field named `name`, in the `.proto` source or in JSON,
/// from the `i`th on.
pub open spec fn field_named(fields: Seq<FieldDescriptor>, name: Seq<char>, i: int) -> Option<int>
    decreases fields.len() - i,
{
    if i < 0 || i >= fields.len() {
        None
    } else if fields[i].name@ == name || fields[i].json_name@ == name {
        Some(i)
    } else {
        field_named(fields, name, i + 1)
    }
}

/// How many message-typed fields at the front have numbers up to `number`.
pub open spec fn place_of(sorted: Seq<NestedV>, number: u32) -> nat
    decreases sorted.len(),
{
    if sorted.len() == 0 {
        0
    } else if sorted.last().field.number <= number {
        sorted.len()
    } else {
        place_of(sorted.drop_last(), number)
    }
}

/// Message-typed fields with one more, behind those of its number and below.
pub open spec fn inserted(sorted: Seq<NestedV>, nested: NestedV) -> Seq<NestedV> {
    sorted.insert(place_of(sorted, nested.field.number) as int, nested)
}

/// What builders go by.
pub struct Source<C: Engine> {
    pub descriptors: Descriptors,
    pub pool: buffa_descriptor::DescriptorPool,
    pub schema: SchemaV,
    pub engine: C,
}

impl<C: Engine> Source<C> {
    /// The name of the message type of a value.
    pub open spec fn message_name(self, kind: SingularKind) -> Option<Seq<char>> {
        match kind {
            SingularKind::Message(index) => Some(self.descriptors.name_at(index)),
            _ => None,
        }
    }

    /// The programs of the custom CEL, if there is any.
    pub open spec fn programs<E>(self, compiled: CompiledV) -> Result<
        Option<ProgramSetV<C::Program>>,
        ErrorV<E>,
    > {
        if compiled.expressions.len() == 0 {
            Ok(None)
        } else {
            match self.engine.compiled(compiled.rules, compiled.expressions) {
                Ok(program) => Ok(Some(ProgramSetV { program, rules: compiled.metas })),
                Err(error) => refused(error.text()),
            }
        }
    }

    /// The field must have the rules' type, or be the wrapper message of
    /// that type.
    pub open spec fn has_type(self, target: Target, expected: Type, wrapper: Seq<char>) -> bool {
        target.ty == expected || (target.ty == Type::Message && self.message_name(target.kind)
            == Some(wrapper))
    }

    /// The `value` field of the wrapper message a target holds, if it is
    /// one.
    pub open spec fn wrapper_field(self, target: Target) -> Option<FieldV> {
        match target.kind {
            SingularKind::Message(index) => if target.ty == Type::Message && index
                < self.descriptors.messages@.len() {
                let fields = self.descriptors.messages@[index as int].fields@;
                match field_numbered(fields, 1, 0) {
                    Some(i) => Some(self.descriptors.field_at(fields[i])),
                    None => None,
                }
            } else {
                None
            },
            _ => None,
        }
    }

    /// The checks and custom CEL of the first `n` rule fields that a rules
    /// message sets, by their numbers.
    pub open spec fn set_rules<E>(self, rules: RulesType, numbers: Seq<u32>, n: nat) -> Result<
        (Seq<CheckV>, CompiledV),
        ErrorV<E>,
    >
        decreases n,
    {
        let type_field = rules_field(rules);
        let type_element = self.schema.type_element(type_field);
        if n == 0 {
            Ok((Seq::empty(), no_cel()))
        } else {
            let number = numbers[n - 1];
            match self.set_rules::<E>(rules, numbers, (n - 1) as nat) {
                Err(e) => Err(e),
                Ok((checks, compiled)) => match self.descriptors.field_of(
                    rules_message(rules),
                    number,
                ) {
                    Some(field) => match rule_checks::<E>(type_field, rules, number) {
                        Err(e) => Err(e),
                        Ok(natives) => Ok(
                            (
                                checks + placed(natives, seq![field_element(field), type_element]),
                                compiled,
                            ),
                        ),
                    },
                    None => Ok(
                        (
                            checks,
                            self.with_extension(compiled, rules_message(rules), number, type_element),
                        ),
                    ),
                },
            }
        }
    }

    /// The custom CEL with the rules that an extension field of a rules
    /// message is predefined as.
    pub open spec fn with_extension(
        self,
        compiled: CompiledV,
        extendee: Seq<char>,
        number: u32,
        type_element: FieldPathElementV,
    ) -> CompiledV {
        match self.descriptors.extension_of(extendee, number) {
            None => compiled,
            Some(extension) => match extension.predefined {
                None => compiled,
                Some(cel) => with_predefined(
                    compiled,
                    cel@,
                    if number <= i32::MAX {
                        number as i32
                    } else {
                        0
                    },
                    seq![extension_element(extension), type_element],
                    cel@.len(),
                ),
            },
        }
    }

    /// The rules that reading a rules message gives.
    pub open spec fn decoded<E>(
        self,
        standard: StandardRules,
        decoded: Result<DecodedV, Seq<char>>,
    ) -> Result<(Seq<CheckV>, CompiledV), ErrorV<E>> {
        let full_name = rules_message(standard.rules);
        match decoded {
            Err(error) => refused("could not decode "@ + full_name + ": "@ + error),
            Ok(decoded) => if decoded.unknown {
                refused("unknown rules in "@ + full_name)
            } else {
                match self.set_rules::<E>(
                    standard.rules,
                    decoded.numbers,
                    decoded.numbers.len(),
                ) {
                    Err(e) => Err(e),
                    Ok((checks, compiled)) => Ok(
                        (
                            checks,
                            CompiledV {
                                rules: Some(BindingV { full_name, bytes: standard.bytes@ }),
                                ..compiled
                            },
                        ),
                    ),
                }
            },
        }
    }

    /// The rules of every rule field the rules message sets, in field-number
    /// order.
    pub open spec fn predefined<E>(self, standard: StandardRules) -> Result<
        (Seq<CheckV>, CompiledV),
        ErrorV<E>,
    > {
        let full_name = rules_message(standard.rules);
        match index_in(self.pool, full_name) {
            None => Err(ErrorV::Unexpected(full_name + " is not registered"@)),
            Some(index) => self.decoded::<E>(
                standard,
                match dynamic_in(self.pool, index, standard.bytes@) {
                    Err(error) => Err(error),
                    Ok(message) => Ok(
                        DecodedV { unknown: has_unknown(message), numbers: set_numbers(message) },
                    ),
                },
            ),
        }
    }

    /// The rule path elements between item rules and `FieldRules`.
    pub open spec fn rule_prefix(self, kind: ItemKind) -> Seq<FieldPathElementV> {
        match kind {
            ItemKind::Items => seq![self.schema.repeated_items, self.schema.repeated],
            ItemKind::Keys => seq![self.schema.map_keys, self.schema.mapping],
            ItemKind::Values => seq![self.schema.map_values, self.schema.mapping],
        }
    }

    /// The rules of a container's items.
    pub open spec fn item<E>(
        self,
        target: Target,
        rules: Option<Box<FieldRules>>,
        kind: ItemKind,
    ) -> Result<Option<ItemEvaluatorV<C::Program>>, ErrorV<E>>
        decreases rules, 1nat,
    {
        match rules {
            None => Ok(None),
            Some(rules) => match self.value::<E>(target, *rules, rules.ignore) {
                Err(e) => Err(e),
                Ok(None) => Ok(None),
                Ok(Some(built)) => Ok(
                    Some(
                        ItemEvaluatorV {
                            rules: built.rules,
                            rule_prefix: self.rule_prefix(kind),
                        },
                    ),
                ),
            },
        }
    }

    /// The items of the standard rules of a value: those of a repeated
    /// field, and the keys and values of a map.
    pub open spec fn items<E>(self, target: Target, rules: RulesType) -> Result<
        (
            Option<ItemEvaluatorV<C::Program>>,
            Option<ItemEvaluatorV<C::Program>>,
            Option<ItemEvaluatorV<C::Program>>,
        ),
        ErrorV<E>,
    >
        decreases rules, 0nat,
    {
        match rules {
            RulesType::Repeated(r) => match target.shape {
                Shape::Mapping { .. } => refused("repeated field validator on map field"@),
                Shape::Singular => refused("repeated field validator on non-repeated field"@),
                Shape::List => match self.item::<E>(
                    Target { ty: type_of_kind(target.kind), ..target },
                    r.items,
                    ItemKind::Items,
                ) {
                    Err(e) => Err(e),
                    Ok(items) => Ok((items, None, None)),
                },
            },
            RulesType::Mapping(r) => match target.shape {
                Shape::Mapping { key } => match self.item::<E>(
                    entry_target(SingularKind::Scalar(key)),
                    r.keys,
                    ItemKind::Keys,
                ) {
                    Err(e) => Err(e),
                    Ok(keys) => match self.item::<E>(
                        entry_target(target.kind),
                        r.values,
                        ItemKind::Values,
                    ) {
                        Err(e) => Err(e),
                        Ok(values) => Ok((None, keys, values)),
                    },
                },
                _ => refused("map field validator on non-map field"@),
            },
            _ => Ok((None, None, None)),
        }
    }

    /// Whether the standard rules suit the value's type: what is wrong
    /// otherwise.
    pub open spec fn mismatch(self, target: Target, rules: RulesType) -> Option<Seq<char>> {
        match expected_type(rules) {
            Some((expected, wrapper)) => if self.has_type(target, expected, wrapper) {
                None
            } else {
                Some(
                    "field type does not match rule type: "@ + type_text(target.ty) + " != "@
                        + type_text(expected),
                )
            },
            None => match rules {
                RulesType::Duration(_) => if self.message_name(target.kind) == Some(
                    "google.protobuf.Duration"@,
                ) {
                    None
                } else {
                    Some("duration field validator on non-duration field"@)
                },
                RulesType::FieldMask(_) => if self.message_name(target.kind) == Some(
                    "google.protobuf.FieldMask"@,
                ) {
                    None
                } else {
                    Some("field_mask field validator on non-field_mask field"@)
                },
                RulesType::Timestamp(_) => if self.message_name(target.kind) == Some(
                    "google.protobuf.Timestamp"@,
                ) {
                    None
                } else {
                    Some("timestamp field validator on non-timestamp field"@)
                },
                RulesType::Any(_) => if self.message_name(target.kind) == Some(
                    "google.protobuf.Any"@,
                ) {
                    None
                } else {
                    Some("any field validator on non-any field"@)
                },
                _ => None,
            },
        }
    }

    /// The standard rules a `FieldRules` sets, checked against the value's
    /// type.
    pub open spec fn standard<E>(self, target: Target, standard: StandardRules) -> Result<
        StandardV<C::Program>,
        ErrorV<E>,
    >
        decreases standard, 0nat,
    {
        match self.mismatch(target, standard.rules) {
            Some(message) => refused(message),
            None => match self.items::<E>(target, standard.rules) {
                Err(e) => Err(e),
                Ok((items, keys, values)) => match self.predefined::<E>(standard) {
                    Err(e) => Err(e),
                    Ok((checks, compiled)) => Ok(
                        StandardV {
                            checks,
                            any: match standard.rules {
                                RulesType::Any(r) => Some(
                                    AnyCheckV {
                                        in_list: texts(r.in_list@),
                                        not_in: texts(r.not_in@),
                                    },
                                ),
                                _ => None,
                            },
                            wrapper: if expected_type(standard.rules) is Some {
                                self.wrapper_field(target)
                            } else {
                                None
                            },
                            defined_only: match (standard.rules, target.kind) {
                                (RulesType::Enum(r), SingularKind::Enum(index)) => if r.defined_only
                                    == Some(true) && target.shape is Singular {
                                    Some(index)
                                } else {
                                    None
                                },
                                _ => None,
                            },
                            items,
                            keys,
                            values,
                            compiled,
                        },
                    ),
                },
            },
        }
    }

    /// The rules of one value, which are left out as `ignore` says.
    pub open spec fn value<E>(
        self,
        target: Target,
        rules: FieldRules,
        ignore: Option<Ignore>,
    ) -> Result<Option<BuiltV<C::Program>>, ErrorV<E>>
        decreases rules, 0nat,
    {
        if ignore == Some(Ignore::Always) {
            Ok(None)
        } else {
            let standard: Result<StandardV<C::Program>, ErrorV<E>> = match rules.standard {
                None => Ok(
                    StandardV {
                        checks: Seq::empty(),
                        any: None,
                        wrapper: None,
                        defined_only: None,
                        items: None,
                        keys: None,
                        values: None,
                        compiled: no_cel(),
                    },
                ),
                Some(standard) => self.standard::<E>(target, standard),
            };
            match standard {
                Err(e) => Err(e),
                Ok(standard) => {
                    let compiled = with_cel_rules(
                        with_expressions(
                            standard.compiled,
                            rules.cel_expression@,
                            Some(self.schema.cel_expression),
                            rules.cel_expression@.len(),
                        ),
                        rules.cel@,
                        Some(self.schema.cel),
                        rules.cel@.len(),
                    );
                    match self.programs::<E>(compiled) {
                        Err(e) => Err(e),
                        Ok(programs) => Ok(
                            Some(
                                BuiltV {
                                    rules: ValueRulesV {
                                        scalar: scalar_kind_of(target.kind),
                                        ignore_empty: ignores_empty(target, ignore),
                                        any: standard.any,
                                        checks: standard.checks,
                                        wrapper: standard.wrapper,
                                        programs,
                                    },
                                    required: rules.required == Some(true),
                                    defined_only: standard.defined_only,
                                    items: standard.items,
                                    keys: standard.keys,
                                    values: standard.values,
                                },
                            ),
                        ),
                    }
                },
            }
        }
    }

    /// The rules of a field.
    pub open spec fn field<E>(
        self,
        field: FieldDescriptor,
        rules: FieldRules,
        ignore: Option<Ignore>,
    ) -> Result<Option<FieldEvaluatorV<C::Program>>, ErrorV<E>> {
        match self.value::<E>(field_target(field), rules, ignore) {
            Err(e) => Err(e),
            Ok(None) => Ok(None),
            Ok(Some(built)) => Ok(
                Some(
                    FieldEvaluatorV {
                        field: self.descriptors.field_at(field),
                        element: field_element(field),
                        entry_element: if field.kind is Mapping {
                            Some(map_element(field))
                        } else {
                            None
                        },
                        shape: shape_of_kind(field.kind),
                        required: built.required,
                        rules: built.rules,
                        defined_only: built.defined_only,
                        items: built.items,
                        keys: built.keys,
                        values: built.values,
                    },
                ),
            ),
        }
    }

    /// The rules of the first `n` fields of a message type.
    pub open spec fn fields<E>(self, message: MessageDescriptor, n: nat) -> Result<
        Seq<FieldEvaluatorV<C::Program>>,
        ErrorV<E>,
    >
        decreases n,
    {
        if n == 0 {
            Ok(Seq::empty())
        } else {
            match self.fields::<E>(message, (n - 1) as nat) {
                Err(e) => Err(e),
                Ok(earlier) => {
                    let field = message.fields@[n - 1];
                    match self.descriptors.field_rules_of(message, field) {
                        None => Ok(earlier),
                        Some(rules) => match self.field::<E>(
                            field,
                            rules,
                            member_ignore(
                                self.descriptors.message_rules_of(message),
                                field,
                                rules.ignore,
                            ),
                        ) {
                            Err(e) => Err(e),
                            Ok(None) => Ok(earlier),
                            Ok(Some(evaluator)) => Ok(earlier.push(evaluator)),
                        },
                    }
                },
            }
        }
    }

    /// The fields that the first `n` names of a oneof rule name.
    pub open spec fn oneof_fields<E>(
        self,
        message: MessageDescriptor,
        names: Seq<Seq<char>>,
        n: nat,
    ) -> Result<Seq<FieldV>, ErrorV<E>>
        decreases n,
    {
        if n == 0 {
            Ok(Seq::empty())
        } else {
            match self.oneof_fields::<E>(message, names, (n - 1) as nat) {
                Err(e) => Err(e),
                Ok(earlier) => {
                    let name = names[n - 1];
                    if names.take(n - 1).contains(name) {
                        refused(
                            "duplicate \""@ + name + "\" in oneof rule for the message "@
                                + message.full_name@,
                        )
                    } else {
                        match field_named(message.fields@, name, 0) {
                            None => refused(
                                "field \""@ + name + "\" not found in message "@
                                    + message.full_name@,
                            ),
                            Some(i) => Ok(
                                earlier.push(self.descriptors.field_at(message.fields@[i])),
                            ),
                        }
                    }
                },
            }
        }
    }

    /// The first `n` oneof rules of a message.
    pub open spec fn message_oneofs<E>(
        self,
        message: MessageDescriptor,
        oneofs: Seq<MessageOneofRule>,
        n: nat,
    ) -> Result<Seq<MessageOneofV>, ErrorV<E>>
        decreases n,
    {
        if n == 0 {
            Ok(Seq::empty())
        } else {
            match self.message_oneofs::<E>(message, oneofs, (n - 1) as nat) {
                Err(e) => Err(e),
                Ok(earlier) => {
                    let oneof = oneofs[n - 1];
                    let names = texts(oneof.fields@);
                    if names.len() == 0 {
                        refused(
                            "at least one field must be specified in oneof rule for the message "@
                                + message.full_name@,
                        )
                    } else {
                        match self.oneof_fields::<E>(message, names, names.len()) {
                            Err(e) => Err(e),
                            Ok(fields) => Ok(
                                earlier.push(
                                    MessageOneofV {
                                        fields,
                                        names: joined(names),
                                        required: oneof.required == Some(true),
                                    },
                                ),
                            ),
                        }
                    }
                },
            }
        }
    }

    /// The first `n` members of a oneof declaration.
    pub open spec fn members(self, message: MessageDescriptor, places: Seq<u16>, n: nat) -> Seq<
        FieldV,
    >
        decreases n,
    {
        if n == 0 {
            Seq::empty()
        } else {
            let earlier = self.members(message, places, (n - 1) as nat);
            if places[n - 1] < message.fields@.len() {
                earlier.push(self.descriptors.field_at(message.fields@[places[n - 1] as int]))
            } else {
                earlier
            }
        }
    }

    /// The first `n` oneof declarations, those marked `required` alone.
    pub open spec fn required_oneofs(self, message: MessageDescriptor, n: nat) -> Seq<
        OneofRequiredV,
    >
        decreases n,
    {
        if n == 0 {
            Seq::empty()
        } else {
            let earlier = self.required_oneofs(message, (n - 1) as nat);
            let oneof = message.oneofs@[n - 1];
            if requires_member(self.descriptors.oneof_rules_of(message, oneof)) {
                earlier.push(
                    OneofRequiredV {
                        element: named_element(oneof.name@),
                        members: self.members(message, oneof.fields@, oneof.fields@.len()),
                    },
                )
            } else {
                earlier
            }
        }
    }

    /// The message-typed fields among the first `n` whose messages are
    /// validated in turn, in field-number order, less the ones told to
    /// ignore their messages.
    pub open spec fn nested(self, message: MessageDescriptor, n: nat) -> Seq<NestedV>
        decreases n,
    {
        if n == 0 {
            Seq::empty()
        } else {
            let earlier = self.nested(message, (n - 1) as nat);
            let field = message.fields@[n - 1];
            match message_index(field.kind) {
                None => earlier,
                Some(index) => if messages_ignored(
                    self.descriptors.field_rules_of(message, field),
                ) {
                    earlier
                } else {
                    inserted(
                        earlier,
                        NestedV {
                            field: self.descriptors.field_at(field),
                            element: map_element(field),
                            shape: shape_of_kind(field.kind),
                            message: index,
                        },
                    )
                },
            }
        }
    }

    /// The custom CEL of a message.
    pub open spec fn message_cel(self, message: MessageDescriptor) -> CompiledV {
        match self.descriptors.message_rules_of(message) {
            None => no_cel(),
            Some(rules) => with_cel_rules(
                with_expressions(
                    no_cel(),
                    rules.cel_expression@,
                    None,
                    rules.cel_expression@.len(),
                ),
                rules.cel@,
                None,
                rules.cel@.len(),
            ),
        }
    }

    /// The rules of a message type.
    #[verifier::opaque]
    pub open spec fn message<E>(self, message: MessageDescriptor) -> Result<
        MessageEvaluatorV<C::Program>,
        ErrorV<E>,
    > {
        match self.programs::<E>(self.message_cel(message)) {
            Err(e) => Err(e),
            Ok(cel) => {
                let rules = self.descriptors.message_rules_of(message);
                let oneofs: Result<Seq<MessageOneofV>, ErrorV<E>> = match rules {
                    None => Ok(Seq::empty()),
                    Some(rules) => self.message_oneofs::<E>(
                        message,
                        rules.oneof@,
                        rules.oneof@.len(),
                    ),
                };
                match oneofs {
                    Err(e) => Err(e),
                    Ok(message_oneofs) => match self.fields::<E>(message, message.fields@.len()) {
                        Err(e) => Err(e),
                        Ok(fields) => Ok(
                            MessageEvaluatorV {
                                cel,
                                message_oneofs,
                                fields,
                                oneofs: self.required_oneofs(message, message.oneofs@.len()),
                                nested: self.nested(message, message.fields@.len()),
                            },
                        ),
                    },
                }
            },
        }
    }
}

/// Whether unset values are left out: when the rules say so, and for a
/// singular field that tracks presence.
pub open spec fn ignores_empty(target: Target, ignore: Option<Ignore>) -> bool {
    ignore == Some(Ignore::IfZeroValue) || (target.shape is Singular && target.presence
        != FieldPresence::Implicit && !target.map_entry)
}

/// A field as a target of rules.
pub open spec fn field_target(field: FieldDescriptor) -> Target {
    Target {
        kind: value_kind(field.kind),
        ty: type_of_field(field),
        shape: shape_of_kind(field.kind),
        presence: field.presence,
        map_entry: false,
    }
}

/// A map entry's key or value as a target of rules.
pub open spec fn entry_target(kind: SingularKind) -> Target {
    Target {
        kind,
        ty: type_of_kind(kind),
        shape: Shape::Singular,
        presence: FieldPresence::Explicit,
        map_entry: true,
    }
}

/// Whether rules say to ignore their value always.
pub open spec fn always_ignored(rules: Option<Box<FieldRules>>) -> bool {
    rules is Some && rules->Some_0.ignore == Some(Ignore::Always)
}

/// Whether a field's rules say to ignore its messages.
pub open spec fn messages_ignored(rules: Option<FieldRules>) -> bool {
    match rules {
        None => false,
        Some(rules) => rules.ignore == Some(Ignore::Always) || match rules.standard {
            Some(standard) => match standard.rules {
                RulesType::Repeated(r) => always_ignored(r.items),
                RulesType::Mapping(r) => always_ignored(r.values),
                _ => false,
            },
            None => false,
        },
    }
}

/// Whether a oneof has to have a member set.
pub open spec fn requires_member(rules: Option<OneofRules>) -> bool {
    rules is Some && rules->Some_0.required == Some(true)
}

/// Whether a message oneof names the field.
pub open spec fn in_oneofs(oneofs: Seq<MessageOneofRule>, name: Seq<char>) -> bool {
    exists|i: int| 0 <= i < oneofs.len() && texts((#[trigger] oneofs[i]).fields@).contains(name)
}

/// When a field is left out: a member of a message oneof is only validated
/// when set, unless it says otherwise.
pub open spec fn member_ignore(
    rules: Option<MessageRules>,
    field: FieldDescriptor,
    ignore: Option<Ignore>,
) -> Option<Ignore> {
    match (ignore, rules) {
        (None, Some(rules)) => if in_oneofs(rules.oneof@, field.name@) {
            Some(Ignore::IfZeroValue)
        } else {
            None
        },
        _ => ignore,
    }
}

} // verus!
