//! Compiled validation rules, and their evaluation against messages.
//!
//! [`build`] turns the `buf.validate` options of a message type into a
//! [`MessageEvaluator`]: the standard rules as native [`standard::Check`]s,
//! the custom CEL rules as programs, and the structural checks
//! (`required`, `enum.defined_only`, `any.in`, oneofs), each already knowing
//! the path elements it reports. [`eval`] walks a message with them.

use crate::protobuf::{fields_of, Field, FieldV, Scalar};
use crate::text::texts;
use crate::validate::{path_of, FieldPathElement, FieldPathElementV};
use standard::{checks_of, Check, CheckV};
use vstd::prelude::*;

pub mod binding;
pub mod build;
pub mod closure;
pub mod endings;
pub mod eval;
pub mod laws;
pub mod location;
pub mod outcome;
pub mod parts;
pub mod plan;
pub mod presence;
pub mod sequence;
pub mod serialization;
pub mod standard;
pub mod steps;

verus! {

/// What a CEL expression reports when it fails.
pub struct RuleMeta {
    pub id: String,
    pub message: String,
    pub expression: String,
    /// The rule path, leaf first: `[FieldRules.cel[i]]` for a custom rule,
    /// `[(pkg.rule), FieldRules.string]` for a predefined one, empty for a
    /// message-level one. Paths are built leaf-first as violations bubble
    /// up, and reversed once at the end.
    pub rule_path: Vec<FieldPathElement>,
}

/// What a [`RuleMeta`] holds.
pub struct RuleMetaV {
    pub id: Seq<char>,
    pub message: Seq<char>,
    pub expression: Seq<char>,
    pub rule_path: Seq<FieldPathElementV>,
}

impl View for RuleMeta {
    type V = RuleMetaV;

    open spec fn view(&self) -> RuleMetaV {
        RuleMetaV {
            id: self.id@,
            message: self.message@,
            expression: self.expression@,
            rule_path: path_of(self.rule_path@),
        }
    }
}

/// What the metas hold.
pub open spec fn metas_of(metas: Seq<RuleMeta>) -> Seq<RuleMetaV> {
    metas.map_values(|m: RuleMeta| m@)
}

/// CEL expressions evaluated together against one `this`.
pub struct ProgramSet<P> {
    pub program: P,
    pub rules: Vec<RuleMeta>,
}

/// What a [`ProgramSet`] holds.
pub struct ProgramSetV<P> {
    pub program: P,
    pub rules: Seq<RuleMetaV>,
}

impl<P> View for ProgramSet<P> {
    type V = ProgramSetV<P>;

    open spec fn view(&self) -> ProgramSetV<P> {
        ProgramSetV { program: self.program, rules: metas_of(self.rules@) }
    }
}

/// What an optional set of programs holds.
pub open spec fn programs_of<P>(programs: Option<ProgramSet<P>>) -> Option<ProgramSetV<P>> {
    match programs {
        Some(programs) => Some(programs@),
        None => None,
    }
}

/// The rules of one message type, in evaluation order: message-level CEL,
/// message oneofs, the fields in declaration order, then oneof declarations.
pub struct MessageEvaluator<P> {
    pub cel: Option<ProgramSet<P>>,
    pub message_oneofs: Vec<MessageOneof>,
    pub fields: Vec<FieldEvaluator<P>>,
    pub oneofs: Vec<OneofRequired>,
    /// Message-typed fields to descend into, in field-number order.
    pub nested: Vec<Nested>,
}

/// What a [`MessageEvaluator`] holds.
pub struct MessageEvaluatorV<P> {
    pub cel: Option<ProgramSetV<P>>,
    pub message_oneofs: Seq<MessageOneofV>,
    pub fields: Seq<FieldEvaluatorV<P>>,
    pub oneofs: Seq<OneofRequiredV>,
    pub nested: Seq<NestedV>,
}

impl<P> View for MessageEvaluator<P> {
    type V = MessageEvaluatorV<P>;

    open spec fn view(&self) -> MessageEvaluatorV<P> {
        MessageEvaluatorV {
            cel: programs_of(self.cel),
            message_oneofs: message_oneofs_of(self.message_oneofs@),
            fields: field_evaluators_of(self.fields@),
            oneofs: oneofs_of(self.oneofs@),
            nested: nested_of(self.nested@),
        }
    }
}

/// A `(buf.validate.message).oneof` rule.
pub struct MessageOneof {
    pub fields: Vec<Field>,
    /// The member names joined with `, `, as the violation message prints them.
    pub names: String,
    pub required: bool,
}

/// What a [`MessageOneof`] holds.
pub struct MessageOneofV {
    pub fields: Seq<FieldV>,
    pub names: Seq<char>,
    pub required: bool,
}

impl View for MessageOneof {
    type V = MessageOneofV;

    open spec fn view(&self) -> MessageOneofV {
        MessageOneofV {
            fields: fields_of(self.fields@),
            names: self.names@,
            required: self.required,
        }
    }
}

/// What the message oneofs hold.
pub open spec fn message_oneofs_of(oneofs: Seq<MessageOneof>) -> Seq<MessageOneofV> {
    oneofs.map_values(|o: MessageOneof| o@)
}

/// A `(buf.validate.oneof).required` rule.
pub struct OneofRequired {
    pub element: FieldPathElement,
    pub members: Vec<Field>,
}

/// What a [`OneofRequired`] holds.
pub struct OneofRequiredV {
    pub element: FieldPathElementV,
    pub members: Seq<FieldV>,
}

impl View for OneofRequired {
    type V = OneofRequiredV;

    open spec fn view(&self) -> OneofRequiredV {
        OneofRequiredV { element: self.element@, members: fields_of(self.members@) }
    }
}

/// What the required oneofs hold.
pub open spec fn oneofs_of(oneofs: Seq<OneofRequired>) -> Seq<OneofRequiredV> {
    oneofs.map_values(|o: OneofRequired| o@)
}

/// A message-typed field whose messages are validated in turn.
pub struct Nested {
    pub field: Field,
    /// The path element; for a map, the entry form carrying key and value
    /// types, to which the key subscript is added.
    pub element: FieldPathElement,
    pub shape: Shape,
    /// The message type, by its place among the descriptors.
    pub message: u64,
}

/// What a [`Nested`] holds.
pub struct NestedV {
    pub field: FieldV,
    pub element: FieldPathElementV,
    pub shape: Shape,
    pub message: u64,
}

impl View for Nested {
    type V = NestedV;

    open spec fn view(&self) -> NestedV {
        NestedV {
            field: self.field@,
            element: self.element@,
            shape: self.shape,
            message: self.message,
        }
    }
}

/// What the nested fields hold.
pub open spec fn nested_of(nested: Seq<Nested>) -> Seq<NestedV> {
    nested.map_values(|n: Nested| n@)
}

/// How a field holds its values.
#[derive(Clone, Copy, Debug, PartialEq, Eq, Structural)]
pub enum Shape {
    Singular,
    List,
    Mapping { key: Scalar },
}

/// The rules of one value: a field's, or one element, key or value of a
/// container field's. The checks run first, then the custom CEL.
pub struct ValueRules<P> {
    /// The value is a scalar (as opposed to a message) so `this` is bound
    /// directly rather than through the frame.
    pub scalar: Option<ScalarKind>,
    pub ignore_empty: bool,
    pub any: Option<AnyCheck>,
    /// The standard rules, in evaluation order.
    pub checks: Vec<Check>,
    /// The value is a wrapper message, and the checks apply to this field
    /// of it: its `value`.
    pub wrapper: Option<Field>,
    /// The custom CEL rules, which run after the standard ones.
    pub programs: Option<ProgramSet<P>>,
}

/// What a [`ValueRules`] holds.
pub struct ValueRulesV<P> {
    pub scalar: Option<ScalarKind>,
    pub ignore_empty: bool,
    pub any: Option<AnyCheckV>,
    pub checks: Seq<CheckV>,
    pub wrapper: Option<FieldV>,
    pub programs: Option<ProgramSetV<P>>,
}

/// What an optional field holds.
pub open spec fn field_view(field: Option<Field>) -> Option<FieldV> {
    match field {
        Some(field) => Some(field@),
        None => None,
    }
}

impl<P> View for ValueRules<P> {
    type V = ValueRulesV<P>;

    open spec fn view(&self) -> ValueRulesV<P> {
        ValueRulesV {
            scalar: self.scalar,
            ignore_empty: self.ignore_empty,
            any: any_of(self.any),
            checks: checks_of(self.checks@),
            wrapper: field_view(self.wrapper),
            programs: programs_of(self.programs),
        }
    }
}

/// The rules of one field.
pub struct FieldEvaluator<P> {
    pub field: Field,
    pub element: FieldPathElement,
    /// For maps, the element form carrying key and value types, to which
    /// the key subscript is added for per-entry violations.
    pub entry_element: Option<FieldPathElement>,
    pub shape: Shape,
    pub required: bool,
    pub rules: ValueRules<P>,
    /// `enum.defined_only`, checked against the values of the enum at this
    /// place among the descriptors.
    pub defined_only: Option<u64>,
    pub items: Option<ItemEvaluator<P>>,
    pub keys: Option<ItemEvaluator<P>>,
    pub values: Option<ItemEvaluator<P>>,
}

/// What a [`FieldEvaluator`] holds.
pub struct FieldEvaluatorV<P> {
    pub field: FieldV,
    pub element: FieldPathElementV,
    pub entry_element: Option<FieldPathElementV>,
    pub shape: Shape,
    pub required: bool,
    pub rules: ValueRulesV<P>,
    pub defined_only: Option<u64>,
    pub items: Option<ItemEvaluatorV<P>>,
    pub keys: Option<ItemEvaluatorV<P>>,
    pub values: Option<ItemEvaluatorV<P>>,
}

/// What an optional path element holds.
pub open spec fn element_of(element: Option<FieldPathElement>) -> Option<FieldPathElementV> {
    match element {
        Some(element) => Some(element@),
        None => None,
    }
}

impl<P> View for FieldEvaluator<P> {
    type V = FieldEvaluatorV<P>;

    open spec fn view(&self) -> FieldEvaluatorV<P> {
        FieldEvaluatorV {
            field: self.field@,
            element: self.element@,
            entry_element: element_of(self.entry_element),
            shape: self.shape,
            required: self.required,
            rules: self.rules@,
            defined_only: self.defined_only,
            items: item_of(self.items),
            keys: item_of(self.keys),
            values: item_of(self.values),
        }
    }
}

/// What the field evaluators hold.
pub open spec fn field_evaluators_of<P>(fields: Seq<FieldEvaluator<P>>) -> Seq<
    FieldEvaluatorV<P>,
> {
    fields.map_values(|f: FieldEvaluator<P>| f@)
}

/// The rules of the elements of a repeated field, or the keys or values of
/// a map.
pub struct ItemEvaluator<P> {
    pub rules: ValueRules<P>,
    /// The rule path elements between the item rules and `FieldRules`, leaf
    /// first: `[RepeatedRules.items, FieldRules.repeated]`.
    pub rule_prefix: Vec<FieldPathElement>,
}

/// What an [`ItemEvaluator`] holds.
pub struct ItemEvaluatorV<P> {
    pub rules: ValueRulesV<P>,
    pub rule_prefix: Seq<FieldPathElementV>,
}

impl<P> View for ItemEvaluator<P> {
    type V = ItemEvaluatorV<P>;

    open spec fn view(&self) -> ItemEvaluatorV<P> {
        ItemEvaluatorV { rules: self.rules@, rule_prefix: path_of(self.rule_prefix@) }
    }
}

/// What an optional item evaluator holds.
pub open spec fn item_of<P>(item: Option<ItemEvaluator<P>>) -> Option<ItemEvaluatorV<P>> {
    match item {
        Some(item) => Some(item@),
        None => None,
    }
}

/// `any.in` and `any.not_in`.
pub struct AnyCheck {
    pub in_list: Vec<String>,
    pub not_in: Vec<String>,
}

/// What an [`AnyCheck`] holds.
pub struct AnyCheckV {
    pub in_list: Seq<Seq<char>>,
    pub not_in: Seq<Seq<char>>,
}

impl View for AnyCheck {
    type V = AnyCheckV;

    open spec fn view(&self) -> AnyCheckV {
        AnyCheckV { in_list: texts(self.in_list@), not_in: texts(self.not_in@) }
    }
}

/// What an optional check of an `Any` holds.
pub open spec fn any_of(any: Option<AnyCheck>) -> Option<AnyCheckV> {
    match any {
        Some(any) => Some(any@),
        None => None,
    }
}

/// How a scalar field's values are handed to CEL.
#[derive(Clone, Copy, Debug, PartialEq, Eq, Structural)]
pub enum ScalarKind {
    Bool,
    Int,
    Uint,
    Double,
    String,
    Bytes,
}

} // verus!
