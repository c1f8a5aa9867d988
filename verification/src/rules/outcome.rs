//! What a walk over a message finds.
//!
//! The functions here say which violations each part of the rules adds to
//! the ones found before it, in order, or which error ends the walk. Paths
//! are leaf first, as the walk builds them.

use super::standard::wellknown::Formats;
use super::standard::CheckV;
use super::{
    AnyCheckV, FieldEvaluatorV, ItemEvaluatorV, MessageEvaluatorV, MessageOneofV, NestedV,
    OneofRequiredV, ProgramSetV, ScalarKind, Shape, ValueRulesV,
};
use crate::cel::{Engine, ScalarV, ThisV, ValueV};
use crate::descriptors::{any_url_field, SchemaV};
use crate::double::Double;
use crate::error::{from_cel, ErrorV};
use crate::protobuf::reads::{entry_of, field_of, item_of, len_of, presence_of, size_of};
use crate::protobuf::{
    lemma_get_smaller, lemma_item_smaller, lemma_value_smaller, FieldV, KeyV, ValV,
};
use crate::validate::{FieldPathElementV, SubscriptV, ViolationV};
use vstd::prelude::*;

verus! {

/// What one validation goes by.
pub struct Setting<F, C: Engine> {
    pub schema: SchemaV,
    /// The numbers that each enum defines.
    pub enums: Seq<Seq<i32>>,
    /// The full name of each message type.
    pub types: Seq<Seq<char>>,
    pub engine: C,
    pub formats: F,
    pub evaluators: Map<u64, MessageEvaluatorV<C::Program>>,
    /// The time of validation.
    pub now: int,
    /// Whether to stop at the first violation.
    pub fast: bool,
}

/// The violations that a part of the walk adds, or the error that ends it.
pub type Out<E> = Result<Seq<ViolationV>, ErrorV<E>>;

/// Nothing found.
pub open spec fn nothing<E>() -> Out<E> {
    Ok(Seq::empty())
}

/// One violation found.
pub open spec fn one<E>(v: ViolationV) -> Out<E> {
    Ok(seq![v])
}

/// `found`, then what comes after it.
pub open spec fn cat<E>(found: Seq<ViolationV>, after: Out<E>) -> Out<E> {
    match after {
        Ok(more) => Ok(found + more),
        Err(e) => Err(e),
    }
}

/// One part, then the next, which is left out when the first found something
/// and the walk is to stop at the first violation.
pub open spec fn chain<E>(fast: bool, first: Out<E>, second: Out<E>) -> Out<E> {
    match first {
        Err(e) => Err(e),
        Ok(found) => if fast && found.len() > 0 {
            Ok(found)
        } else {
            cat(found, second)
        },
    }
}

/// A violation as the walk first reports it.
pub open spec fn violation_of(
    rule_id: Seq<char>,
    message: Seq<char>,
    field: Option<FieldPathElementV>,
    rule: Seq<FieldPathElementV>,
) -> ViolationV {
    ViolationV {
        field: match field {
            Some(element) => Some(seq![element]),
            None => None,
        },
        rule: if rule.len() == 0 {
            None
        } else {
            Some(rule)
        },
        rule_id: Some(rule_id),
        message: Some(message),
        for_key: None,
    }
}

/// A path, or the empty one for none.
pub open spec fn path_or_empty(path: Option<Seq<FieldPathElementV>>) -> Seq<FieldPathElementV> {
    match path {
        Some(path) => path,
        None => Seq::empty(),
    }
}

/// The violation with one more element on its field path.
pub open spec fn with_field(v: ViolationV, element: FieldPathElementV) -> ViolationV {
    ViolationV { field: Some(path_or_empty(v.field).push(element)), ..v }
}

/// The violation with more elements on its rule path.
pub open spec fn with_rule(v: ViolationV, elements: Seq<FieldPathElementV>) -> ViolationV {
    ViolationV { rule: Some(path_or_empty(v.rule) + elements), ..v }
}

/// The violation as one of a map key.
pub open spec fn with_key(v: ViolationV) -> ViolationV {
    ViolationV { for_key: Some(true), ..v }
}

/// The violations, each with one more element on its field path.
pub open spec fn on_field(found: Seq<ViolationV>, element: FieldPathElementV) -> Seq<ViolationV> {
    found.map_values(|v: ViolationV| with_field(v, element))
}

/// The violations, each with more elements on its rule path.
pub open spec fn on_rule(found: Seq<ViolationV>, elements: Seq<FieldPathElementV>) -> Seq<
    ViolationV,
> {
    found.map_values(|v: ViolationV| with_rule(v, elements))
}

/// The violations as ones of a map key.
pub open spec fn on_key(found: Seq<ViolationV>) -> Seq<ViolationV> {
    found.map_values(|v: ViolationV| with_key(v))
}

/// The path element with a subscript.
pub open spec fn subscripted(element: FieldPathElementV, subscript: SubscriptV) -> FieldPathElementV {
    FieldPathElementV { subscript: Some(subscript), ..element }
}

/// A message as CEL sees it.
pub open spec fn frame_of<C: Engine, E>(engine: C, name: Seq<char>, m: ValV<E>) -> Result<
    C::Frame,
    ErrorV<E>,
> {
    match m->encode {
        Err(e) => Err(ErrorV::Read(e)),
        Ok(bytes) => match engine.parsed(name, bytes) {
            Ok(frame) => Ok(frame),
            Err(e) => Err(from_cel(e)),
        },
    }
}

/// Whether a repeated element or map value is the zero of its type, as
/// `IGNORE_IF_ZERO_VALUE` reads it.
pub open spec fn zero_item<E>(value: ValV<E>) -> bool {
    match value {
        ValV::Bool(b) => !b,
        ValV::Int(i) => i == 0,
        ValV::Uint(u) => u == 0,
        ValV::Double(f) => f.position() == 0,
        ValV::Enum(e) => e == 0,
        ValV::String(s) => s.len() == 0,
        ValV::Bytes(b) => b.len() == 0,
        _ => false,
    }
}

/// Whether a field that does not track presence is set: not its type's
/// default. A double goes by its bits, so a negative zero, which serializes,
/// is set. `None` is a field the message does not have at all.
pub open spec fn value_set<E>(value: Option<ValV<E>>) -> Result<bool, ErrorV<E>> {
    match value {
        None => Ok(false),
        Some(v) => match v {
            ValV::Bool(b) => Ok(b),
            ValV::Int(i) => Ok(i != 0),
            ValV::Uint(u) => Ok(u != 0),
            ValV::Double(f) => Ok(f.bits != 0),
            ValV::Enum(e) => Ok(e != 0),
            ValV::String(s) => Ok(s.len() != 0),
            ValV::Bytes(b) => Ok(b.len() != 0),
            ValV::Message { .. } => Ok(true),
            ValV::List { .. } => match len_of(v) {
                Ok(len) => Ok(len != 0),
                Err(e) => Err(e),
            },
            ValV::Mapping { .. } => match size_of(v) {
                Ok(len) => Ok(len != 0),
                Err(e) => Err(e),
            },
            ValV::Failed(_) => Ok(false),
        },
    }
}

/// Whether a field is set: the runtime says for one that tracks presence,
/// its value for the rest.
pub open spec fn field_set<E>(m: ValV<E>, field: FieldV) -> Result<bool, ErrorV<E>> {
    if field.has_presence {
        presence_of(m, field)
    } else {
        match field_of(m, field) {
            Err(e) => Err(e),
            Ok(value) => value_set(value),
        }
    }
}

/// Whether a map key is the zero of its type.
pub open spec fn zero_key(key: KeyV) -> bool {
    match key {
        KeyV::Bool(b) => !b,
        KeyV::Int(i) => i == 0,
        KeyV::Uint(u) => u == 0,
        KeyV::String(s) => s.len() == 0,
    }
}

/// A map key as CEL sees it.
pub open spec fn key_scalar(key: KeyV) -> ScalarV {
    match key {
        KeyV::Bool(b) => ScalarV::Bool(b),
        KeyV::Int(i) => ScalarV::Int(i),
        KeyV::Uint(u) => ScalarV::Uint(u),
        KeyV::String(s) => ScalarV::String(s),
    }
}

/// A map key as the subscript of a path element.
pub open spec fn key_subscript(key: KeyV) -> SubscriptV {
    match key {
        KeyV::Bool(b) => SubscriptV::BoolKey(b),
        KeyV::Int(i) => SubscriptV::IntKey(i),
        KeyV::Uint(u) => SubscriptV::UintKey(u),
        KeyV::String(s) => SubscriptV::StringKey(s),
    }
}

/// A map key as a value, for the key rules.
pub open spec fn key_value<E>(key: KeyV) -> ValV<E> {
    match key {
        KeyV::Bool(b) => ValV::Bool(b),
        KeyV::Int(i) => ValV::Int(i),
        KeyV::Uint(u) => ValV::Uint(u),
        KeyV::String(s) => ValV::String(s),
    }
}

/// The CEL scalar for a field's value, or the type's zero when the message
/// does not have the field at all.
pub open spec fn value_scalar<E>(value: Option<ValV<E>>, kind: ScalarKind) -> ScalarV {
    match value {
        Some(ValV::Bool(b)) => ScalarV::Bool(b),
        Some(ValV::Int(i)) => ScalarV::Int(i),
        Some(ValV::Uint(u)) => ScalarV::Uint(u),
        Some(ValV::Double(f)) => ScalarV::Double(f),
        Some(ValV::Enum(e)) => ScalarV::Int(e as i64),
        Some(ValV::String(s)) => ScalarV::String(s),
        Some(ValV::Bytes(b)) => ScalarV::Bytes(b),
        _ => match kind {
            ScalarKind::Bool => ScalarV::Bool(false),
            ScalarKind::Int => ScalarV::Int(0),
            ScalarKind::Uint => ScalarV::Uint(0),
            ScalarKind::Double => ScalarV::Double(Double { bits: 0 }),
            ScalarKind::String => ScalarV::String(Seq::empty()),
            ScalarKind::Bytes => ScalarV::Bytes(Seq::empty()),
        },
    }
}

impl<F: Formats, C: Engine> Setting<F, C> {
    /// One standard rule.
    pub open spec fn check<E>(self, check: CheckV, value: Option<ValV<E>>) -> Out<E> {
        match check.test.broken_by::<F, E>(self.formats, self.now, value) {
            Err(e) => Err(e),
            Ok(false) => nothing(),
            Ok(true) => one(violation_of(check.id, check.message, None, check.rule_path)),
        }
    }

    /// The standard rules from the `i`th on.
    pub open spec fn checks_from<E>(
        self,
        checks: Seq<CheckV>,
        value: Option<ValV<E>>,
        i: int,
    ) -> Out<E>
        decreases checks.len() - i,
    {
        if i < 0 || i >= checks.len() {
            nothing()
        } else {
            chain(self.fast, self.check(checks[i], value), self.checks_from(checks, value, i + 1))
        }
    }

    /// The standard rules of a value. A wrapper message is checked by its
    /// `value` field, as CEL unboxes it.
    pub open spec fn checks<E>(
        self,
        checks: Seq<CheckV>,
        wrapper: Option<FieldV>,
        value: Option<ValV<E>>,
    ) -> Out<E> {
        match wrapper {
            None => self.checks_from(checks, value, 0),
            Some(field) => if value is Some && value->Some_0 is Message {
                match field_of(value->Some_0, field) {
                    Err(e) => Err(e),
                    Ok(unboxed) => self.checks_from(checks, unboxed, 0),
                }
            } else {
                self.checks_from(checks, None, 0)
            },
        }
    }

    /// One CEL expression. It passes by producing `true` or an empty string;
    /// `false` fails with the rule's own message, and a non-empty string
    /// fails with that string as the message.
    pub open spec fn program<E>(
        self,
        programs: ProgramSetV<C::Program>,
        this: ThisV<C::Frame>,
        i: int,
    ) -> Out<E> {
        let meta = programs.rules[i];
        match self.engine.evaluated(programs.program, i, this) {
            Err(e) => Err(from_cel(e)),
            Ok(ValueV::Bool(true)) => nothing(),
            Ok(ValueV::Bool(false)) => one(
                violation_of(
                    meta.id,
                    if meta.message.len() == 0 {
                        "\""@ + meta.expression + "\" returned false"@
                    } else {
                        meta.message
                    },
                    None,
                    meta.rule_path,
                ),
            ),
            Ok(ValueV::String(text)) => if text.len() == 0 {
                nothing()
            } else {
                one(violation_of(meta.id, text, None, meta.rule_path))
            },
            Ok(ValueV::Other) => Err(ErrorV::Evaluation("invalid result type"@)),
        }
    }

    /// The CEL expressions from the `i`th on.
    pub open spec fn programs_from<E>(
        self,
        programs: ProgramSetV<C::Program>,
        this: ThisV<C::Frame>,
        i: int,
    ) -> Out<E>
        decreases programs.rules.len() - i,
    {
        if i < 0 || i >= programs.rules.len() {
            nothing()
        } else {
            chain(
                self.fast,
                self.program(programs, this, i),
                self.programs_from(programs, this, i + 1),
            )
        }
    }

    /// The message-level CEL of a message.
    pub open spec fn message_cel<E>(
        self,
        m: ValV<E>,
        name: Seq<char>,
        cel: Option<ProgramSetV<C::Program>>,
    ) -> Out<E> {
        match cel {
            None => nothing(),
            Some(programs) => match frame_of(self.engine, name, m) {
                Err(e) => Err(e),
                Ok(frame) => self.programs_from(programs, ThisV::Message(frame), 0),
            },
        }
    }

    /// How many of the fields from the `i`th on are set.
    pub open spec fn set_from<E>(m: ValV<E>, fields: Seq<FieldV>, i: int) -> Result<nat, ErrorV<E>>
        decreases fields.len() - i,
    {
        if i < 0 || i >= fields.len() {
            Ok(0nat)
        } else {
            match field_set(m, fields[i]) {
                Err(e) => Err(e),
                Ok(set) => match Self::set_from(m, fields, i + 1) {
                    Err(e) => Err(e),
                    Ok(more) => Ok(
                        if set {
                            more + 1
                        } else {
                            more
                        },
                    ),
                },
            }
        }
    }

    /// A `(buf.validate.message).oneof` rule.
    pub open spec fn message_oneof<E>(self, m: ValV<E>, oneof: MessageOneofV) -> Out<E> {
        match Self::set_from(m, oneof.fields, 0) {
            Err(e) => Err(e),
            Ok(set) => if set > 1 {
                one(
                    violation_of(
                        "message.oneof"@,
                        "only one of "@ + oneof.names + " can be set"@,
                        None,
                        Seq::empty(),
                    ),
                )
            } else if oneof.required && set == 0 {
                one(
                    violation_of(
                        "message.oneof"@,
                        "one of "@ + oneof.names + " must be set"@,
                        None,
                        Seq::empty(),
                    ),
                )
            } else {
                nothing()
            },
        }
    }

    /// The message oneofs from the `i`th on.
    pub open spec fn message_oneofs_from<E>(
        self,
        m: ValV<E>,
        oneofs: Seq<MessageOneofV>,
        i: int,
    ) -> Out<E>
        decreases oneofs.len() - i,
    {
        if i < 0 || i >= oneofs.len() {
            nothing()
        } else {
            chain(
                self.fast,
                self.message_oneof(m, oneofs[i]),
                self.message_oneofs_from(m, oneofs, i + 1),
            )
        }
    }

    /// Whether one of the members from the `i`th on is set.
    pub open spec fn any_set_from<E>(m: ValV<E>, members: Seq<FieldV>, i: int) -> Result<
        bool,
        ErrorV<E>,
    >
        decreases members.len() - i,
    {
        if i < 0 || i >= members.len() {
            Ok(false)
        } else {
            match field_set(m, members[i]) {
                Err(e) => Err(e),
                Ok(true) => Ok(true),
                Ok(false) => Self::any_set_from(m, members, i + 1),
            }
        }
    }

    /// A `(buf.validate.oneof).required` rule.
    pub open spec fn oneof<E>(self, m: ValV<E>, oneof: OneofRequiredV) -> Out<E> {
        match Self::any_set_from(m, oneof.members, 0) {
            Err(e) => Err(e),
            Ok(true) => nothing(),
            Ok(false) => one(
                violation_of(
                    "required"@,
                    "exactly one field is required in oneof"@,
                    Some(oneof.element),
                    Seq::empty(),
                ),
            ),
        }
    }

    /// The required oneofs from the `i`th on.
    pub open spec fn oneofs_from<E>(self, m: ValV<E>, oneofs: Seq<OneofRequiredV>, i: int) -> Out<E>
        decreases oneofs.len() - i,
    {
        if i < 0 || i >= oneofs.len() {
            nothing()
        } else {
            chain(self.fast, self.oneof(m, oneofs[i]), self.oneofs_from(m, oneofs, i + 1))
        }
    }

    /// A field that is not set, and has to be.
    pub open spec fn required<E>(self, field: FieldEvaluatorV<C::Program>) -> Out<E> {
        one(
            violation_of(
                "required"@,
                "value is required"@,
                Some(field.element),
                seq![self.schema.required],
            ),
        )
    }

    /// `any.in` and `any.not_in`.
    pub open spec fn any<E>(
        self,
        field: Option<FieldPathElementV>,
        any: ValV<E>,
        check: AnyCheckV,
    ) -> Out<E> {
        match field_of(any, any_url_field()) {
            Err(e) => Err(e),
            Ok(value) => {
                let url = match value {
                    Some(ValV::String(url)) => url,
                    _ => Seq::empty(),
                };
                let outside = if check.in_list.len() > 0 && !check.in_list.contains(url) {
                    one(
                        violation_of(
                            "any.in"@,
                            "type URL must be in the allow list"@,
                            field,
                            seq![self.schema.any_in, self.schema.any],
                        ),
                    )
                } else {
                    nothing()
                };
                let inside = if check.not_in.contains(url) {
                    one(
                        violation_of(
                            "any.not_in"@,
                            "type URL must not be in the block list"@,
                            field,
                            seq![self.schema.any_not_in, self.schema.any],
                        ),
                    )
                } else {
                    nothing()
                };
                chain(self.fast, outside, inside)
            },
        }
    }

    /// `any.in` and `any.not_in` of a value, where it is a message that has
    /// the rules.
    pub open spec fn any_of_value<E>(
        self,
        field: Option<FieldPathElementV>,
        value: Option<ValV<E>>,
        check: Option<AnyCheckV>,
    ) -> Out<E> {
        match (check, value) {
            (Some(check), Some(any)) => if any is Message {
                self.any(field, any, check)
            } else {
                nothing()
            },
            _ => nothing(),
        }
    }

    /// What `this` is bound to for the CEL of a field.
    pub open spec fn field_this<E>(
        self,
        m: ValV<E>,
        name: Seq<char>,
        field: FieldEvaluatorV<C::Program>,
        value: Option<ValV<E>>,
    ) -> Result<ThisV<C::Frame>, ErrorV<E>> {
        match (field.shape, field.rules.scalar) {
            (Shape::Singular, Some(kind)) => Ok(ThisV::Scalar(value_scalar(value, kind))),
            _ => match frame_of(self.engine, name, m) {
                Err(e) => Err(e),
                Ok(frame) => Ok(
                    ThisV::Field(
                        frame,
                        if field.field.number <= i32::MAX {
                            field.field.number as i32
                        } else {
                            i32::MAX
                        },
                    ),
                ),
            },
        }
    }

    /// The CEL of a field.
    pub open spec fn field_cel<E>(
        self,
        m: ValV<E>,
        name: Seq<char>,
        field: FieldEvaluatorV<C::Program>,
        value: Option<ValV<E>>,
    ) -> Out<E> {
        match field.rules.programs {
            None => nothing(),
            Some(programs) => match self.field_this(m, name, field, value) {
                Err(e) => Err(e),
                Ok(this) => self.programs_from(programs, this, 0),
            },
        }
    }

    /// Whether the enum defines the number.
    pub open spec fn defines(self, index: u64, number: i32) -> bool {
        index < self.enums.len() && self.enums[index as int].contains(number)
    }

    /// `enum.defined_only`.
    pub open spec fn defined_only<E>(
        self,
        field: FieldEvaluatorV<C::Program>,
        value: Option<ValV<E>>,
    ) -> Out<E> {
        match (field.defined_only, value) {
            (Some(index), Some(ValV::Enum(number))) => if self.defines(index, number) {
                nothing()
            } else {
                one(
                    violation_of(
                        "enum.defined_only"@,
                        "value must be one of the defined enum values"@,
                        Some(field.element),
                        seq![self.schema.enum_defined_only, self.schema.enumeration],
                    ),
                )
            },
            _ => nothing(),
        }
    }

    /// The CEL of one element or map value, with `this` bound to the value:
    /// a scalar directly, a message through a frame of its own.
    pub open spec fn item_cel<E>(
        self,
        rules: ValueRulesV<C::Program>,
        field: FieldV,
        value: ValV<E>,
    ) -> Out<E> {
        match rules.programs {
            None => nothing(),
            Some(programs) => match rules.scalar {
                Some(kind) => self.programs_from(
                    programs,
                    ThisV::Scalar(value_scalar(Some(value), kind)),
                    0,
                ),
                None => if value is Message {
                    match field.message_type {
                        None => Err(ErrorV::Unexpected(field.name + " does not hold messages"@)),
                        Some(name) => match frame_of(self.engine, name, value) {
                            Err(e) => Err(e),
                            Ok(frame) => self.programs_from(programs, ThisV::Message(frame), 0),
                        },
                    }
                } else {
                    Err(ErrorV::Unexpected(field.name + " holds no message to bind this to"@))
                },
            },
        }
    }

    /// The rules of one element or map value: the checks, then the custom
    /// CEL.
    pub open spec fn item<E>(
        self,
        rules: ValueRulesV<C::Program>,
        field: FieldV,
        value: ValV<E>,
    ) -> Out<E> {
        chain(
            self.fast,
            self.checks(rules.checks, rules.wrapper, Some(value)),
            self.item_cel(rules, field, value),
        )
    }

    /// The rules of the `i`th element of a repeated field.
    pub open spec fn list_item<E>(
        self,
        field: FieldEvaluatorV<C::Program>,
        items: ItemEvaluatorV<C::Program>,
        l: ValV<E>,
        i: int,
    ) -> Out<E> {
        match item_of(l, i) {
            Err(e) => Err(e),
            Ok(None) => nothing(),
            Ok(Some(value)) => if items.rules.ignore_empty && zero_item(value) {
                nothing()
            } else {
                match chain(
                    self.fast,
                    self.item(items.rules, field.field, value),
                    self.any_of_value(None, Some(value), items.rules.any),
                ) {
                    Err(e) => Err(e),
                    Ok(found) => Ok(
                        on_rule(
                            on_field(
                                found,
                                subscripted(field.element, SubscriptV::Index(i as u64)),
                            ),
                            items.rule_prefix,
                        ),
                    ),
                }
            },
        }
    }

    /// The elements of a repeated field from the `i`th of `n` on.
    pub open spec fn items_from<E>(
        self,
        field: FieldEvaluatorV<C::Program>,
        items: ItemEvaluatorV<C::Program>,
        l: ValV<E>,
        i: int,
        n: int,
    ) -> Out<E>
        decreases n - i,
    {
        if i >= n {
            nothing()
        } else {
            chain(
                self.fast,
                self.list_item(field, items, l, i),
                self.items_from(field, items, l, i + 1, n),
            )
        }
    }

    /// The elements of a repeated field.
    pub open spec fn items<E>(
        self,
        field: FieldEvaluatorV<C::Program>,
        items: ItemEvaluatorV<C::Program>,
        l: ValV<E>,
    ) -> Out<E> {
        match len_of(l) {
            Err(e) => Err(e),
            Ok(n) => self.items_from(field, items, l, 0, n as int),
        }
    }

    /// The rules of a map key.
    pub open spec fn entry_key<E>(
        self,
        keys: Option<ItemEvaluatorV<C::Program>>,
        key: KeyV,
    ) -> Out<E> {
        match keys {
            None => nothing(),
            Some(keys) => if keys.rules.ignore_empty && zero_key(key) {
                nothing()
            } else {
                let checked: Out<E> = self.checks_from(
                    keys.rules.checks,
                    Some(key_value::<E>(key)),
                    0,
                );
                let cel = match keys.rules.programs {
                    None => nothing(),
                    Some(programs) => self.programs_from(
                        programs,
                        ThisV::Scalar(key_scalar(key)),
                        0,
                    ),
                };
                match chain(self.fast, checked, cel) {
                    Err(e) => Err(e),
                    Ok(found) => Ok(on_key(on_rule(found, keys.rule_prefix))),
                }
            },
        }
    }

    /// The rules of a map value.
    pub open spec fn entry_value<E>(
        self,
        values: Option<ItemEvaluatorV<C::Program>>,
        field: FieldV,
        value: ValV<E>,
    ) -> Out<E> {
        match values {
            None => nothing(),
            Some(values) => if values.rules.ignore_empty && zero_item(value) {
                nothing()
            } else {
                match self.item(values.rules, field, value) {
                    Err(e) => Err(e),
                    Ok(found) => Ok(on_rule(found, values.rule_prefix)),
                }
            },
        }
    }

    /// The rules of one map entry: those of its key, then those of its value.
    pub open spec fn entry<E>(
        self,
        field: FieldEvaluatorV<C::Program>,
        key: KeyV,
        value: ValV<E>,
    ) -> Out<E> {
        match chain(
            self.fast,
            self.entry_key::<E>(field.keys, key),
            self.entry_value(field.values, field.field, value),
        ) {
            Err(e) => Err(e),
            Ok(found) => Ok(
                on_field(
                    found,
                    subscripted(
                        match field.entry_element {
                            Some(element) => element,
                            None => field.element,
                        },
                        key_subscript(key),
                    ),
                ),
            ),
        }
    }

    /// The entries of a map from the `i`th on, up to the first that is not
    /// there.
    pub open spec fn entries_from<E>(
        self,
        field: FieldEvaluatorV<C::Program>,
        p: ValV<E>,
        i: int,
    ) -> Out<E>
        decreases usize::MAX - i,
    {
        if i >= usize::MAX {
            nothing()
        } else {
            match entry_of(p, i) {
                Err(e) => Err(e),
                Ok(None) => nothing(),
                Ok(Some((key, value))) => chain(
                    self.fast,
                    self.entry(field, key, value),
                    self.entries_from(field, p, i + 1),
                ),
            }
        }
    }

    /// Whether a field is there to be checked: `None` when it is, and
    /// otherwise what is said of it instead.
    pub open spec fn absent<E>(
        self,
        m: ValV<E>,
        field: FieldEvaluatorV<C::Program>,
        value: Option<ValV<E>>,
    ) -> Option<Out<E>> {
        if field.shape is Singular {
            let set = if field.field.has_presence {
                presence_of(m, field.field)
            } else {
                value_set(value)
            };
            match set {
                Err(e) => Some(Err(e)),
                Ok(true) => None,
                Ok(false) => if field.required {
                    Some(self.required(field))
                } else if field.rules.ignore_empty {
                    Some(nothing())
                } else {
                    None
                },
            }
        } else {
            let len = match value {
                Some(v) => if v is List {
                    len_of(v)
                } else if v is Mapping {
                    size_of(v)
                } else {
                    Ok(0)
                },
                None => Ok(0),
            };
            match len {
                Err(e) => Some(Err(e)),
                Ok(len) => if len > 0 {
                    None
                } else if field.rules.ignore_empty {
                    Some(nothing())
                } else if field.required {
                    Some(self.required(field))
                } else {
                    None
                },
            }
        }
    }

    /// The checks and CEL of a field.
    pub open spec fn field_rules<E>(
        self,
        m: ValV<E>,
        name: Seq<char>,
        field: FieldEvaluatorV<C::Program>,
        value: Option<ValV<E>>,
    ) -> Out<E> {
        match chain(
            self.fast,
            self.checks(field.rules.checks, field.rules.wrapper, value),
            self.field_cel(m, name, field, value),
        ) {
            Err(e) => Err(e),
            Ok(found) => Ok(on_field(found, field.element)),
        }
    }

    /// The rules of a repeated field's elements.
    pub open spec fn field_list<E>(
        self,
        field: FieldEvaluatorV<C::Program>,
        value: Option<ValV<E>>,
    ) -> Out<E> {
        match (field.items, value) {
            (Some(items), Some(list)) => if list is List {
                self.items(field, items, list)
            } else {
                nothing()
            },
            _ => nothing(),
        }
    }

    /// The rules of a map field's entries.
    pub open spec fn field_entries<E>(
        self,
        field: FieldEvaluatorV<C::Program>,
        value: Option<ValV<E>>,
    ) -> Out<E> {
        if (field.keys is Some || field.values is Some) && value is Some
            && value->Some_0 is Mapping {
            self.entries_from(field, value->Some_0, 0)
        } else {
            nothing()
        }
    }

    /// The rules of a field that is there, after its `any` rules: the
    /// checks and CEL programs, then the enum, repeated and map rules.
    pub open spec fn present_field<E>(
        self,
        m: ValV<E>,
        name: Seq<char>,
        field: FieldEvaluatorV<C::Program>,
        value: Option<ValV<E>>,
    ) -> Out<E> {
        chain(
            self.fast,
            self.field_rules(m, name, field, value),
            chain(
                self.fast,
                self.defined_only(field, value),
                chain(
                    self.fast,
                    self.field_list(field, value),
                    self.field_entries(field, value),
                ),
            ),
        )
    }

    /// The rules of one field: presence, the checks and CEL programs, then
    /// the enum, repeated and map rules.
    pub open spec fn field<E>(
        self,
        m: ValV<E>,
        name: Seq<char>,
        field: FieldEvaluatorV<C::Program>,
    ) -> Out<E> {
        match field_of(m, field.field) {
            Err(e) => Err(e),
            Ok(value) => match self.absent(m, field, value) {
                Some(out) => out,
                None => {
                    let any = if field.shape is Singular {
                        self.any_of_value(Some(field.element), value, field.rules.any)
                    } else {
                        nothing()
                    };
                    chain(self.fast, any, self.present_field(m, name, field, value))
                },
            },
        }
    }

    /// The fields from the `i`th on.
    pub open spec fn fields_from<E>(
        self,
        m: ValV<E>,
        name: Seq<char>,
        fields: Seq<FieldEvaluatorV<C::Program>>,
        i: int,
    ) -> Out<E>
        decreases fields.len() - i,
    {
        if i < 0 || i >= fields.len() {
            nothing()
        } else {
            chain(
                self.fast,
                self.field(m, name, fields[i]),
                self.fields_from(m, name, fields, i + 1),
            )
        }
    }

    /// What is wrong with a message of type `name`.
    pub open spec fn message<E>(
        self,
        m: ValV<E>,
        name: Seq<char>,
        evaluator: MessageEvaluatorV<C::Program>,
    ) -> Out<E>
        decreases m, 2nat, 0int,
    {
        chain(
            self.fast,
            self.message_cel(m, name, evaluator.cel),
            chain(
                self.fast,
                self.message_oneofs_from(m, evaluator.message_oneofs, 0),
                chain(
                    self.fast,
                    self.fields_from(m, name, evaluator.fields, 0),
                    chain(
                        self.fast,
                        self.oneofs_from(m, evaluator.oneofs, 0),
                        self.nested_from(m, evaluator.nested, 0),
                    ),
                ),
            ),
        )
    }

    /// The nested messages of a list from the `i`th of `n` on.
    pub open spec fn nested_items_from<E>(
        self,
        l: ValV<E>,
        name: Seq<char>,
        evaluator: MessageEvaluatorV<C::Program>,
        element: FieldPathElementV,
        i: int,
        n: int,
    ) -> Out<E>
        decreases l, 1nat, n - i,
    {
        if i >= n || !(l is List) {
            nothing()
        } else {
            chain(
                self.fast,
                match item_of(l, i) {
                    Err(e) => Err(e),
                    Ok(None) => nothing(),
                    Ok(Some(sub)) => if sub is Message {
                        proof {
                            lemma_item_smaller(l, i);
                        }
                        match self.message(sub, name, evaluator) {
                            Err(e) => Err(e),
                            Ok(found) => Ok(
                                on_field(found, subscripted(element, SubscriptV::Index(i as u64))),
                            ),
                        }
                    } else {
                        nothing()
                    },
                },
                self.nested_items_from(l, name, evaluator, element, i + 1, n),
            )
        }
    }

    /// The nested message of a map entry.
    pub open spec fn nested_entry<E>(
        self,
        p: ValV<E>,
        name: Seq<char>,
        evaluator: MessageEvaluatorV<C::Program>,
        element: FieldPathElementV,
        i: int,
    ) -> Out<E>
        decreases p, 0nat, 0int,
    {
        match entry_of(p, i) {
            Err(e) => Err(e),
            Ok(None) => nothing(),
            Ok(Some((key, sub))) => if sub is Message && p is Mapping {
                proof {
                    lemma_value_smaller(p, i);
                }
                match self.message(sub, name, evaluator) {
                    Err(e) => Err(e),
                    Ok(found) => Ok(on_field(found, subscripted(element, key_subscript(key)))),
                }
            } else {
                nothing()
            },
        }
    }

    /// The nested messages of a map from the `i`th entry on, up to the first
    /// that is not there.
    pub open spec fn nested_entries_from<E>(
        self,
        p: ValV<E>,
        name: Seq<char>,
        evaluator: MessageEvaluatorV<C::Program>,
        element: FieldPathElementV,
        i: int,
    ) -> Out<E>
        decreases p, 1nat, usize::MAX - i,
    {
        if i >= usize::MAX || !(p is Mapping) || entry_of(p, i) == Ok::<
            Option<(KeyV, ValV<E>)>,
            ErrorV<E>,
        >(None) {
            nothing()
        } else {
            chain(
                self.fast,
                self.nested_entry(p, name, evaluator, element, i),
                self.nested_entries_from(p, name, evaluator, element, i + 1),
            )
        }
    }

    /// The messages of one message-typed field.
    pub open spec fn nested_field<E>(self, m: ValV<E>, nested: NestedV) -> Out<E>
        decreases m, 0nat, 0int,
    {
        let there = if nested.shape is Singular {
            presence_of(m, nested.field)
        } else {
            Ok(true)
        };
        match there {
            Err(e) => Err(e),
            Ok(false) => nothing(),
            Ok(true) => match field_of(m, nested.field) {
                Err(e) => Err(e),
                Ok(None) => nothing(),
                Ok(Some(value)) => if !self.evaluators.dom().contains(nested.message) {
                    Err(
                        ErrorV::Unexpected(
                            "rules not loaded for message: "@ + self.type_at(nested.message),
                        ),
                    )
                } else {
                    match nested.field.message_type {
                        None => Err(
                            ErrorV::Unexpected(nested.field.name + " does not hold messages"@),
                        ),
                        Some(name) => {
                            let evaluator = self.evaluators[nested.message];
                            if !(m is Message) {
                                nothing()
                            } else {
                                proof {
                                    lemma_get_smaller(m, nested.field);
                                }
                                match nested.shape {
                                    Shape::Singular => if value is Message {
                                        match self.message(value, name, evaluator) {
                                            Err(e) => Err(e),
                                            Ok(found) => Ok(on_field(found, nested.element)),
                                        }
                                    } else {
                                        nothing()
                                    },
                                    Shape::List => if value is List {
                                        match len_of(value) {
                                            Err(e) => Err(e),
                                            Ok(n) => self.nested_items_from(
                                                value,
                                                name,
                                                evaluator,
                                                nested.element,
                                                0,
                                                n as int,
                                            ),
                                        }
                                    } else {
                                        nothing()
                                    },
                                    Shape::Mapping { .. } => if value is Mapping {
                                        self.nested_entries_from(
                                            value,
                                            name,
                                            evaluator,
                                            nested.element,
                                            0,
                                        )
                                    } else {
                                        nothing()
                                    },
                                }
                            }
                        },
                    }
                },
            },
        }
    }

    /// The name of the message type at a place among the descriptors.
    pub open spec fn type_at(self, index: u64) -> Seq<char> {
        if index < self.types.len() {
            self.types[index as int]
        } else {
            Seq::empty()
        }
    }

    /// The messages of the message-typed fields from the `i`th on.
    pub open spec fn nested_from<E>(self, m: ValV<E>, nested: Seq<NestedV>, i: int) -> Out<E>
        decreases m, 1nat, nested.len() - i,
    {
        if i < 0 || i >= nested.len() {
            nothing()
        } else {
            chain(
                self.fast,
                self.nested_field(m, nested[i]),
                self.nested_from(m, nested, i + 1),
            )
        }
    }
}

/// A violation with its paths from the root down.
pub open spec fn from_root(v: ViolationV) -> ViolationV {
    ViolationV {
        field: match v.field {
            Some(path) => Some(path.reverse()),
            None => None,
        },
        rule: match v.rule {
            Some(path) => Some(path.reverse()),
            None => None,
        },
        ..v
    }
}

/// Violations with their paths from the root down.
pub open spec fn all_from_root(found: Seq<ViolationV>) -> Seq<ViolationV> {
    found.map_values(|v: ViolationV| from_root(v))
}

impl<F: Formats, C: Engine> Setting<F, C> {
    /// What validating a message of type `name` reports.
    pub open spec fn validated<E>(
        self,
        m: ValV<E>,
        name: Seq<char>,
        evaluator: MessageEvaluatorV<C::Program>,
    ) -> Out<E> {
        match self.message(m, name, evaluator) {
            Err(e) => Err(e),
            Ok(found) => Ok(all_from_root(found)),
        }
    }
}

} // verus!
