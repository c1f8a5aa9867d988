//! The steps of a walk: what it does, one read or rule after the other.
//!
//! A step is a read that failed, a rule that was checked, or a message that
//! could not be shown to CEL. A walk takes the steps in order, and ends with
//! the first that fails or, failing fast, with the first that finds
//! something.

use super::outcome::{
    chain, frame_of, key_scalar, key_value, nothing, on_field, subscripted, value_scalar, zero_item,
    zero_key, Out, Setting,
};
use super::standard::wellknown::Formats;
use super::standard::CheckV;
use super::{
    FieldEvaluatorV, ItemEvaluatorV, MessageEvaluatorV, MessageOneofV, NestedV, OneofRequiredV,
    ProgramSetV, Shape, ValueRulesV,
};
use crate::cel::{Engine, ThisV};
use crate::error::ErrorV;
use crate::protobuf::reads::{entry_of, field_of, item_of, len_of, presence_of};
use crate::protobuf::{
    lemma_get_smaller, lemma_item_smaller, lemma_value_smaller, FieldV, KeyV, ValV,
};
use crate::validate::{FieldPathElementV, SubscriptV, ViolationV};
use vstd::prelude::*;

verus! {

/// What taking the steps in order finds.
pub open spec fn taken<E>(fast: bool, steps: Seq<Out<E>>) -> Out<E>
    decreases steps.len(),
{
    if steps.len() == 0 {
        nothing()
    } else {
        chain(fast, steps[0], taken(fast, steps.drop_first()))
    }
}

/// Whether a step is where the walk ends with an error: it fails, and the
/// steps before it did not end the walk.
pub open spec fn ends_at<E>(fast: bool, steps: Seq<Out<E>>, i: int, error: ErrorV<E>) -> bool {
    &&& 0 <= i < steps.len()
    &&& steps[i] == Err::<Seq<ViolationV>, ErrorV<E>>(error)
    &&& forall|j: int|
        0 <= j < i ==> (#[trigger] steps[j] is Ok && (fast ==> steps[j]->Ok_0.len() == 0))
}

/// A failure, as the one step.
pub open spec fn failure<E>(error: ErrorV<E>) -> Seq<Out<E>> {
    seq![Err(error)]
}

impl<F: Formats, C: Engine> Setting<F, C> {
    /// The standard rules from the `i`th on.
    pub open spec fn check_steps<E>(
        self,
        checks: Seq<CheckV>,
        value: Option<ValV<E>>,
        i: int,
    ) -> Seq<Out<E>>
        decreases checks.len() - i,
    {
        if i < 0 || i >= checks.len() {
            Seq::empty()
        } else {
            seq![self.check(checks[i], value)] + self.check_steps(checks, value, i + 1)
        }
    }

    /// The standard rules of a value; that of a wrapper message is read
    /// first.
    pub open spec fn value_steps<E>(
        self,
        checks: Seq<CheckV>,
        wrapper: Option<FieldV>,
        value: Option<ValV<E>>,
    ) -> Seq<Out<E>> {
        match wrapper {
            None => self.check_steps(checks, value, 0),
            Some(field) => if value is Some && value->Some_0 is Message {
                match field_of(value->Some_0, field) {
                    Err(e) => failure(e),
                    Ok(unboxed) => self.check_steps(checks, unboxed, 0),
                }
            } else {
                self.check_steps(checks, None, 0)
            },
        }
    }

    /// The CEL expressions from the `i`th on.
    pub open spec fn program_steps<E>(
        self,
        programs: ProgramSetV<C::Program>,
        this: ThisV<C::Frame>,
        i: int,
    ) -> Seq<Out<E>>
        decreases programs.rules.len() - i,
    {
        if i < 0 || i >= programs.rules.len() {
            Seq::empty()
        } else {
            seq![self.program(programs, this, i)] + self.program_steps(programs, this, i + 1)
        }
    }

    /// Custom rules, once `this` is bound.
    pub open spec fn bound_steps<E>(
        self,
        programs: ProgramSetV<C::Program>,
        this: Result<ThisV<C::Frame>, ErrorV<E>>,
    ) -> Seq<Out<E>> {
        match this {
            Err(e) => failure(e),
            Ok(this) => self.program_steps(programs, this, 0),
        }
    }

    /// A message, bound to `this`.
    pub open spec fn message_this<E>(self, name: Seq<char>, m: ValV<E>) -> Result<
        ThisV<C::Frame>,
        ErrorV<E>,
    > {
        match frame_of(self.engine, name, m) {
            Err(e) => Err(e),
            Ok(frame) => Ok(ThisV::Message(frame)),
        }
    }

    /// What `this` is bound to for the CEL of an element or map value.
    pub open spec fn item_this<E>(
        self,
        rules: ValueRulesV<C::Program>,
        field: FieldV,
        value: ValV<E>,
    ) -> Result<ThisV<C::Frame>, ErrorV<E>> {
        match rules.scalar {
            Some(kind) => Ok(ThisV::Scalar(value_scalar(Some(value), kind))),
            None => if value is Message {
                match field.message_type {
                    None => Err(ErrorV::Unexpected(field.name + " does not hold messages"@)),
                    Some(name) => self.message_this(name, value),
                }
            } else {
                Err(ErrorV::Unexpected(field.name + " holds no message to bind this to"@))
            },
        }
    }

    /// The rules of one element or map value.
    pub open spec fn item_steps<E>(
        self,
        rules: ValueRulesV<C::Program>,
        field: FieldV,
        value: ValV<E>,
    ) -> Seq<Out<E>> {
        self.value_steps(rules.checks, rules.wrapper, Some(value)) + match rules.programs {
            None => Seq::empty(),
            Some(programs) => self.bound_steps(programs, self.item_this(rules, field, value)),
        }
    }

    /// The elements of a repeated field from the `i`th of `n` on.
    pub open spec fn items_steps<E>(
        self,
        field: FieldEvaluatorV<C::Program>,
        items: ItemEvaluatorV<C::Program>,
        l: ValV<E>,
        i: int,
        n: int,
    ) -> Seq<Out<E>>
        decreases n - i,
    {
        if i >= n {
            Seq::empty()
        } else {
            self.list_item_steps(field, items, l, i) + self.items_steps(field, items, l, i + 1, n)
        }
    }

    /// One element of a repeated field.
    pub open spec fn list_item_steps<E>(
        self,
        field: FieldEvaluatorV<C::Program>,
        items: ItemEvaluatorV<C::Program>,
        l: ValV<E>,
        i: int,
    ) -> Seq<Out<E>> {
        match item_of(l, i) {
            Err(e) => failure(e),
            Ok(None) => Seq::empty(),
            Ok(Some(value)) => if items.rules.ignore_empty && zero_item(value) {
                Seq::empty()
            } else {
                self.item_steps(items.rules, field.field, value) + seq![
                    self.any_of_value(None, Some(value), items.rules.any),
                ]
            },
        }
    }

    /// The rules of a map key.
    pub open spec fn key_steps<E>(
        self,
        keys: Option<ItemEvaluatorV<C::Program>>,
        key: KeyV,
    ) -> Seq<Out<E>> {
        match keys {
            None => Seq::empty(),
            Some(keys) => if keys.rules.ignore_empty && zero_key(key) {
                Seq::empty()
            } else {
                self.check_steps(keys.rules.checks, Some(key_value::<E>(key)), 0)
                    + match keys.rules.programs {
                    None => Seq::empty(),
                    Some(programs) => self.program_steps(
                        programs,
                        ThisV::Scalar(key_scalar(key)),
                        0,
                    ),
                }
            },
        }
    }

    /// The rules of one map entry.
    pub open spec fn entry_steps<E>(
        self,
        field: FieldEvaluatorV<C::Program>,
        key: KeyV,
        value: ValV<E>,
    ) -> Seq<Out<E>> {
        self.key_steps(field.keys, key) + match field.values {
            None => Seq::empty(),
            Some(values) => if values.rules.ignore_empty && zero_item(value) {
                Seq::empty()
            } else {
                self.item_steps(values.rules, field.field, value)
            },
        }
    }

    /// The entries of a map from the `i`th on.
    pub open spec fn entries_steps<E>(
        self,
        field: FieldEvaluatorV<C::Program>,
        p: ValV<E>,
        i: int,
    ) -> Seq<Out<E>>
        decreases usize::MAX - i,
    {
        if i >= usize::MAX {
            Seq::empty()
        } else {
            match entry_of(p, i) {
                Err(e) => failure(e),
                Ok(None) => Seq::empty(),
                Ok(Some((key, value))) => self.entry_steps(field, key, value)
                    + self.entries_steps(field, p, i + 1),
            }
        }
    }

    /// The elements of a repeated field.
    pub open spec fn list_steps<E>(
        self,
        field: FieldEvaluatorV<C::Program>,
        value: Option<ValV<E>>,
    ) -> Seq<Out<E>> {
        match (field.items, value) {
            (Some(items), Some(list)) => if list is List {
                match len_of(list) {
                    Err(e) => failure(e),
                    Ok(n) => self.items_steps(field, items, list, 0, n as int),
                }
            } else {
                Seq::empty()
            },
            _ => Seq::empty(),
        }
    }

    /// The entries of a map field.
    pub open spec fn map_steps<E>(
        self,
        field: FieldEvaluatorV<C::Program>,
        value: Option<ValV<E>>,
    ) -> Seq<Out<E>> {
        if (field.keys is Some || field.values is Some) && value is Some
            && value->Some_0 is Mapping {
            self.entries_steps(field, value->Some_0, 0)
        } else {
            Seq::empty()
        }
    }

    /// The rules of a field that is there.
    pub open spec fn present_steps<E>(
        self,
        m: ValV<E>,
        name: Seq<char>,
        field: FieldEvaluatorV<C::Program>,
        value: Option<ValV<E>>,
    ) -> Seq<Out<E>> {
        let cel = match field.rules.programs {
            None => Seq::empty(),
            Some(programs) => self.bound_steps(programs, self.field_this(m, name, field, value)),
        };
        (self.value_steps(field.rules.checks, field.rules.wrapper, value) + cel) + (seq![
            self.defined_only(field, value),
        ] + (self.list_steps(field, value) + self.map_steps(field, value)))
    }

    /// The rules of one field. Its value is read first, and whether it is
    /// there comes next.
    pub open spec fn field_steps<E>(
        self,
        m: ValV<E>,
        name: Seq<char>,
        field: FieldEvaluatorV<C::Program>,
    ) -> Seq<Out<E>> {
        match field_of(m, field.field) {
            Err(e) => failure(e),
            Ok(value) => match self.absent(m, field, value) {
                Some(out) => seq![out],
                None => {
                    let any = if field.shape is Singular {
                        seq![self.any_of_value(Some(field.element), value, field.rules.any)]
                    } else {
                        Seq::empty()
                    };
                    any + self.present_steps(m, name, field, value)
                },
            },
        }
    }

    /// The fields from the `i`th on.
    pub open spec fn fields_steps<E>(
        self,
        m: ValV<E>,
        name: Seq<char>,
        fields: Seq<FieldEvaluatorV<C::Program>>,
        i: int,
    ) -> Seq<Out<E>>
        decreases fields.len() - i,
    {
        if i < 0 || i >= fields.len() {
            Seq::empty()
        } else {
            self.field_steps(m, name, fields[i]) + self.fields_steps(m, name, fields, i + 1)
        }
    }

    /// The message oneofs from the `i`th on.
    pub open spec fn message_oneof_steps<E>(
        self,
        m: ValV<E>,
        oneofs: Seq<MessageOneofV>,
        i: int,
    ) -> Seq<Out<E>>
        decreases oneofs.len() - i,
    {
        if i < 0 || i >= oneofs.len() {
            Seq::empty()
        } else {
            seq![self.message_oneof(m, oneofs[i])] + self.message_oneof_steps(m, oneofs, i + 1)
        }
    }

    /// The required oneofs from the `i`th on.
    pub open spec fn oneof_steps<E>(
        self,
        m: ValV<E>,
        oneofs: Seq<OneofRequiredV>,
        i: int,
    ) -> Seq<Out<E>>
        decreases oneofs.len() - i,
    {
        if i < 0 || i >= oneofs.len() {
            Seq::empty()
        } else {
            seq![self.oneof(m, oneofs[i])] + self.oneof_steps(m, oneofs, i + 1)
        }
    }

    /// The steps of a walk over a message of type `name`, and the messages in
    /// it.
    pub open spec fn message_steps<E>(
        self,
        m: ValV<E>,
        name: Seq<char>,
        evaluator: MessageEvaluatorV<C::Program>,
    ) -> Seq<Out<E>>
        decreases m, 2nat, 0int,
    {
        let cel = match evaluator.cel {
            None => Seq::empty(),
            Some(programs) => self.bound_steps(programs, self.message_this(name, m)),
        };
        cel + (self.message_oneof_steps(m, evaluator.message_oneofs, 0) + (self.fields_steps(
            m,
            name,
            evaluator.fields,
            0,
        ) + (self.oneof_steps(m, evaluator.oneofs, 0) + self.nested_steps(
            m,
            evaluator.nested,
            0,
        ))))
    }

    /// The messages of a list from the `i`th of `n` on.
    pub open spec fn nested_items_steps<E>(
        self,
        l: ValV<E>,
        name: Seq<char>,
        evaluator: MessageEvaluatorV<C::Program>,
        i: int,
        n: int,
    ) -> Seq<Out<E>>
        decreases l, 1nat, n - i,
    {
        if i >= n || !(l is List) {
            Seq::empty()
        } else {
            (match item_of(l, i) {
                Err(e) => failure(e),
                Ok(None) => Seq::empty(),
                Ok(Some(sub)) => if sub is Message {
                    proof {
                        lemma_item_smaller(l, i);
                    }
                    self.message_steps(sub, name, evaluator)
                } else {
                    Seq::empty()
                },
            }) + self.nested_items_steps(l, name, evaluator, i + 1, n)
        }
    }

    /// The messages of a map from the `i`th entry on.
    pub open spec fn nested_entries_steps<E>(
        self,
        p: ValV<E>,
        name: Seq<char>,
        evaluator: MessageEvaluatorV<C::Program>,
        i: int,
    ) -> Seq<Out<E>>
        decreases p, 1nat, usize::MAX - i,
    {
        if i >= usize::MAX || !(p is Mapping) {
            Seq::empty()
        } else {
            match entry_of(p, i) {
                Err(e) => failure(e),
                Ok(None) => Seq::empty(),
                Ok(Some((_, sub))) => (if sub is Message {
                    proof {
                        lemma_value_smaller(p, i);
                    }
                    self.message_steps(sub, name, evaluator)
                } else {
                    Seq::empty()
                }) + self.nested_entries_steps(p, name, evaluator, i + 1),
            }
        }
    }

    /// The messages of one message-typed field.
    pub open spec fn nested_field_steps<E>(self, m: ValV<E>, nested: NestedV) -> Seq<Out<E>>
        decreases m, 0nat, 0int,
    {
        let there = if nested.shape is Singular {
            presence_of(m, nested.field)
        } else {
            Ok(true)
        };
        match there {
            Err(e) => failure(e),
            Ok(false) => Seq::empty(),
            Ok(true) => match field_of(m, nested.field) {
                Err(e) => failure(e),
                Ok(None) => Seq::empty(),
                Ok(Some(value)) => if !self.evaluators.dom().contains(nested.message) {
                    failure(
                        ErrorV::Unexpected(
                            "rules not loaded for message: "@ + self.type_at(nested.message),
                        ),
                    )
                } else {
                    match nested.field.message_type {
                        None => failure(
                            ErrorV::Unexpected(nested.field.name + " does not hold messages"@),
                        ),
                        Some(name) => {
                            let evaluator = self.evaluators[nested.message];
                            if !(m is Message) {
                                Seq::empty()
                            } else {
                                proof {
                                    lemma_get_smaller(m, nested.field);
                                }
                                match nested.shape {
                                    Shape::Singular => if value is Message {
                                        self.message_steps(value, name, evaluator)
                                    } else {
                                        Seq::empty()
                                    },
                                    Shape::List => if value is List {
                                        match len_of(value) {
                                            Err(e) => failure(e),
                                            Ok(n) => self.nested_items_steps(
                                                value,
                                                name,
                                                evaluator,
                                                0,
                                                n as int,
                                            ),
                                        }
                                    } else {
                                        Seq::empty()
                                    },
                                    Shape::Mapping { .. } => if value is Mapping {
                                        self.nested_entries_steps(value, name, evaluator, 0)
                                    } else {
                                        Seq::empty()
                                    },
                                }
                            }
                        },
                    }
                },
            },
        }
    }

    /// The messages of the message-typed fields from the `i`th on.
    pub open spec fn nested_steps<E>(self, m: ValV<E>, nested: Seq<NestedV>, i: int) -> Seq<Out<E>>
        decreases m, 1nat, nested.len() - i,
    {
        if i < 0 || i >= nested.len() {
            Seq::empty()
        } else {
            self.nested_field_steps(m, nested[i]) + self.nested_steps(m, nested, i + 1)
        }
    }
}

/// Whether steps amount to a part of the walk: they end with the same error,
/// or find as many violations.
spec fn amounts<E>(fast: bool, out: Out<E>, steps: Seq<Out<E>>) -> bool {
    match (out, taken(fast, steps)) {
        (Ok(a), Ok(b)) => a.len() == b.len(),
        (Err(d), Err(e)) => d == e,
        _ => false,
    }
}

proof fn lemma_taken_joined<E>(fast: bool, a: Seq<Out<E>>, b: Seq<Out<E>>)
    ensures
        taken(fast, a + b) == chain(fast, taken(fast, a), taken(fast, b)),
    decreases a.len(),
{
    if a.len() == 0 {
        assert(a + b =~= b);
        if let Ok(found) = taken(fast, b) {
            assert(Seq::<ViolationV>::empty() + found =~= found);
        }
    } else {
        let rest = a.drop_first();
        lemma_taken_joined(fast, rest, b);
        assert((a + b).drop_first() =~= rest + b);
        assert((a + b)[0] == a[0]);
        if let (Ok(x), Ok(y), Ok(z)) = (a[0], taken(fast, rest), taken(fast, b)) {
            assert(x + (y + z) =~= x + y + z);
        }
    }
}

/// The steps of two parts amount to the one part and then the other.
proof fn lemma_joined<E>(
    fast: bool,
    first: Out<E>,
    first_steps: Seq<Out<E>>,
    second: Out<E>,
    second_steps: Seq<Out<E>>,
)
    requires
        amounts(fast, first, first_steps),
        amounts(fast, second, second_steps),
    ensures
        amounts(fast, chain(fast, first, second), first_steps + second_steps),
{
    lemma_taken_joined(fast, first_steps, second_steps);
}

/// A part that is one step amounts to it.
proof fn lemma_single<E>(fast: bool, out: Out<E>)
    ensures
        amounts(fast, out, seq![out]),
{
    let steps = seq![out];
    assert(steps.drop_first() =~= Seq::empty());
    assert(taken(fast, steps.drop_first()) == nothing::<E>());
    if let Ok(found) = out {
        assert(found + Seq::<ViolationV>::empty() =~= found);
    }
}

proof fn lemma_check_steps<F: Formats, C: Engine, E>(
    s: Setting<F, C>,
    checks: Seq<CheckV>,
    value: Option<ValV<E>>,
    i: int,
)
    ensures
        amounts(s.fast, s.checks_from(checks, value, i), s.check_steps(checks, value, i)),
    decreases checks.len() - i,
{
    if 0 <= i < checks.len() {
        lemma_check_steps(s, checks, value, i + 1);
        let out = s.check(checks[i], value);
        lemma_single(s.fast, out);
        lemma_joined(
            s.fast,
            out,
            seq![out],
            s.checks_from(checks, value, i + 1),
            s.check_steps(checks, value, i + 1),
        );
    }
}

proof fn lemma_value_steps<F: Formats, C: Engine, E>(
    s: Setting<F, C>,
    checks: Seq<CheckV>,
    wrapper: Option<FieldV>,
    value: Option<ValV<E>>,
)
    ensures
        amounts(s.fast, s.checks(checks, wrapper, value), s.value_steps(checks, wrapper, value)),
{
    lemma_check_steps(s, checks, value, 0);
    lemma_check_steps::<F, C, E>(s, checks, None, 0);
    if wrapper is Some && value is Some && value->Some_0 is Message {
        match field_of(value->Some_0, wrapper->Some_0) {
            Err(e) => lemma_single::<E>(s.fast, Err(e)),
            Ok(unboxed) => lemma_check_steps(s, checks, unboxed, 0),
        }
    }
}

proof fn lemma_program_steps<F: Formats, C: Engine, E>(
    s: Setting<F, C>,
    programs: ProgramSetV<C::Program>,
    this: ThisV<C::Frame>,
    i: int,
)
    ensures
        amounts::<E>(
            s.fast,
            s.programs_from(programs, this, i),
            s.program_steps(programs, this, i),
        ),
    decreases programs.rules.len() - i,
{
    if 0 <= i < programs.rules.len() {
        lemma_program_steps::<F, C, E>(s, programs, this, i + 1);
        let out: Out<E> = s.program(programs, this, i);
        lemma_single(s.fast, out);
        lemma_joined(
            s.fast,
            out,
            seq![out],
            s.programs_from(programs, this, i + 1),
            s.program_steps(programs, this, i + 1),
        );
    }
}

proof fn lemma_bound_steps<F: Formats, C: Engine, E>(
    s: Setting<F, C>,
    programs: ProgramSetV<C::Program>,
    this: Result<ThisV<C::Frame>, ErrorV<E>>,
)
    ensures
        amounts(
            s.fast,
            match this {
                Err(e) => Err(e),
                Ok(this) => s.programs_from(programs, this, 0),
            },
            s.bound_steps(programs, this),
        ),
{
    match this {
        Err(e) => lemma_single::<E>(s.fast, Err(e)),
        Ok(this) => lemma_program_steps::<F, C, E>(s, programs, this, 0),
    }
}

proof fn lemma_item_steps<F: Formats, C: Engine, E>(
    s: Setting<F, C>,
    rules: ValueRulesV<C::Program>,
    field: FieldV,
    value: ValV<E>,
)
    ensures
        amounts(s.fast, s.item(rules, field, value), s.item_steps(rules, field, value)),
{
    lemma_value_steps(s, rules.checks, rules.wrapper, Some(value));
    let cel = match rules.programs {
        None => Seq::empty(),
        Some(programs) => s.bound_steps(programs, s.item_this(rules, field, value)),
    };
    if let Some(programs) = rules.programs {
        lemma_bound_steps(s, programs, s.item_this(rules, field, value));
    }
    assert(amounts(s.fast, s.item_cel(rules, field, value), cel));
    lemma_joined(
        s.fast,
        s.checks(rules.checks, rules.wrapper, Some(value)),
        s.value_steps(rules.checks, rules.wrapper, Some(value)),
        s.item_cel(rules, field, value),
        cel,
    );
}

proof fn lemma_items_steps<F: Formats, C: Engine, E>(
    s: Setting<F, C>,
    field: FieldEvaluatorV<C::Program>,
    items: ItemEvaluatorV<C::Program>,
    l: ValV<E>,
    i: int,
    n: int,
)
    ensures
        amounts(
            s.fast,
            s.items_from(field, items, l, i, n),
            s.items_steps(field, items, l, i, n),
        ),
    decreases n - i,
{
    if i < n {
        lemma_items_steps(s, field, items, l, i + 1, n);
        match item_of(l, i) {
            Err(e) => lemma_single::<E>(s.fast, Err(e)),
            Ok(None) => {},
            Ok(Some(value)) => {
                let any = s.any_of_value(None, Some(value), items.rules.any);
                lemma_item_steps(s, items.rules, field.field, value);
                lemma_single(s.fast, any);
                lemma_joined(
                    s.fast,
                    s.item(items.rules, field.field, value),
                    s.item_steps(items.rules, field.field, value),
                    any,
                    seq![any],
                );
            },
        }
        assert(amounts(
            s.fast,
            s.list_item(field, items, l, i),
            s.list_item_steps(field, items, l, i),
        ));
        lemma_joined(
            s.fast,
            s.list_item(field, items, l, i),
            s.list_item_steps(field, items, l, i),
            s.items_from(field, items, l, i + 1, n),
            s.items_steps(field, items, l, i + 1, n),
        );
    }
}

proof fn lemma_key_steps<F: Formats, C: Engine, E>(
    s: Setting<F, C>,
    keys: Option<ItemEvaluatorV<C::Program>>,
    key: KeyV,
)
    ensures
        amounts::<E>(s.fast, s.entry_key(keys, key), s.key_steps(keys, key)),
{
    if let Some(keys) = keys {
        let value = Some(key_value::<E>(key));
        let this = ThisV::Scalar(key_scalar(key));
        lemma_check_steps(s, keys.rules.checks, value, 0);
        let cel: Out<E> = match keys.rules.programs {
            None => nothing(),
            Some(programs) => s.programs_from(programs, this, 0),
        };
        let cel_steps = match keys.rules.programs {
            None => Seq::empty(),
            Some(programs) => s.program_steps(programs, this, 0),
        };
        if let Some(programs) = keys.rules.programs {
            lemma_program_steps::<F, C, E>(s, programs, this, 0);
        }
        lemma_joined(
            s.fast,
            s.checks_from(keys.rules.checks, value, 0),
            s.check_steps(keys.rules.checks, value, 0),
            cel,
            cel_steps,
        );
    }
}

proof fn lemma_entry_steps<F: Formats, C: Engine, E>(
    s: Setting<F, C>,
    field: FieldEvaluatorV<C::Program>,
    key: KeyV,
    value: ValV<E>,
)
    ensures
        amounts(s.fast, s.entry(field, key, value), s.entry_steps(field, key, value)),
{
    lemma_key_steps::<F, C, E>(s, field.keys, key);
    let of_value = match field.values {
        None => Seq::empty(),
        Some(values) => if values.rules.ignore_empty && zero_item(value) {
            Seq::empty()
        } else {
            s.item_steps(values.rules, field.field, value)
        },
    };
    if let Some(values) = field.values {
        lemma_item_steps(s, values.rules, field.field, value);
    }
    assert(amounts(s.fast, s.entry_value(field.values, field.field, value), of_value));
    lemma_joined(
        s.fast,
        s.entry_key(field.keys, key),
        s.key_steps(field.keys, key),
        s.entry_value(field.values, field.field, value),
        of_value,
    );
}

proof fn lemma_entries_steps<F: Formats, C: Engine, E>(
    s: Setting<F, C>,
    field: FieldEvaluatorV<C::Program>,
    p: ValV<E>,
    i: int,
)
    ensures
        amounts(s.fast, s.entries_from(field, p, i), s.entries_steps(field, p, i)),
    decreases usize::MAX - i,
{
    if i < usize::MAX {
        lemma_entries_steps(s, field, p, i + 1);
        match entry_of(p, i) {
            Err(e) => lemma_single::<E>(s.fast, Err(e)),
            Ok(None) => {},
            Ok(Some((key, value))) => {
                lemma_entry_steps(s, field, key, value);
                lemma_joined(
                    s.fast,
                    s.entry(field, key, value),
                    s.entry_steps(field, key, value),
                    s.entries_from(field, p, i + 1),
                    s.entries_steps(field, p, i + 1),
                );
            },
        }
    }
}

proof fn lemma_present_steps<F: Formats, C: Engine, E>(
    s: Setting<F, C>,
    m: ValV<E>,
    name: Seq<char>,
    field: FieldEvaluatorV<C::Program>,
    value: Option<ValV<E>>,
)
    ensures
        amounts(
            s.fast,
            s.present_field(m, name, field, value),
            s.present_steps(m, name, field, value),
        ),
{
    lemma_value_steps(s, field.rules.checks, field.rules.wrapper, value);
    let this = s.field_this(m, name, field, value);
    let cel = match field.rules.programs {
        None => Seq::empty(),
        Some(programs) => s.bound_steps(programs, this),
    };
    if let Some(programs) = field.rules.programs {
        lemma_bound_steps(s, programs, this);
    }
    assert(amounts(s.fast, s.field_cel(m, name, field, value), cel));
    let rules_steps = s.value_steps(field.rules.checks, field.rules.wrapper, value) + cel;
    lemma_joined(
        s.fast,
        s.checks(field.rules.checks, field.rules.wrapper, value),
        s.value_steps(field.rules.checks, field.rules.wrapper, value),
        s.field_cel(m, name, field, value),
        cel,
    );
    assert(amounts(s.fast, s.field_rules(m, name, field, value), rules_steps));
    let defined = s.defined_only(field, value);
    lemma_single(s.fast, defined);
    if let (Some(items), Some(list)) = (field.items, value) {
        if list is List {
            match len_of(list) {
                Err(e) => lemma_single::<E>(s.fast, Err(e)),
                Ok(n) => lemma_items_steps(s, field, items, list, 0, n as int),
            }
        }
    }
    assert(amounts(s.fast, s.field_list(field, value), s.list_steps(field, value)));
    if value is Some && value->Some_0 is Mapping {
        lemma_entries_steps(s, field, value->Some_0, 0);
    }
    assert(amounts(s.fast, s.field_entries(field, value), s.map_steps(field, value)));
    lemma_joined(
        s.fast,
        s.field_list(field, value),
        s.list_steps(field, value),
        s.field_entries(field, value),
        s.map_steps(field, value),
    );
    let items = chain(s.fast, s.field_list(field, value), s.field_entries(field, value));
    let items_steps = s.list_steps(field, value) + s.map_steps(field, value);
    lemma_joined(s.fast, defined, seq![defined], items, items_steps);
    lemma_joined(
        s.fast,
        s.field_rules(m, name, field, value),
        rules_steps,
        chain(s.fast, defined, items),
        seq![defined] + items_steps,
    );
}

proof fn lemma_field_steps<F: Formats, C: Engine, E>(
    s: Setting<F, C>,
    m: ValV<E>,
    name: Seq<char>,
    field: FieldEvaluatorV<C::Program>,
)
    ensures
        amounts(s.fast, s.field(m, name, field), s.field_steps(m, name, field)),
{
    match field_of(m, field.field) {
        Err(e) => lemma_single::<E>(s.fast, Err(e)),
        Ok(value) => match s.absent(m, field, value) {
            Some(out) => lemma_single(s.fast, out),
            None => {
                let found = s.any_of_value(Some(field.element), value, field.rules.any);
                let any = if field.shape is Singular {
                    found
                } else {
                    nothing()
                };
                let any_steps = if field.shape is Singular {
                    seq![found]
                } else {
                    Seq::empty()
                };
                lemma_single(s.fast, found);
                lemma_present_steps(s, m, name, field, value);
                lemma_joined(
                    s.fast,
                    any,
                    any_steps,
                    s.present_field(m, name, field, value),
                    s.present_steps(m, name, field, value),
                );
            },
        },
    }
}

proof fn lemma_fields_steps<F: Formats, C: Engine, E>(
    s: Setting<F, C>,
    m: ValV<E>,
    name: Seq<char>,
    fields: Seq<FieldEvaluatorV<C::Program>>,
    i: int,
)
    ensures
        amounts(
            s.fast,
            s.fields_from(m, name, fields, i),
            s.fields_steps(m, name, fields, i),
        ),
    decreases fields.len() - i,
{
    if 0 <= i < fields.len() {
        lemma_field_steps(s, m, name, fields[i]);
        lemma_fields_steps(s, m, name, fields, i + 1);
        lemma_joined(
            s.fast,
            s.field(m, name, fields[i]),
            s.field_steps(m, name, fields[i]),
            s.fields_from(m, name, fields, i + 1),
            s.fields_steps(m, name, fields, i + 1),
        );
    }
}

proof fn lemma_message_oneof_steps<F: Formats, C: Engine, E>(
    s: Setting<F, C>,
    m: ValV<E>,
    oneofs: Seq<MessageOneofV>,
    i: int,
)
    ensures
        amounts(s.fast, s.message_oneofs_from(m, oneofs, i), s.message_oneof_steps(m, oneofs, i)),
    decreases oneofs.len() - i,
{
    if 0 <= i < oneofs.len() {
        lemma_message_oneof_steps(s, m, oneofs, i + 1);
        let out = s.message_oneof(m, oneofs[i]);
        lemma_single(s.fast, out);
        lemma_joined(
            s.fast,
            out,
            seq![out],
            s.message_oneofs_from(m, oneofs, i + 1),
            s.message_oneof_steps(m, oneofs, i + 1),
        );
    }
}

proof fn lemma_oneof_steps<F: Formats, C: Engine, E>(
    s: Setting<F, C>,
    m: ValV<E>,
    oneofs: Seq<OneofRequiredV>,
    i: int,
)
    ensures
        amounts(s.fast, s.oneofs_from(m, oneofs, i), s.oneof_steps(m, oneofs, i)),
    decreases oneofs.len() - i,
{
    if 0 <= i < oneofs.len() {
        lemma_oneof_steps(s, m, oneofs, i + 1);
        let out = s.oneof(m, oneofs[i]);
        lemma_single(s.fast, out);
        lemma_joined(
            s.fast,
            out,
            seq![out],
            s.oneofs_from(m, oneofs, i + 1),
            s.oneof_steps(m, oneofs, i + 1),
        );
    }
}

proof fn lemma_message_steps<F: Formats, C: Engine, E>(
    s: Setting<F, C>,
    m: ValV<E>,
    name: Seq<char>,
    evaluator: MessageEvaluatorV<C::Program>,
)
    ensures
        amounts(s.fast, s.message(m, name, evaluator), s.message_steps(m, name, evaluator)),
    decreases m, 2nat, 0int,
{
    let this = s.message_this(name, m);
    let cel = match evaluator.cel {
        None => Seq::empty(),
        Some(programs) => s.bound_steps(programs, this),
    };
    if let Some(programs) = evaluator.cel {
        lemma_bound_steps(s, programs, this);
    }
    assert(amounts(s.fast, s.message_cel(m, name, evaluator.cel), cel));
    lemma_message_oneof_steps(s, m, evaluator.message_oneofs, 0);
    lemma_fields_steps(s, m, name, evaluator.fields, 0);
    lemma_oneof_steps(s, m, evaluator.oneofs, 0);
    lemma_nested_steps(s, m, evaluator.nested, 0);
    let oneofs = s.oneofs_from(m, evaluator.oneofs, 0);
    let oneofs_steps = s.oneof_steps(m, evaluator.oneofs, 0);
    let nested = s.nested_from(m, evaluator.nested, 0);
    let nested_steps = s.nested_steps(m, evaluator.nested, 0);
    lemma_joined(s.fast, oneofs, oneofs_steps, nested, nested_steps);
    let tail = chain(s.fast, oneofs, nested);
    let tail_steps = oneofs_steps + nested_steps;
    let fields = s.fields_from(m, name, evaluator.fields, 0);
    let fields_steps = s.fields_steps(m, name, evaluator.fields, 0);
    lemma_joined(s.fast, fields, fields_steps, tail, tail_steps);
    let tail = chain(s.fast, fields, tail);
    let tail_steps = fields_steps + tail_steps;
    let message_oneofs = s.message_oneofs_from(m, evaluator.message_oneofs, 0);
    let message_oneofs_steps = s.message_oneof_steps(m, evaluator.message_oneofs, 0);
    lemma_joined(s.fast, message_oneofs, message_oneofs_steps, tail, tail_steps);
    lemma_joined(
        s.fast,
        s.message_cel(m, name, evaluator.cel),
        cel,
        chain(s.fast, message_oneofs, tail),
        message_oneofs_steps + tail_steps,
    );
}

proof fn lemma_nested_steps<F: Formats, C: Engine, E>(
    s: Setting<F, C>,
    m: ValV<E>,
    nested: Seq<NestedV>,
    i: int,
)
    ensures
        amounts(s.fast, s.nested_from(m, nested, i), s.nested_steps(m, nested, i)),
    decreases m, 1nat, nested.len() - i,
{
    if 0 <= i < nested.len() {
        lemma_nested_steps(s, m, nested, i + 1);
        lemma_nested_field_steps(s, m, nested[i]);
        lemma_joined(
            s.fast,
            s.nested_field(m, nested[i]),
            s.nested_field_steps(m, nested[i]),
            s.nested_from(m, nested, i + 1),
            s.nested_steps(m, nested, i + 1),
        );
    }
}

proof fn lemma_nested_field_steps<F: Formats, C: Engine, E>(
    s: Setting<F, C>,
    m: ValV<E>,
    nested: NestedV,
)
    ensures
        amounts(s.fast, s.nested_field(m, nested), s.nested_field_steps(m, nested)),
    decreases m, 0nat, 0int,
{
    let out = s.nested_field(m, nested);
    lemma_single(s.fast, out);
    if m is Message {
        if let Ok(Some(value)) = field_of(m, nested.field) {
            lemma_get_smaller(m, nested.field);
            if s.evaluators.dom().contains(nested.message) {
                let evaluator = s.evaluators[nested.message];
                let element = nested.element;
                if let Some(name) = nested.field.message_type {
                    if value is Message {
                        lemma_message_steps(s, value, name, evaluator);
                    }
                    if value is List {
                        if let Ok(n) = len_of(value) {
                            lemma_nested_items_steps(
                                s,
                                value,
                                name,
                                evaluator,
                                element,
                                0,
                                n as int,
                            );
                        }
                    }
                    if value is Mapping {
                        lemma_nested_entries_steps(s, value, name, evaluator, element, 0);
                    }
                }
            }
        }
    }
}

proof fn lemma_nested_items_steps<F: Formats, C: Engine, E>(
    s: Setting<F, C>,
    l: ValV<E>,
    name: Seq<char>,
    evaluator: MessageEvaluatorV<C::Program>,
    element: FieldPathElementV,
    i: int,
    n: int,
)
    ensures
        amounts(
            s.fast,
            s.nested_items_from(l, name, evaluator, element, i, n),
            s.nested_items_steps(l, name, evaluator, i, n),
        ),
    decreases l, 1nat, n - i,
{
    if i < n && l is List {
        lemma_nested_items_steps(s, l, name, evaluator, element, i + 1, n);
        lemma_item_smaller(l, i);
        let rest = s.nested_items_from(l, name, evaluator, element, i + 1, n);
        let rest_steps = s.nested_items_steps(l, name, evaluator, i + 1, n);
        match item_of(l, i) {
            Err(e) => {
                lemma_single::<E>(s.fast, Err(e));
                lemma_joined(s.fast, Err(e), failure(e), rest, rest_steps);
            },
            Ok(Some(sub)) => {
                if sub is Message {
                    lemma_message_steps(s, sub, name, evaluator);
                    let out: Out<E> = match s.message(sub, name, evaluator) {
                        Err(e) => Err(e),
                        Ok(found) => Ok(
                            on_field(found, subscripted(element, SubscriptV::Index(i as u64))),
                        ),
                    };
                    let steps = s.message_steps(sub, name, evaluator);
                    lemma_joined(s.fast, out, steps, rest, rest_steps);
                } else {
                    lemma_joined(s.fast, nothing(), Seq::empty(), rest, rest_steps);
                }
            },
            Ok(None) => lemma_joined(s.fast, nothing(), Seq::empty(), rest, rest_steps),
        }
    }
}

proof fn lemma_nested_entries_steps<F: Formats, C: Engine, E>(
    s: Setting<F, C>,
    p: ValV<E>,
    name: Seq<char>,
    evaluator: MessageEvaluatorV<C::Program>,
    element: FieldPathElementV,
    i: int,
)
    ensures
        amounts(
            s.fast,
            s.nested_entries_from(p, name, evaluator, element, i),
            s.nested_entries_steps(p, name, evaluator, i),
        ),
    decreases p, 1nat, usize::MAX - i,
{
    if i < usize::MAX && p is Mapping {
        lemma_nested_entries_steps(s, p, name, evaluator, element, i + 1);
        lemma_value_smaller(p, i);
        let rest = s.nested_entries_from(p, name, evaluator, element, i + 1);
        let rest_steps = s.nested_entries_steps(p, name, evaluator, i + 1);
        let out = s.nested_entry(p, name, evaluator, element, i);
        match entry_of(p, i) {
            Err(e) => lemma_single::<E>(s.fast, Err(e)),
            Ok(Some((_, sub))) => {
                if sub is Message {
                    lemma_message_steps(s, sub, name, evaluator);
                    let steps = s.message_steps(sub, name, evaluator);
                    lemma_joined(s.fast, out, steps, rest, rest_steps);
                } else {
                    lemma_joined(s.fast, out, Seq::empty(), rest, rest_steps);
                }
            },
            Ok(None) => {},
        }
    }
}

/// Steps end with the error of a step exactly when that is where they end.
proof fn lemma_taken_fails<E>(fast: bool, steps: Seq<Out<E>>, error: ErrorV<E>)
    ensures
        taken(fast, steps) == Err::<Seq<ViolationV>, ErrorV<E>>(error) <==> exists|i: int|
            #[trigger] ends_at(fast, steps, i, error),
    decreases steps.len(),
{
    if steps.len() > 0 {
        let rest = steps.drop_first();
        lemma_taken_fails(fast, rest, error);
        if taken(fast, steps) == Err::<Seq<ViolationV>, ErrorV<E>>(error) {
            if steps[0] is Err {
                assert(ends_at(fast, steps, 0, error));
            } else {
                let i = choose|i: int| #[trigger] ends_at(fast, rest, i, error);
                assert forall|j: int| 0 <= j < i + 1 implies (#[trigger] steps[j] is Ok && (fast
                    ==> steps[j]->Ok_0.len() == 0)) by {
                    if j > 0 {
                        assert(rest[j - 1] == steps[j]);
                    }
                }
                assert(steps[i + 1] == rest[i]);
                assert(ends_at(fast, steps, i + 1, error));
            }
        }
        if exists|i: int| #[trigger] ends_at(fast, steps, i, error) {
            let i = choose|i: int| #[trigger] ends_at(fast, steps, i, error);
            if i > 0 {
                assert(steps[0] is Ok);
                assert forall|j: int| 0 <= j < i - 1 implies (#[trigger] rest[j] is Ok && (fast
                    ==> rest[j]->Ok_0.len() == 0)) by {
                    assert(rest[j] == steps[j + 1]);
                }
                assert(rest[i - 1] == steps[i]);
                assert(ends_at(fast, rest, i - 1, error));
            }
        }
    }
}

/// A validation ends with an error exactly when one of its steps fails that
/// it reaches, and with the error of the first that does: every step before
/// it was taken and, failing fast, found nothing.
pub proof fn law_the_first_failure_ends_validation<F: Formats, C: Engine, E>(
    s: Setting<F, C>,
    m: ValV<E>,
    name: Seq<char>,
    evaluator: MessageEvaluatorV<C::Program>,
    error: ErrorV<E>,
)
    ensures
        s.validated(m, name, evaluator) == Err::<Seq<ViolationV>, ErrorV<E>>(error)
            <==> exists|i: int| #[trigger]
            ends_at(s.fast, s.message_steps(m, name, evaluator), i, error),
{
    lemma_message_steps(s, m, name, evaluator);
    lemma_taken_fails(s.fast, s.message_steps(m, name, evaluator), error);
}

/// A read that fails, of the message or of one in it, ends the validation
/// that reaches it with the runtime's error.
pub proof fn law_read_errors_end_validation<F: Formats, C: Engine, E>(
    s: Setting<F, C>,
    m: ValV<E>,
    name: Seq<char>,
    evaluator: MessageEvaluatorV<C::Program>,
    i: int,
    error: E,
)
    requires
        ends_at(s.fast, s.message_steps(m, name, evaluator), i, ErrorV::Read(error)),
    ensures
        s.validated(m, name, evaluator) == Err::<Seq<ViolationV>, ErrorV<E>>(ErrorV::Read(error)),
{
    law_the_first_failure_ends_validation(s, m, name, evaluator, ErrorV::Read(error));
}

} // verus!
