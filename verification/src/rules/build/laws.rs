//! What holds of all rules that are built.

use crate::cel::{no_cel_message, Engine, NoCel};
use crate::descriptors::{
    map_element, message_index, type_of_kind, FieldDescriptor, MessageDescriptor, SingularKind,
};
use crate::error::ErrorV;
use crate::rules::closure::field_types;
use crate::rules::plan::{
    entry_target, field_target, inserted, member_ignore, messages_ignored, no_cel, place_of,
    shape_of_kind, with_cel_rules, with_expressions, BuiltV, CompiledV, Source, Target,
};
use crate::rules::{FieldEvaluatorV, MessageEvaluatorV, NestedV, Shape};
use crate::validate::rules::{FieldRules, Ignore, Rule, RulesType};
use crate::validate::FieldPathElementV;
use vstd::prelude::*;

verus! {

/// Whether message-typed fields stand in the order of their numbers.
pub open spec fn in_number_order(nested: Seq<NestedV>) -> bool {
    forall|i: int, j: int|
        0 <= i <= j < nested.len() ==> (#[trigger] nested[i]).field.number <= (
        #[trigger] nested[j]).field.number
}

/// Up to its place are the numbers up to a number, and behind it the ones
/// above.
proof fn lemma_place(sorted: Seq<NestedV>, number: u32)
    requires
        in_number_order(sorted),
    ensures
        place_of(sorted, number) <= sorted.len(),
        forall|i: int|
            0 <= i < place_of(sorted, number) ==> (#[trigger] sorted[i]).field.number <= number,
        forall|i: int|
            place_of(sorted, number) <= i < sorted.len() ==> (#[trigger] sorted[i]).field.number
                > number,
    decreases sorted.len(),
{
    if sorted.len() > 0 {
        if sorted.last().field.number <= number {
            assert forall|i: int| 0 <= i < sorted.len() implies (
            #[trigger] sorted[i]).field.number <= number by {
                assert(sorted[sorted.len() - 1].field.number <= number);
            }
        } else {
            let rest = sorted.drop_last();
            assert(in_number_order(rest)) by {
                assert forall|i: int, j: int| 0 <= i <= j < rest.len() implies (
                #[trigger] rest[i]).field.number <= (#[trigger] rest[j]).field.number by {
                    assert(rest[i] == sorted[i] && rest[j] == sorted[j]);
                }
            }
            lemma_place(rest, number);
            assert forall|i: int| 0 <= i < place_of(sorted, number) implies (
            #[trigger] sorted[i]).field.number <= number by {
                assert(rest[i] == sorted[i]);
            }
            assert forall|i: int| place_of(sorted, number) <= i < sorted.len() implies (
            #[trigger] sorted[i]).field.number > number by {
                if i < rest.len() {
                    assert(rest[i] == sorted[i]);
                }
            }
        }
    }
}

/// Adding a message-typed field keeps the order.
proof fn lemma_inserted(sorted: Seq<NestedV>, nested: NestedV)
    requires
        in_number_order(sorted),
    ensures
        in_number_order(inserted(sorted, nested)),
{
    let number = nested.field.number;
    lemma_place(sorted, number);
    let at = place_of(sorted, number) as int;
    let more = inserted(sorted, nested);
    assert forall|i: int, j: int| 0 <= i <= j < more.len() implies (
    #[trigger] more[i]).field.number <= (#[trigger] more[j]).field.number by {
        let a = if i < at {
            i
        } else {
            i - 1
        };
        let b = if j < at {
            j
        } else {
            j - 1
        };
        if i != at && j != at {
            assert(more[i] == sorted[a] && more[j] == sorted[b]);
        } else if i == at && j != at {
            assert(more[j] == sorted[b]);
        } else if i != at && j == at {
            assert(more[i] == sorted[a]);
        }
    }
}

/// The messages of a message type are validated in field-number order,
/// whatever the order of declaration.
pub proof fn law_nested_in_number_order<C: Engine>(
    source: Source<C>,
    message: MessageDescriptor,
    n: nat,
)
    ensures
        in_number_order(source.nested(message, n)),
    decreases n,
{
    if n > 0 {
        law_nested_in_number_order(source, message, (n - 1) as nat);
        let earlier = source.nested(message, (n - 1) as nat);
        let field = message.fields@[n - 1];
        if let Some(index) = message_index(field.kind) {
            if !messages_ignored(source.descriptors.field_rules_of(message, field)) {
                lemma_inserted(earlier, nested_for(source, field, index));
            }
        }
    }
}

/// A field as one whose messages are validated.
pub open spec fn nested_for<C: Engine>(
    source: Source<C>,
    field: FieldDescriptor,
    index: u64,
) -> NestedV {
    NestedV {
        field: source.descriptors.field_at(field),
        element: map_element(field),
        shape: shape_of_kind(field.kind),
        message: index,
    }
}

/// What is added is there, and what was there stays.
proof fn lemma_inserted_contains(sorted: Seq<NestedV>, nested: NestedV)
    requires
        place_of(sorted, nested.field.number) <= sorted.len(),
    ensures
        forall|v: NestedV| #[trigger]
            inserted(sorted, nested).contains(v) <==> sorted.contains(v) || v == nested,
{
    let at = place_of(sorted, nested.field.number) as int;
    let more = inserted(sorted, nested);
    assert forall|v: NestedV| #[trigger] more.contains(v) <==> sorted.contains(v) || v == nested by {
        if sorted.contains(v) {
            let i = choose|i: int| 0 <= i < sorted.len() && sorted[i] == v;
            if i < at {
                assert(more[i] == v);
            } else {
                assert(more[i + 1] == v);
            }
        }
        if v == nested {
            assert(more[at] == v);
        }
        if more.contains(v) {
            let i = choose|i: int| 0 <= i < more.len() && more[i] == v;
            if i < at {
                assert(sorted[i] == v);
            } else if i > at {
                assert(sorted[i - 1] == v);
            }
        }
    }
}

/// The messages that are validated are those of the message-typed fields
/// whose rules do not say to ignore them, no more and no fewer.
pub proof fn law_nested_are_those_not_ignored<C: Engine>(
    source: Source<C>,
    message: MessageDescriptor,
    n: nat,
    v: NestedV,
)
    requires
        n <= message.fields@.len(),
    ensures
        source.nested(message, n).contains(v) <==> exists|i: int|
            0 <= i < n && message_index((#[trigger] message.fields@[i]).kind) is Some
                && !messages_ignored(
                source.descriptors.field_rules_of(message, message.fields@[i]),
            ) && v == nested_for(
                source,
                message.fields@[i],
                message_index(message.fields@[i].kind)->Some_0,
            ),
    decreases n,
{
    if n > 0 {
        law_nested_are_those_not_ignored(source, message, (n - 1) as nat, v);
        law_nested_in_number_order(source, message, (n - 1) as nat);
        let earlier = source.nested(message, (n - 1) as nat);
        let field = message.fields@[n - 1];
        if let Some(index) = message_index(field.kind) {
            if !messages_ignored(source.descriptors.field_rules_of(message, field)) {
                let nested = nested_for(source, field, index);
                lemma_place(earlier, nested.field.number);
                lemma_inserted_contains(earlier, nested);
            }
        }
    }
}

/// Rules told to be ignored always are not built, however wrong they are.
pub proof fn law_always_ignored_rules_are_not_built<C: Engine, E>(
    source: Source<C>,
    field: FieldDescriptor,
    rules: FieldRules,
)
    ensures
        source.field::<E>(field, rules, Some(Ignore::Always)) == Ok::<
            Option<FieldEvaluatorV<C::Program>>,
            ErrorV<E>,
        >(None),
{
}

/// The names of a message oneof that is accepted are distinct, and each is
/// the name of a field.
pub proof fn law_accepted_oneofs_name_distinct_fields<C: Engine, E>(
    source: Source<C>,
    message: MessageDescriptor,
    names: Seq<Seq<char>>,
    n: nat,
)
    requires
        n <= names.len(),
        source.oneof_fields::<E>(message, names, n) is Ok,
    ensures
        source.oneof_fields::<E>(message, names, n)->Ok_0.len() == n,
        forall|i: int, j: int| 0 <= i < j < n ==> #[trigger] names[i] != #[trigger] names[j],
        forall|i: int|
            0 <= i < n ==> crate::rules::plan::field_named(
                message.fields@,
                #[trigger] names[i],
                0,
            ) is Some,
    decreases n,
{
    if n > 0 {
        law_accepted_oneofs_name_distinct_fields::<C, E>(source, message, names, (n - 1) as nat);
        let earlier = names.take(n - 1);
        assert forall|i: int| 0 <= i < n - 1 implies #[trigger] names[i] != names[n - 1] by {
            assert(earlier[i] == names[i]);
        }
    }
}

/// A member of a message oneof that says nothing else is validated only when
/// it is set.
pub proof fn law_oneof_members_are_ignored_when_unset<C: Engine, E>(
    source: Source<C>,
    message: MessageDescriptor,
    field: FieldDescriptor,
    target: Target,
    rules: FieldRules,
)
    requires
        source.descriptors.message_rules_of(message) matches Some(m)
            && crate::rules::plan::in_oneofs(m.oneof@, field.name@),
        rules.ignore is None,
    ensures
        source.value::<E>(
            target,
            rules,
            member_ignore(
                source.descriptors.message_rules_of(message),
                field,
                rules.ignore,
            ),
        ) matches Ok(Some(built)) ==> built.rules.ignore_empty,
{
}

/// Each expression is one more to compile.
proof fn lemma_expressions_count(
    compiled: CompiledV,
    expressions: Seq<String>,
    list: Option<FieldPathElementV>,
    n: nat,
)
    ensures
        with_expressions(compiled, expressions, list, n).expressions.len()
            == compiled.expressions.len() + n,
    decreases n,
{
    if n > 0 {
        lemma_expressions_count(compiled, expressions, list, (n - 1) as nat);
    }
}

/// Each rule is one more to compile.
proof fn lemma_rules_count(
    compiled: CompiledV,
    rules: Seq<Rule>,
    list: Option<FieldPathElementV>,
    n: nat,
)
    ensures
        with_cel_rules(compiled, rules, list, n).expressions.len() == compiled.expressions.len()
            + n,
    decreases n,
{
    if n > 0 {
        lemma_rules_count(compiled, rules, list, (n - 1) as nat);
    }
}

/// Without a CEL runtime, a custom rule of a field is reported when its rules
/// are compiled, unless the standard rules beside it are refused first, or
/// all of them are ignored.
pub proof fn law_custom_field_rules_need_a_runtime<E>(
    source: Source<NoCel>,
    target: Target,
    rules: FieldRules,
    ignore: Option<Ignore>,
)
    requires
        rules.cel_expression@.len() + rules.cel@.len() > 0,
        rules.standard matches Some(standard) ==> source.standard::<E>(target, standard) is Ok,
        ignore != Some(Ignore::Always),
    ensures
        source.value::<E>(target, rules, ignore) == Err::<Option<BuiltV<()>>, ErrorV<E>>(
            ErrorV::Compilation(no_cel_message()),
        ),
{
    let start = match rules.standard {
        Some(standard) => source.standard::<E>(target, standard)->Ok_0.compiled,
        None => no_cel(),
    };
    let first = with_expressions(
        start,
        rules.cel_expression@,
        Some(source.schema.cel_expression),
        rules.cel_expression@.len(),
    );
    lemma_expressions_count(
        start,
        rules.cel_expression@,
        Some(source.schema.cel_expression),
        rules.cel_expression@.len(),
    );
    lemma_rules_count(first, rules.cel@, Some(source.schema.cel), rules.cel@.len());
}

/// Whether the rules of a value hold custom rules: of the value itself, of
/// its elements, keys or values, or predefined ones that its standard rules
/// set. Rules that are always ignored do not count.
pub open spec fn custom<C: Engine, E>(
    source: Source<C>,
    rules: FieldRules,
    ignore: Option<Ignore>,
) -> bool
    decreases rules,
{
    ignore != Some(Ignore::Always) && {
        ||| rules.cel_expression@.len() + rules.cel@.len() > 0
        ||| match rules.standard {
            None => false,
            Some(standard) => {
                ||| (source.predefined::<E>(standard) matches Ok((_, compiled))
                    && compiled.expressions.len() > 0)
                ||| match standard.rules {
                    RulesType::Repeated(r) => match r.items {
                        Some(items) => custom::<C, E>(source, *items, items.ignore),
                        None => false,
                    },
                    RulesType::Mapping(r) => {
                        ||| match r.keys {
                            Some(keys) => custom::<C, E>(source, *keys, keys.ignore),
                            None => false,
                        }
                        ||| match r.values {
                            Some(values) => custom::<C, E>(source, *values, values.ignore),
                            None => false,
                        }
                    },
                    _ => false,
                }
            },
        }
    }
}

impl<C: Engine> Source<C> {
    /// Whether a field has custom rules.
    pub open spec fn has_custom_field_rules<E>(
        self,
        message: MessageDescriptor,
        field: FieldDescriptor,
    ) -> bool {
        match self.descriptors.field_rules_of(message, field) {
            None => false,
            Some(rules) => custom::<C, E>(
                self,
                rules,
                member_ignore(self.descriptors.message_rules_of(message), field, rules.ignore),
            ),
        }
    }

    /// Whether a message type has custom rules, of its own or of a field.
    pub open spec fn has_custom_rules<E>(self, message: MessageDescriptor) -> bool {
        ||| (self.descriptors.message_rules_of(message) matches Some(rules)
            && rules.cel_expression@.len() + rules.cel@.len() > 0)
        ||| exists|i: int|
            0 <= i < message.fields@.len() && self.has_custom_field_rules::<E>(
                message,
                #[trigger] message.fields@[i],
            )
    }
}

proof fn lemma_custom_value<E>(
    source: Source<NoCel>,
    target: Target,
    rules: FieldRules,
    ignore: Option<Ignore>,
)
    requires
        custom::<NoCel, E>(source, rules, ignore),
    ensures
        source.value::<E>(target, rules, ignore) is Err,
    decreases rules,
{
    if let Some(standard) = rules.standard {
        match standard.rules {
            RulesType::Repeated(r) => {
                if let Some(items) = r.items {
                    if custom::<NoCel, E>(source, *items, items.ignore) {
                        lemma_custom_value::<E>(
                            source,
                            Target { ty: type_of_kind(target.kind), ..target },
                            *items,
                            items.ignore,
                        );
                    }
                }
            },
            RulesType::Mapping(r) => {
                if let Shape::Mapping { key } = target.shape {
                    if let Some(keys) = r.keys {
                        if custom::<NoCel, E>(source, *keys, keys.ignore) {
                            lemma_custom_value::<E>(
                                source,
                                entry_target(SingularKind::Scalar(key)),
                                *keys,
                                keys.ignore,
                            );
                        }
                    }
                    if let Some(values) = r.values {
                        if custom::<NoCel, E>(source, *values, values.ignore) {
                            lemma_custom_value::<E>(
                                source,
                                entry_target(target.kind),
                                *values,
                                values.ignore,
                            );
                        }
                    }
                }
            },
            _ => {},
        }
    }
    let start = match rules.standard {
        Some(standard) => source.standard::<E>(target, standard)->Ok_0.compiled,
        None => no_cel(),
    };
    let first = with_expressions(
        start,
        rules.cel_expression@,
        Some(source.schema.cel_expression),
        rules.cel_expression@.len(),
    );
    lemma_expressions_count(
        start,
        rules.cel_expression@,
        Some(source.schema.cel_expression),
        rules.cel_expression@.len(),
    );
    lemma_rules_count(first, rules.cel@, Some(source.schema.cel), rules.cel@.len());
}

proof fn lemma_custom_fields<E>(
    source: Source<NoCel>,
    message: MessageDescriptor,
    n: nat,
    i: int,
)
    requires
        0 <= i < n <= message.fields@.len(),
        source.has_custom_field_rules::<E>(message, message.fields@[i]),
    ensures
        source.fields::<E>(message, n) is Err,
    decreases n,
{
    if i < n - 1 {
        lemma_custom_fields::<E>(source, message, (n - 1) as nat, i);
    } else {
        let field = message.fields@[i];
        let rules = source.descriptors.field_rules_of(message, field)->Some_0;
        lemma_custom_value::<E>(
            source,
            field_target(field),
            rules,
            member_ignore(source.descriptors.message_rules_of(message), field, rules.ignore),
        );
    }
}

/// Without a CEL runtime, the rules of a message type do not compile where
/// there is a custom rule among them; one of the type itself is what is then
/// reported.
pub proof fn law_custom_rules_need_a_runtime<E>(source: Source<NoCel>, message: MessageDescriptor)
    requires
        source.has_custom_rules::<E>(message),
    ensures
        source.message::<E>(message) is Err,
        (source.descriptors.message_rules_of(message) matches Some(rules)
            && rules.cel_expression@.len() + rules.cel@.len() > 0) ==> source.message::<E>(message)
            == Err::<MessageEvaluatorV<()>, ErrorV<E>>(ErrorV::Compilation(no_cel_message())),
{
    reveal(Source::message);
    if let Some(rules) = source.descriptors.message_rules_of(message) {
        let first = with_expressions(
            no_cel(),
            rules.cel_expression@,
            None,
            rules.cel_expression@.len(),
        );
        lemma_expressions_count(no_cel(), rules.cel_expression@, None, rules.cel_expression@.len());
        lemma_rules_count(first, rules.cel@, None, rules.cel@.len());
    }
    if exists|i: int|
        0 <= i < message.fields@.len() && source.has_custom_field_rules::<E>(
            message,
            #[trigger] message.fields@[i],
        ) {
        let i = choose|i: int|
            0 <= i < message.fields@.len() && source.has_custom_field_rules::<E>(
                message,
                #[trigger] message.fields@[i],
            );
        lemma_custom_fields::<E>(source, message, message.fields@.len(), i);
    }
}

/// The type of a field is among the types of a type's fields.
proof fn lemma_field_types(fields: Seq<FieldDescriptor>, n: nat, i: int)
    requires
        0 <= i < n <= fields.len(),
        message_index(fields[i].kind) is Some,
    ensures
        field_types(fields, n).contains(message_index(fields[i].kind)->Some_0),
    decreases n,
{
    let index = message_index(fields[i].kind)->Some_0;
    let all = field_types(fields, n);
    if i == n - 1 {
        assert(all.last() == index);
    } else {
        lemma_field_types(fields, (n - 1) as nat, i);
        let front = field_types(fields, (n - 1) as nat);
        let j = choose|j: int| 0 <= j < front.len() && front[j] == index;
        assert(all[j] == index);
    }
}

/// The messages of a type whose rules are compiled have their rules compiled
/// too, where what is compiled is complete: no message is met in a validation
/// whose rules are not there.
pub proof fn law_nested_rules_are_there<C: Engine, E>(
    source: Source<C>,
    known: Set<u64>,
    index: u64,
    evaluator: MessageEvaluatorV<C::Program>,
    nested: NestedV,
)
    requires
        source.knows_fields(known),
        known.contains(index),
        source.there(index),
        source.message::<E>(source.at(index)) == Ok::<
            MessageEvaluatorV<C::Program>,
            ErrorV<E>,
        >(evaluator),
        evaluator.nested.contains(nested),
        source.there(nested.message),
    ensures
        known.contains(nested.message),
{
    reveal(Source::message);
    let message = source.at(index);
    let n = message.fields@.len();
    law_nested_are_those_not_ignored(source, message, n, nested);
    let i = choose|i: int|
        0 <= i < n && message_index((#[trigger] message.fields@[i]).kind) is Some
            && !messages_ignored(source.descriptors.field_rules_of(message, message.fields@[i]))
            && nested == nested_for(
            source,
            message.fields@[i],
            message_index(message.fields@[i].kind)->Some_0,
        );
    lemma_field_types(message.fields@, n, i);
    assert(source.has_field_of(index, nested.message));
}

} // verus!
