//! How a walk and a compilation can end.

use super::outcome::{
    chain, field_set, frame_of, key_scalar, key_value, nothing, value_scalar, Out, Setting,
};
use super::plan::{
    entry_target, field_target, member_ignore, rules_field, rules_message, ItemKind, Source, Target,
};
use super::standard::build::rule_checks;
use super::standard::wellknown::Formats;
use super::standard::{elements, CheckV};
use super::{
    AnyCheckV, FieldEvaluatorV, ItemEvaluatorV, MessageEvaluatorV, MessageOneofV, NestedV,
    OneofRequiredV, ProgramSetV, Shape, ValueRulesV,
};
use crate::cel::{Engine, ThisV};
use crate::descriptors::{paths_field, type_of_kind, MessageDescriptor, SingularKind};
use crate::error::ErrorV;
use crate::pool::{dynamic_in, index_in, set_numbers};
use crate::protobuf::reads::{entry_of, field_of, item_of, len_of};
use crate::protobuf::{
    lemma_get_smaller, lemma_item_smaller, lemma_value_smaller, FieldV, KeyV, ValV,
};
use crate::text::texts;
use crate::validate::rules::{FieldRules, Ignore, MessageOneofRule, RulesType, StandardRules};
use crate::validate::FieldPathElementV;
use vstd::prelude::*;

verus! {

/// Whether an error is one that a walk can end with: a rule that fails to
/// evaluate, a payload that does not parse, a message that cannot be read, or
/// something that fits none of these.
pub open spec fn of_walk<E>(error: ErrorV<E>) -> bool {
    error is Evaluation || error is Argument || error is Unexpected || error is Read
}

impl<C: Engine> Source<C> {
    /// Whether every standard rules message of the `buf.validate` schema is
    /// registered.
    pub open spec fn knows_rules(self) -> bool {
        forall|rules: RulesType| index_in(self.pool, #[trigger] rules_message(rules)) is Some
    }
}

/// Whether an error is one that a compilation can end with: rules that do not
/// compile or, where the `buf.validate` schema is not registered, that.
pub open spec fn of_rules<C: Engine, E>(source: Source<C>, error: ErrorV<E>) -> bool {
    error is Compilation || (error is Unexpected && !source.knows_rules())
}

/// Whether a part of a walk ends as it should: with at most one violation
/// where it stops at the first, or with an error that a walk can end with.
pub open spec fn ends_well<E>(fast: bool, out: Out<E>) -> bool {
    match out {
        Ok(found) => fast ==> found.len() <= 1,
        Err(error) => of_walk(error),
    }
}

proof fn lemma_chain_ends<E>(fast: bool, first: Out<E>, second: Out<E>)
    requires
        ends_well(fast, first),
        ends_well(fast, second),
    ensures
        ends_well(fast, chain(fast, first, second)),
{
}

proof fn lemma_elements_end<E>(l: ValV<E>, n: nat)
    ensures
        elements(l, n) matches Err(e) ==> of_walk(e),
    decreases n,
{
    if n > 0 {
        lemma_elements_end(l, (n - 1) as nat);
    }
}

proof fn lemma_check_ends<F: Formats, C: Engine, E>(
    s: Setting<F, C>,
    check: CheckV,
    value: Option<ValV<E>>,
)
    ensures
        ends_well(s.fast, s.check(check, value)),
{
    if let Some(v) = value {
        if v is List {
            if let Ok(n) = len_of(v) {
                lemma_elements_end(v, n as nat);
            }
        }
        if v is Message {
            if let Ok(Some(l)) = field_of(v, paths_field()) {
                if l is List {
                    if let Ok(n) = len_of(l) {
                        lemma_elements_end(l, n as nat);
                    }
                }
            }
        }
    }
}

proof fn lemma_checks_end<F: Formats, C: Engine, E>(
    s: Setting<F, C>,
    checks: Seq<CheckV>,
    value: Option<ValV<E>>,
    i: int,
)
    ensures
        ends_well(s.fast, s.checks_from(checks, value, i)),
    decreases checks.len() - i,
{
    if 0 <= i < checks.len() {
        lemma_checks_end(s, checks, value, i + 1);
        lemma_check_ends(s, checks[i], value);
        lemma_chain_ends(
            s.fast,
            s.check(checks[i], value),
            s.checks_from(checks, value, i + 1),
        );
    }
}

proof fn lemma_value_checks_end<F: Formats, C: Engine, E>(
    s: Setting<F, C>,
    checks: Seq<CheckV>,
    wrapper: Option<FieldV>,
    value: Option<ValV<E>>,
)
    ensures
        ends_well(s.fast, s.checks(checks, wrapper, value)),
{
    lemma_checks_end(s, checks, value, 0);
    lemma_checks_end::<F, C, E>(s, checks, None, 0);
    if wrapper is Some && value is Some && value->Some_0 is Message {
        if let Ok(unboxed) = field_of(value->Some_0, wrapper->Some_0) {
            lemma_checks_end(s, checks, unboxed, 0);
        }
    }
}

proof fn lemma_programs_end<F: Formats, C: Engine, E>(
    s: Setting<F, C>,
    programs: ProgramSetV<C::Program>,
    this: ThisV<C::Frame>,
    i: int,
)
    ensures
        ends_well::<E>(s.fast, s.programs_from(programs, this, i)),
    decreases programs.rules.len() - i,
{
    if 0 <= i < programs.rules.len() {
        lemma_programs_end::<F, C, E>(s, programs, this, i + 1);
        lemma_chain_ends::<E>(
            s.fast,
            s.program(programs, this, i),
            s.programs_from(programs, this, i + 1),
        );
    }
}

proof fn lemma_item_ends<F: Formats, C: Engine, E>(
    s: Setting<F, C>,
    rules: ValueRulesV<C::Program>,
    field: FieldV,
    value: ValV<E>,
)
    ensures
        ends_well(s.fast, s.item(rules, field, value)),
{
    lemma_value_checks_end(s, rules.checks, rules.wrapper, Some(value));
    if let Some(programs) = rules.programs {
        if let Some(kind) = rules.scalar {
            lemma_programs_end::<F, C, E>(
                s,
                programs,
                ThisV::Scalar(value_scalar(Some(value), kind)),
                0,
            );
        }
        if let Some(name) = field.message_type {
            if let Ok(frame) = frame_of(s.engine, name, value) {
                lemma_programs_end::<F, C, E>(s, programs, ThisV::Message(frame), 0);
            }
        }
    }
    lemma_chain_ends(
        s.fast,
        s.checks(rules.checks, rules.wrapper, Some(value)),
        s.item_cel(rules, field, value),
    );
}

proof fn lemma_any_ends<F: Formats, C: Engine, E>(
    s: Setting<F, C>,
    field: Option<FieldPathElementV>,
    value: Option<ValV<E>>,
    check: Option<AnyCheckV>,
)
    ensures
        ends_well(s.fast, s.any_of_value(field, value, check)),
{
}

proof fn lemma_items_end<F: Formats, C: Engine, E>(
    s: Setting<F, C>,
    field: FieldEvaluatorV<C::Program>,
    items: ItemEvaluatorV<C::Program>,
    l: ValV<E>,
    i: int,
    n: int,
)
    ensures
        ends_well(s.fast, s.items_from(field, items, l, i, n)),
    decreases n - i,
{
    if i < n {
        lemma_items_end(s, field, items, l, i + 1, n);
        if let Ok(Some(value)) = item_of(l, i) {
            lemma_item_ends(s, items.rules, field.field, value);
            lemma_any_ends(s, None, Some(value), items.rules.any);
            lemma_chain_ends(
                s.fast,
                s.item(items.rules, field.field, value),
                s.any_of_value(None, Some(value), items.rules.any),
            );
        }
        lemma_chain_ends(
            s.fast,
            s.list_item(field, items, l, i),
            s.items_from(field, items, l, i + 1, n),
        );
    }
}

proof fn lemma_entry_key_ends<F: Formats, C: Engine, E>(
    s: Setting<F, C>,
    keys: Option<ItemEvaluatorV<C::Program>>,
    key: KeyV,
)
    ensures
        ends_well::<E>(s.fast, s.entry_key(keys, key)),
{
    if let Some(keys) = keys {
        let value = Some(key_value::<E>(key));
        let this = ThisV::Scalar(key_scalar(key));
        lemma_checks_end(s, keys.rules.checks, value, 0);
        if let Some(programs) = keys.rules.programs {
            lemma_programs_end::<F, C, E>(s, programs, this, 0);
        }
        let cel: Out<E> = match keys.rules.programs {
            None => nothing(),
            Some(programs) => s.programs_from(programs, this, 0),
        };
        lemma_chain_ends(s.fast, s.checks_from(keys.rules.checks, value, 0), cel);
    }
}

proof fn lemma_entry_ends<F: Formats, C: Engine, E>(
    s: Setting<F, C>,
    field: FieldEvaluatorV<C::Program>,
    key: KeyV,
    value: ValV<E>,
)
    ensures
        ends_well(s.fast, s.entry(field, key, value)),
{
    lemma_entry_key_ends::<F, C, E>(s, field.keys, key);
    if let Some(values) = field.values {
        lemma_item_ends(s, values.rules, field.field, value);
    }
    lemma_chain_ends(
        s.fast,
        s.entry_key(field.keys, key),
        s.entry_value(field.values, field.field, value),
    );
}

proof fn lemma_entries_end<F: Formats, C: Engine, E>(
    s: Setting<F, C>,
    field: FieldEvaluatorV<C::Program>,
    p: ValV<E>,
    i: int,
)
    ensures
        ends_well(s.fast, s.entries_from(field, p, i)),
    decreases usize::MAX - i,
{
    if i < usize::MAX {
        lemma_entries_end(s, field, p, i + 1);
        if let Ok(Some((key, value))) = entry_of(p, i) {
            lemma_entry_ends(s, field, key, value);
        }
    }
}

proof fn lemma_field_ends<F: Formats, C: Engine, E>(
    s: Setting<F, C>,
    m: ValV<E>,
    name: Seq<char>,
    field: FieldEvaluatorV<C::Program>,
)
    ensures
        ends_well(s.fast, s.field(m, name, field)),
{
    if let Ok(value) = field_of(m, field.field) {
        lemma_value_checks_end(s, field.rules.checks, field.rules.wrapper, value);
        if let Some(programs) = field.rules.programs {
            if let Ok(this) = s.field_this(m, name, field, value) {
                lemma_programs_end::<F, C, E>(s, programs, this, 0);
            }
        }
        lemma_chain_ends(
            s.fast,
            s.checks(field.rules.checks, field.rules.wrapper, value),
            s.field_cel(m, name, field, value),
        );
        if value is Some && value->Some_0 is Mapping {
            lemma_entries_end(s, field, value->Some_0, 0);
        }
        if field.items is Some && value is Some && value->Some_0 is List {
            if let Ok(n) = len_of(value->Some_0) {
                lemma_items_end(s, field, field.items->Some_0, value->Some_0, 0, n as int);
            }
        }
        let items = chain(s.fast, s.field_list(field, value), s.field_entries(field, value));
        lemma_chain_ends(s.fast, s.field_list(field, value), s.field_entries(field, value));
        lemma_chain_ends(s.fast, s.defined_only(field, value), items);
        lemma_chain_ends(
            s.fast,
            s.field_rules(m, name, field, value),
            chain(s.fast, s.defined_only(field, value), items),
        );
        lemma_any_ends(s, Some(field.element), value, field.rules.any);
        lemma_chain_ends(
            s.fast,
            if field.shape is Singular {
                s.any_of_value(Some(field.element), value, field.rules.any)
            } else {
                nothing()
            },
            s.present_field(m, name, field, value),
        );
    }
}

proof fn lemma_fields_end<F: Formats, C: Engine, E>(
    s: Setting<F, C>,
    m: ValV<E>,
    name: Seq<char>,
    fields: Seq<FieldEvaluatorV<C::Program>>,
    i: int,
)
    ensures
        ends_well(s.fast, s.fields_from(m, name, fields, i)),
    decreases fields.len() - i,
{
    if 0 <= i < fields.len() {
        lemma_fields_end(s, m, name, fields, i + 1);
        lemma_field_ends(s, m, name, fields[i]);
        lemma_chain_ends(
            s.fast,
            s.field(m, name, fields[i]),
            s.fields_from(m, name, fields, i + 1),
        );
    }
}

proof fn lemma_set_ends<F: Formats, C: Engine, E>(m: ValV<E>, fields: Seq<FieldV>, i: int)
    ensures
        Setting::<F, C>::set_from(m, fields, i) matches Err(e) ==> of_walk(e),
        Setting::<F, C>::any_set_from(m, fields, i) matches Err(e) ==> of_walk(e),
    decreases fields.len() - i,
{
    if 0 <= i < fields.len() {
        lemma_set_ends::<F, C, E>(m, fields, i + 1);
        assert(field_set(m, fields[i]) matches Err(e) ==> of_walk(e));
    }
}

proof fn lemma_message_oneofs_end<F: Formats, C: Engine, E>(
    s: Setting<F, C>,
    m: ValV<E>,
    oneofs: Seq<MessageOneofV>,
    i: int,
)
    ensures
        ends_well(s.fast, s.message_oneofs_from(m, oneofs, i)),
    decreases oneofs.len() - i,
{
    if 0 <= i < oneofs.len() {
        lemma_message_oneofs_end(s, m, oneofs, i + 1);
        lemma_set_ends::<F, C, E>(m, oneofs[i].fields, 0);
        lemma_chain_ends(
            s.fast,
            s.message_oneof(m, oneofs[i]),
            s.message_oneofs_from(m, oneofs, i + 1),
        );
    }
}

proof fn lemma_oneofs_end<F: Formats, C: Engine, E>(
    s: Setting<F, C>,
    m: ValV<E>,
    oneofs: Seq<OneofRequiredV>,
    i: int,
)
    ensures
        ends_well(s.fast, s.oneofs_from(m, oneofs, i)),
    decreases oneofs.len() - i,
{
    if 0 <= i < oneofs.len() {
        lemma_oneofs_end(s, m, oneofs, i + 1);
        lemma_set_ends::<F, C, E>(m, oneofs[i].members, 0);
        lemma_chain_ends(s.fast, s.oneof(m, oneofs[i]), s.oneofs_from(m, oneofs, i + 1));
    }
}

proof fn lemma_message_ends<F: Formats, C: Engine, E>(
    s: Setting<F, C>,
    m: ValV<E>,
    name: Seq<char>,
    evaluator: MessageEvaluatorV<C::Program>,
)
    ensures
        ends_well(s.fast, s.message(m, name, evaluator)),
    decreases m, 2nat, 0int,
{
    if let Some(programs) = evaluator.cel {
        if let Ok(frame) = frame_of(s.engine, name, m) {
            lemma_programs_end::<F, C, E>(s, programs, ThisV::Message(frame), 0);
        }
    }
    lemma_message_oneofs_end(s, m, evaluator.message_oneofs, 0);
    lemma_fields_end(s, m, name, evaluator.fields, 0);
    lemma_oneofs_end(s, m, evaluator.oneofs, 0);
    lemma_nested_end(s, m, evaluator.nested, 0);
    let tail = chain(
        s.fast,
        s.oneofs_from(m, evaluator.oneofs, 0),
        s.nested_from(m, evaluator.nested, 0),
    );
    lemma_chain_ends(
        s.fast,
        s.oneofs_from(m, evaluator.oneofs, 0),
        s.nested_from(m, evaluator.nested, 0),
    );
    let fields = s.fields_from(m, name, evaluator.fields, 0);
    lemma_chain_ends(s.fast, fields, tail);
    let tail = chain(s.fast, fields, tail);
    let message_oneofs = s.message_oneofs_from(m, evaluator.message_oneofs, 0);
    lemma_chain_ends(s.fast, message_oneofs, tail);
    lemma_chain_ends(
        s.fast,
        s.message_cel(m, name, evaluator.cel),
        chain(s.fast, message_oneofs, tail),
    );
}

proof fn lemma_nested_end<F: Formats, C: Engine, E>(
    s: Setting<F, C>,
    m: ValV<E>,
    nested: Seq<NestedV>,
    i: int,
)
    ensures
        ends_well(s.fast, s.nested_from(m, nested, i)),
    decreases m, 1nat, nested.len() - i,
{
    if 0 <= i < nested.len() {
        lemma_nested_end(s, m, nested, i + 1);
        lemma_nested_field_ends(s, m, nested[i]);
        lemma_chain_ends(s.fast, s.nested_field(m, nested[i]), s.nested_from(m, nested, i + 1));
    }
}

proof fn lemma_nested_field_ends<F: Formats, C: Engine, E>(
    s: Setting<F, C>,
    m: ValV<E>,
    nested: NestedV,
)
    ensures
        ends_well(s.fast, s.nested_field(m, nested)),
    decreases m, 0nat, 0int,
{
    if m is Message {
        if let Ok(Some(value)) = field_of(m, nested.field) {
            lemma_get_smaller(m, nested.field);
            if s.evaluators.dom().contains(nested.message) {
                let evaluator = s.evaluators[nested.message];
                let element = nested.element;
                if let Some(name) = nested.field.message_type {
                    if value is Message {
                        lemma_message_ends(s, value, name, evaluator);
                    }
                    if value is List {
                        if let Ok(n) = len_of(value) {
                            lemma_nested_items_end(s, value, name, evaluator, element, 0, n as int);
                        }
                    }
                    if value is Mapping {
                        lemma_nested_entries_end(s, value, name, evaluator, element, 0);
                    }
                }
            }
        }
    }
}

proof fn lemma_nested_items_end<F: Formats, C: Engine, E>(
    s: Setting<F, C>,
    l: ValV<E>,
    name: Seq<char>,
    evaluator: MessageEvaluatorV<C::Program>,
    element: FieldPathElementV,
    i: int,
    n: int,
)
    ensures
        ends_well(s.fast, s.nested_items_from(l, name, evaluator, element, i, n)),
    decreases l, 1nat, n - i,
{
    if i < n && l is List {
        lemma_nested_items_end(s, l, name, evaluator, element, i + 1, n);
        lemma_item_smaller(l, i);
        if let Ok(Some(sub)) = item_of(l, i) {
            if sub is Message {
                lemma_message_ends(s, sub, name, evaluator);
            }
        }
    }
}

proof fn lemma_nested_entries_end<F: Formats, C: Engine, E>(
    s: Setting<F, C>,
    p: ValV<E>,
    name: Seq<char>,
    evaluator: MessageEvaluatorV<C::Program>,
    element: FieldPathElementV,
    i: int,
)
    ensures
        ends_well(s.fast, s.nested_entries_from(p, name, evaluator, element, i)),
    decreases p, 1nat, usize::MAX - i,
{
    if i < usize::MAX && p is Mapping {
        lemma_nested_entries_end(s, p, name, evaluator, element, i + 1);
        lemma_value_smaller(p, i);
        if let Ok(Some((_, sub))) = entry_of(p, i) {
            if sub is Message {
                lemma_message_ends(s, sub, name, evaluator);
            }
        }
        lemma_chain_ends(
            s.fast,
            s.nested_entry(p, name, evaluator, element, i),
            s.nested_entries_from(p, name, evaluator, element, i + 1),
        );
    }
}

/// Failing fast, validation stops at the first violation: no more than one
/// is ever reported.
pub proof fn law_fail_fast_reports_one<F: Formats, C: Engine, E>(
    s: Setting<F, C>,
    m: ValV<E>,
    name: Seq<char>,
    evaluator: MessageEvaluatorV<C::Program>,
)
    requires
        s.fast,
    ensures
        s.validated(m, name, evaluator) matches Ok(violations) ==> violations.len() <= 1,
{
    lemma_message_ends(s, m, name, evaluator);
}

/// A walk that cannot be completed ends with an error of evaluation, of
/// parsing or of reading, or one that fits none of these: never with
/// violations, and never with rules that do not compile.
pub proof fn law_walk_errors<F: Formats, C: Engine, E>(
    s: Setting<F, C>,
    m: ValV<E>,
    name: Seq<char>,
    evaluator: MessageEvaluatorV<C::Program>,
)
    ensures
        s.validated(m, name, evaluator) matches Err(e) ==> of_walk(e),
{
    lemma_message_ends(s, m, name, evaluator);
}

proof fn lemma_rule_checks_end<E>(prefix: Seq<char>, rules: RulesType, number: u32)
    ensures
        rule_checks::<E>(prefix, rules, number) matches Err(e) ==> e is Compilation,
{
}

proof fn lemma_set_rules_end<C: Engine, E>(
    source: Source<C>,
    rules: RulesType,
    numbers: Seq<u32>,
    n: nat,
)
    ensures
        source.set_rules::<E>(rules, numbers, n) matches Err(e) ==> of_rules(source, e),
    decreases n,
{
    if n > 0 {
        lemma_set_rules_end::<C, E>(source, rules, numbers, (n - 1) as nat);
        lemma_rule_checks_end::<E>(rules_field(rules), rules, numbers[n - 1]);
    }
}

proof fn lemma_predefined_ends<C: Engine, E>(source: Source<C>, standard: StandardRules)
    ensures
        source.predefined::<E>(standard) matches Err(e) ==> of_rules(source, e),
{
    let full_name = rules_message(standard.rules);
    if let Some(index) = index_in(source.pool, full_name) {
        if let Ok(message) = dynamic_in(source.pool, index, standard.bytes@) {
            let numbers = set_numbers(message);
            lemma_set_rules_end::<C, E>(source, standard.rules, numbers, numbers.len());
        }
    }
}

proof fn lemma_item_rules_end<C: Engine, E>(
    source: Source<C>,
    target: Target,
    rules: Option<Box<FieldRules>>,
    kind: ItemKind,
)
    ensures
        source.item::<E>(target, rules, kind) matches Err(e) ==> of_rules(source, e),
    decreases rules, 1nat,
{
    if let Some(rules) = rules {
        lemma_value_rules_end::<C, E>(source, target, *rules, rules.ignore);
    }
}

proof fn lemma_items_rules_end<C: Engine, E>(source: Source<C>, target: Target, rules: RulesType)
    ensures
        source.items::<E>(target, rules) matches Err(e) ==> of_rules(source, e),
    decreases rules, 0nat,
{
    match rules {
        RulesType::Repeated(r) => {
            lemma_item_rules_end::<C, E>(
                source,
                Target { ty: type_of_kind(target.kind), ..target },
                r.items,
                ItemKind::Items,
            );
        },
        RulesType::Mapping(r) => {
            if let Shape::Mapping { key } = target.shape {
                lemma_item_rules_end::<C, E>(
                    source,
                    entry_target(SingularKind::Scalar(key)),
                    r.keys,
                    ItemKind::Keys,
                );
                lemma_item_rules_end::<C, E>(
                    source,
                    entry_target(target.kind),
                    r.values,
                    ItemKind::Values,
                );
            }
        },
        _ => {},
    }
}

proof fn lemma_standard_ends<C: Engine, E>(
    source: Source<C>,
    target: Target,
    standard: StandardRules,
)
    ensures
        source.standard::<E>(target, standard) matches Err(e) ==> of_rules(source, e),
    decreases standard, 0nat,
{
    lemma_items_rules_end::<C, E>(source, target, standard.rules);
    lemma_predefined_ends::<C, E>(source, standard);
}

proof fn lemma_value_rules_end<C: Engine, E>(
    source: Source<C>,
    target: Target,
    rules: FieldRules,
    ignore: Option<Ignore>,
)
    ensures
        source.value::<E>(target, rules, ignore) matches Err(e) ==> of_rules(source, e),
    decreases rules, 0nat,
{
    if let Some(standard) = rules.standard {
        lemma_standard_ends::<C, E>(source, target, standard);
    }
}

proof fn lemma_fields_rules_end<C: Engine, E>(
    source: Source<C>,
    message: MessageDescriptor,
    n: nat,
)
    ensures
        source.fields::<E>(message, n) matches Err(e) ==> of_rules(source, e),
    decreases n,
{
    if n > 0 {
        lemma_fields_rules_end::<C, E>(source, message, (n - 1) as nat);
        let field = message.fields@[n - 1];
        if let Some(rules) = source.descriptors.field_rules_of(message, field) {
            lemma_value_rules_end::<C, E>(
                source,
                field_target(field),
                rules,
                member_ignore(source.descriptors.message_rules_of(message), field, rules.ignore),
            );
        }
    }
}

proof fn lemma_oneof_fields_end<C: Engine, E>(
    source: Source<C>,
    message: MessageDescriptor,
    names: Seq<Seq<char>>,
    n: nat,
)
    ensures
        source.oneof_fields::<E>(message, names, n) matches Err(e) ==> of_rules(source, e),
    decreases n,
{
    if n > 0 {
        lemma_oneof_fields_end::<C, E>(source, message, names, (n - 1) as nat);
    }
}

proof fn lemma_oneof_rules_end<C: Engine, E>(
    source: Source<C>,
    message: MessageDescriptor,
    oneofs: Seq<MessageOneofRule>,
    n: nat,
)
    ensures
        source.message_oneofs::<E>(message, oneofs, n) matches Err(e) ==> of_rules(source, e),
    decreases n,
{
    if n > 0 {
        lemma_oneof_rules_end::<C, E>(source, message, oneofs, (n - 1) as nat);
        let names = texts(oneofs[n - 1].fields@);
        lemma_oneof_fields_end::<C, E>(source, message, names, names.len());
    }
}

/// Rules that do not compile are reported as such, where the `buf.validate`
/// schema is registered, and never as violations.
pub proof fn law_rule_errors<C: Engine, E>(source: Source<C>, message: MessageDescriptor)
    ensures
        source.message::<E>(message) matches Err(e) ==> of_rules(source, e),
{
    reveal(Source::message);
    lemma_fields_rules_end::<C, E>(source, message, message.fields@.len());
    if let Some(rules) = source.descriptors.message_rules_of(message) {
        lemma_oneof_rules_end::<C, E>(source, message, rules.oneof@, rules.oneof@.len());
    }
}

} // verus!
