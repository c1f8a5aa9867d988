//! The order in which violations are found.

use super::location::{element_at, first_step, found_below, lemma_found_below, lemma_parts};
use super::outcome::{chain, nothing, on_field, subscripted, Out, Setting};
use super::presence::{in_shape, lemma_there, readable, there};
use super::standard::wellknown::Formats;
use super::standard::CheckV;
use super::{
    FieldEvaluatorV, ItemEvaluatorV, MessageEvaluatorV, MessageOneofV, NestedV, OneofRequiredV,
    ProgramSetV, ValueRulesV,
};
use crate::cel::{Engine, ThisV};
use crate::error::ErrorV;
use crate::protobuf::{FieldV, ValV};
use crate::validate::{FieldPathElementV, SubscriptV, ViolationV};
use vstd::prelude::*;

verus! {

/// Whether a whole is a part with another behind it: it ends well exactly
/// when both do, and otherwise as the first that does not.
pub open spec fn then_comes<E>(whole: Out<E>, a: Out<E>, b: Out<E>) -> bool {
    match (a, b) {
        (Ok(x), Ok(y)) => whole == Ok::<Seq<ViolationV>, ErrorV<E>>(x + y),
        (Err(e), _) => whole == Err::<Seq<ViolationV>, ErrorV<E>>(e),
        (Ok(_), Err(e)) => whole == Err::<Seq<ViolationV>, ErrorV<E>>(e),
    }
}

/// What is found of a message comes in this order: its custom rules, its
/// message oneofs, its fields, its required oneofs, and the messages that its
/// fields hold.
pub proof fn law_messages_are_walked_in_order<F: Formats, C: Engine, E>(
    s: Setting<F, C>,
    m: ValV<E>,
    name: Seq<char>,
    evaluator: MessageEvaluatorV<C::Program>,
)
    requires
        !s.fast,
        s.message(m, name, evaluator) is Ok,
    ensures
        ({
            let cel = s.message_cel(m, name, evaluator.cel);
            let message_oneofs = s.message_oneofs_from(m, evaluator.message_oneofs, 0);
            let fields = s.fields_from(m, name, evaluator.fields, 0);
            let oneofs = s.oneofs_from(m, evaluator.oneofs, 0);
            let nested = s.nested_from(m, evaluator.nested, 0);
            &&& cel is Ok && message_oneofs is Ok && fields is Ok && oneofs is Ok && nested is Ok
            &&& s.message(m, name, evaluator)->Ok_0 == cel->Ok_0 + message_oneofs->Ok_0
                + fields->Ok_0 + oneofs->Ok_0 + nested->Ok_0
        }),
{
    let cel = s.message_cel(m, name, evaluator.cel);
    let message_oneofs = s.message_oneofs_from(m, evaluator.message_oneofs, 0);
    let fields = s.fields_from(m, name, evaluator.fields, 0);
    let oneofs = s.oneofs_from(m, evaluator.oneofs, 0);
    let nested = s.nested_from(m, evaluator.nested, 0);
    assert(s.message(m, name, evaluator)->Ok_0 =~= cel->Ok_0 + message_oneofs->Ok_0 + fields->Ok_0
        + oneofs->Ok_0 + nested->Ok_0);
}

/// What is found of a field that is set comes in this order: its `any` rules,
/// its own rules, `defined_only`, and the rules of its elements and entries.
pub proof fn law_fields_are_walked_in_order<F: Formats, C: Engine, E>(
    s: Setting<F, C>,
    m: ValV<E>,
    name: Seq<char>,
    field: FieldEvaluatorV<C::Program>,
)
    requires
        !s.fast,
        readable(m, field.field),
        there(m, field),
        (m->get)(field.field) matches Some(value) ==> in_shape(value, field.shape),
        s.field(m, name, field) is Ok,
    ensures
        ({
            let value = (m->get)(field.field);
            let any: Out<E> = if field.shape is Singular {
                s.any_of_value(Some(field.element), value, field.rules.any)
            } else {
                nothing()
            };
            let rules = s.field_rules(m, name, field, value);
            let defined = s.defined_only(field, value);
            let items = s.field_list(field, value);
            let entries = s.field_entries(field, value);
            &&& any is Ok && rules is Ok && defined is Ok && items is Ok && entries is Ok
            &&& s.field(m, name, field)->Ok_0 == any->Ok_0 + rules->Ok_0 + defined->Ok_0
                + items->Ok_0 + entries->Ok_0
        }),
{
    lemma_there(s, m, field);
    let value = (m->get)(field.field);
    let any: Out<E> = if field.shape is Singular {
        s.any_of_value(Some(field.element), value, field.rules.any)
    } else {
        nothing()
    };
    let rules = s.field_rules(m, name, field, value);
    let defined = s.defined_only(field, value);
    let items = s.field_list(field, value);
    let entries = s.field_entries(field, value);
    assert(s.field(m, name, field)->Ok_0 =~= any->Ok_0 + rules->Ok_0 + defined->Ok_0 + items->Ok_0
        + entries->Ok_0);
}

/// The standard rules of a value come before its custom ones.
pub proof fn law_standard_rules_come_first<F: Formats, C: Engine, E>(
    s: Setting<F, C>,
    m: ValV<E>,
    name: Seq<char>,
    field: FieldEvaluatorV<C::Program>,
    rules: ValueRulesV<C::Program>,
    of: FieldV,
    value: ValV<E>,
)
    requires
        !s.fast,
    ensures
        then_comes(
            s.item(rules, of, value),
            s.checks(rules.checks, rules.wrapper, Some(value)),
            s.item_cel(rules, of, value),
        ),
        match (
            s.checks(field.rules.checks, field.rules.wrapper, Some(value)),
            s.field_cel(m, name, field, Some(value)),
        ) {
            (Ok(a), Ok(b)) => s.field_rules(m, name, field, Some(value)) == Ok::<
                Seq<ViolationV>,
                ErrorV<E>,
            >(on_field(a + b, field.element)),
            _ => s.field_rules(m, name, field, Some(value)) is Err,
        },
{
}

proof fn lemma_checks_more<F: Formats, C: Engine, E>(
    s: Setting<F, C>,
    checks: Seq<CheckV>,
    check: CheckV,
    value: Option<ValV<E>>,
    k: int,
)
    requires
        !s.fast,
        0 <= k <= checks.len(),
    ensures
        then_comes(
            s.checks_from(checks.push(check), value, k),
            s.checks_from(checks, value, k),
            s.check(check, value),
        ),
    decreases checks.len() - k,
{
    let more = checks.push(check);
    if k < checks.len() {
        lemma_checks_more(s, checks, check, value, k + 1);
        assert(more[k] == checks[k]);
        lemma_regrouped(
            s.check(checks[k], value),
            s.checks_from(checks, value, k + 1),
            s.check(check, value),
            s.checks_from(more, value, k + 1),
        );
    } else {
        assert(more[k] == check);
        assert(s.checks_from(more, value, k + 1) == nothing::<E>());
        lemma_nothing_around(s.check(check, value));
    }
}

proof fn lemma_regrouped<E>(a: Out<E>, b: Out<E>, c: Out<E>, rest: Out<E>)
    requires
        then_comes(rest, b, c),
    ensures
        then_comes(chain(false, a, rest), chain(false, a, b), c),
{
    if a is Ok && b is Ok && c is Ok {
        assert(a->Ok_0 + (b->Ok_0 + c->Ok_0) =~= (a->Ok_0 + b->Ok_0) + c->Ok_0);
    }
}

proof fn lemma_nothing_around<E>(a: Out<E>)
    ensures
        then_comes(chain(false, a, nothing()), nothing(), a),
{
    if let Ok(x) = a {
        assert(x + Seq::<ViolationV>::empty() =~= Seq::<ViolationV>::empty() + x);
        assert(Seq::<ViolationV>::empty() + x =~= x);
    }
}

/// Standard rules are tried in order, and reported in order: one more behind
/// them is reported behind them.
pub proof fn law_checks_are_tried_in_order<F: Formats, C: Engine, E>(
    s: Setting<F, C>,
    checks: Seq<CheckV>,
    check: CheckV,
    value: Option<ValV<E>>,
)
    requires
        !s.fast,
    ensures
        then_comes(
            s.checks(checks.push(check), None, value),
            s.checks(checks, None, value),
            s.check(check, value),
        ),
        s.checks(Seq::empty(), None, value) == nothing::<E>(),
{
    lemma_checks_more(s, checks, check, value, 0);
}

proof fn lemma_programs_whole<F: Formats, C: Engine, E>(
    s: Setting<F, C>,
    programs: ProgramSetV<C::Program>,
    this: ThisV<C::Frame>,
    k: int,
    i: int,
    v: ViolationV,
)
    requires
        !s.fast,
        0 <= k <= i < programs.rules.len(),
        s.programs_from::<E>(programs, this, k) is Ok,
    ensures
        s.program::<E>(programs, this, i) is Ok,
        s.program::<E>(programs, this, i)->Ok_0.contains(v) ==> s.programs_from::<E>(
            programs,
            this,
            k,
        )->Ok_0.contains(v),
    decreases i - k,
{
    lemma_parts::<E>(
        s.fast,
        s.program(programs, this, k),
        s.programs_from(programs, this, k + 1),
        v,
    );
    if k < i {
        lemma_programs_whole::<F, C, E>(s, programs, this, k + 1, i, v);
    }
}

proof fn lemma_programs_only<F: Formats, C: Engine, E>(
    s: Setting<F, C>,
    programs: ProgramSetV<C::Program>,
    this: ThisV<C::Frame>,
    k: int,
    v: ViolationV,
)
    requires
        0 <= k <= programs.rules.len(),
        s.programs_from::<E>(programs, this, k) is Ok,
        s.programs_from::<E>(programs, this, k)->Ok_0.contains(v),
    ensures
        exists|i: int|
            k <= i < programs.rules.len() && (#[trigger] s.program::<E>(programs, this, i)) is Ok
                && s.program::<E>(programs, this, i)->Ok_0.contains(v),
    decreases programs.rules.len() - k,
{
    if k < programs.rules.len() {
        let here = s.program::<E>(programs, this, k);
        let later = s.programs_from::<E>(programs, this, k + 1);
        lemma_parts::<E>(s.fast, here, later, v);
        if !here->Ok_0.contains(v) {
            lemma_programs_only::<F, C, E>(s, programs, this, k + 1, v);
            let i = choose|i: int|
                k + 1 <= i < programs.rules.len() && (
                #[trigger] s.program::<E>(programs, this, i)) is Ok && s.program::<E>(
                    programs,
                    this,
                    i,
                )->Ok_0.contains(v);
            assert(s.program::<E>(programs, this, i) is Ok);
        }
    }
}

/// Every custom rule is evaluated: what any of them reports is found, unless
/// the walk stops at the first violation, and nothing else is.
pub proof fn law_every_custom_rule_is_evaluated<F: Formats, C: Engine, E>(
    s: Setting<F, C>,
    programs: ProgramSetV<C::Program>,
    this: ThisV<C::Frame>,
    i: int,
    v: ViolationV,
)
    requires
        s.programs_from::<E>(programs, this, 0) is Ok,
    ensures
        !s.fast && 0 <= i < programs.rules.len() ==> s.program::<E>(programs, this, i) is Ok && (
        s.program::<E>(programs, this, i)->Ok_0.contains(v) ==> s.programs_from::<E>(
            programs,
            this,
            0,
        )->Ok_0.contains(v)),
        s.programs_from::<E>(programs, this, 0)->Ok_0.contains(v) ==> exists|j: int|
            0 <= j < programs.rules.len() && (#[trigger] s.program::<E>(programs, this, j)) is Ok
                && s.program::<E>(programs, this, j)->Ok_0.contains(v),
{
    if !s.fast && 0 <= i < programs.rules.len() {
        lemma_programs_whole::<F, C, E>(s, programs, this, 0, i, v);
    }
    if s.programs_from::<E>(programs, this, 0)->Ok_0.contains(v) {
        lemma_programs_only::<F, C, E>(s, programs, this, 0, v);
    }
}

proof fn lemma_fields_more<F: Formats, C: Engine, E>(
    s: Setting<F, C>,
    m: ValV<E>,
    name: Seq<char>,
    fields: Seq<FieldEvaluatorV<C::Program>>,
    field: FieldEvaluatorV<C::Program>,
    k: int,
)
    requires
        !s.fast,
        0 <= k <= fields.len(),
    ensures
        then_comes(
            s.fields_from(m, name, fields.push(field), k),
            s.fields_from(m, name, fields, k),
            s.field(m, name, field),
        ),
    decreases fields.len() - k,
{
    let more = fields.push(field);
    if k < fields.len() {
        lemma_fields_more(s, m, name, fields, field, k + 1);
        assert(more[k] == fields[k]);
        lemma_regrouped(
            s.field(m, name, fields[k]),
            s.fields_from(m, name, fields, k + 1),
            s.field(m, name, field),
            s.fields_from(m, name, more, k + 1),
        );
    } else {
        assert(more[k] == field);
        assert(s.fields_from(m, name, more, k + 1) == nothing::<E>());
        lemma_nothing_around(s.field(m, name, field));
    }
}

/// Fields are walked in order, and reported in order.
pub proof fn law_fields_come_in_order<F: Formats, C: Engine, E>(
    s: Setting<F, C>,
    m: ValV<E>,
    name: Seq<char>,
    fields: Seq<FieldEvaluatorV<C::Program>>,
    field: FieldEvaluatorV<C::Program>,
)
    requires
        !s.fast,
    ensures
        then_comes(
            s.fields_from(m, name, fields.push(field), 0),
            s.fields_from(m, name, fields, 0),
            s.field(m, name, field),
        ),
        s.fields_from(m, name, Seq::empty(), 0) == nothing::<E>(),
{
    lemma_fields_more(s, m, name, fields, field, 0);
}

proof fn lemma_items_more<F: Formats, C: Engine, E>(
    s: Setting<F, C>,
    field: FieldEvaluatorV<C::Program>,
    items: ItemEvaluatorV<C::Program>,
    l: ValV<E>,
    k: int,
    n: int,
)
    requires
        !s.fast,
        0 <= k <= n,
    ensures
        then_comes(
            s.items_from(field, items, l, k, n + 1),
            s.items_from(field, items, l, k, n),
            s.list_item(field, items, l, n),
        ),
    decreases n - k,
{
    if k < n {
        lemma_items_more(s, field, items, l, k + 1, n);
        lemma_regrouped(
            s.list_item(field, items, l, k),
            s.items_from(field, items, l, k + 1, n),
            s.list_item(field, items, l, n),
            s.items_from(field, items, l, k + 1, n + 1),
        );
    } else {
        assert(s.items_from(field, items, l, k + 1, n + 1) == nothing::<E>());
        lemma_nothing_around(s.list_item(field, items, l, n));
    }
}

/// The elements of a list are walked by position, and reported in that order.
pub proof fn law_elements_come_in_order<F: Formats, C: Engine, E>(
    s: Setting<F, C>,
    field: FieldEvaluatorV<C::Program>,
    items: ItemEvaluatorV<C::Program>,
    l: ValV<E>,
    n: int,
)
    requires
        !s.fast,
        0 <= n,
    ensures
        then_comes(
            s.items_from(field, items, l, 0, n + 1),
            s.items_from(field, items, l, 0, n),
            s.list_item(field, items, l, n),
        ),
        s.items_from(field, items, l, 0, 0) == nothing::<E>(),
{
    lemma_items_more(s, field, items, l, 0, n);
}

proof fn lemma_nested_more<F: Formats, C: Engine, E>(
    s: Setting<F, C>,
    m: ValV<E>,
    nested: Seq<NestedV>,
    one: NestedV,
    k: int,
)
    requires
        !s.fast,
        0 <= k <= nested.len(),
    ensures
        then_comes(
            s.nested_from(m, nested.push(one), k),
            s.nested_from(m, nested, k),
            s.nested_field(m, one),
        ),
    decreases nested.len() - k,
{
    let more = nested.push(one);
    if k < nested.len() {
        lemma_nested_more(s, m, nested, one, k + 1);
        assert(more[k] == nested[k]);
        lemma_regrouped(
            s.nested_field(m, nested[k]),
            s.nested_from(m, nested, k + 1),
            s.nested_field(m, one),
            s.nested_from(m, more, k + 1),
        );
    } else {
        assert(more[k] == one);
        assert(s.nested_from(m, more, k + 1) == nothing::<E>());
        lemma_nothing_around(s.nested_field(m, one));
    }
}

/// The messages of message-typed fields are walked in the order of the
/// fields, and reported in that order.
pub proof fn law_nested_messages_come_in_order<F: Formats, C: Engine, E>(
    s: Setting<F, C>,
    m: ValV<E>,
    nested: Seq<NestedV>,
    one: NestedV,
)
    requires
        !s.fast,
    ensures
        then_comes(
            s.nested_from(m, nested.push(one), 0),
            s.nested_from(m, nested, 0),
            s.nested_field(m, one),
        ),
        s.nested_from(m, Seq::empty(), 0) == nothing::<E>(),
{
    lemma_nested_more(s, m, nested, one, 0);
}

/// The entries of a map are walked by position, up to the first that is not
/// there, each once.
pub proof fn law_entries_come_in_order<F: Formats, C: Engine, E>(
    s: Setting<F, C>,
    field: FieldEvaluatorV<C::Program>,
    p: ValV<E>,
    i: int,
)
    requires
        !s.fast,
        0 <= i < usize::MAX,
    ensures
        (p->value)(i) is None ==> s.entries_from(field, p, i) == nothing::<E>(),
        (p->value)(i) matches Some(value) ==> (!(value is Failed) ==> then_comes(
            s.entries_from(field, p, i),
            s.entry(field, (p->key)(i), value),
            s.entries_from(field, p, i + 1),
        )),
{
}

/// The messages of a map are walked by position in the same way.
pub proof fn law_messages_of_maps_come_in_order<F: Formats, C: Engine, E>(
    s: Setting<F, C>,
    p: ValV<E>,
    name: Seq<char>,
    evaluator: MessageEvaluatorV<C::Program>,
    element: FieldPathElementV,
    i: int,
)
    requires
        !s.fast,
        p is Mapping,
        0 <= i < usize::MAX,
    ensures
        (p->value)(i) is None ==> s.nested_entries_from(p, name, evaluator, element, i)
            == nothing::<E>(),
        (p->value)(i) matches Some(value) ==> (!(value is Failed) ==> then_comes(
            s.nested_entries_from(p, name, evaluator, element, i),
            s.nested_entry(p, name, evaluator, element, i),
            s.nested_entries_from(p, name, evaluator, element, i + 1),
        )),
{
}

/// The messages of a list are walked by position, each once: what is found
/// from one on is what is found of it, on the list's element with its
/// position, and then what is found of the others.
pub proof fn law_messages_of_lists_come_in_order<F: Formats, C: Engine, E>(
    s: Setting<F, C>,
    l: ValV<E>,
    name: Seq<char>,
    evaluator: MessageEvaluatorV<C::Program>,
    element: FieldPathElementV,
    i: u64,
    n: int,
)
    requires
        !s.fast,
        l is List,
        i < n,
        (l->item)(i as int) matches Some(sub) && sub is Message,
    ensures
        match (
            s.message((l->item)(i as int)->Some_0, name, evaluator),
            s.nested_items_from(l, name, evaluator, element, i + 1, n),
        ) {
            (Ok(inner), Ok(later)) => s.nested_items_from(l, name, evaluator, element, i as int, n)
                matches Ok(found) && found.len() == inner.len() + later.len() && (forall|k: int|
                0 <= k < inner.len() ==> found_below(#[trigger] found[k], inner[k]) && element_at(
                    first_step(found[k]),
                    element,
                    SubscriptV::Index(i),
                )) && found.skip(inner.len() as int) == later,
            _ => s.nested_items_from(l, name, evaluator, element, i as int, n) is Err,
        },
        s.nested_items_from(l, name, evaluator, element, n, n) == nothing::<E>(),
{
    let sub = (l->item)(i as int)->Some_0;
    let e = subscripted(element, SubscriptV::Index(i));
    if let (Ok(inner), Ok(later)) = (
        s.message(sub, name, evaluator),
        s.nested_items_from(l, name, evaluator, element, i + 1, n),
    ) {
        lemma_found_below(inner, e);
        let here = on_field(inner, e);
        let found = s.nested_items_from(l, name, evaluator, element, i as int, n)->Ok_0;
        assert(found == here + later);
        assert(found.skip(inner.len() as int) =~= later);
        assert forall|k: int| 0 <= k < inner.len() implies found_below(
            #[trigger] found[k],
            inner[k],
        ) && element_at(first_step(found[k]), element, SubscriptV::Index(i)) by {
            assert(found[k] == here[k]);
        }
    }
}

/// Message oneofs, required oneofs and custom rules are tried one by one, each
/// once and in order.
pub proof fn law_oneofs_and_custom_rules_come_in_order<F: Formats, C: Engine, E>(
    s: Setting<F, C>,
    m: ValV<E>,
    message_oneofs: Seq<MessageOneofV>,
    oneofs: Seq<OneofRequiredV>,
    programs: ProgramSetV<C::Program>,
    this: ThisV<C::Frame>,
    i: int,
)
    requires
        !s.fast,
        0 <= i,
    ensures
        i < message_oneofs.len() ==> then_comes(
            s.message_oneofs_from(m, message_oneofs, i),
            s.message_oneof(m, message_oneofs[i]),
            s.message_oneofs_from(m, message_oneofs, i + 1),
        ),
        i >= message_oneofs.len() ==> s.message_oneofs_from(m, message_oneofs, i) == nothing::<
            E,
        >(),
        i < oneofs.len() ==> then_comes(
            s.oneofs_from(m, oneofs, i),
            s.oneof(m, oneofs[i]),
            s.oneofs_from(m, oneofs, i + 1),
        ),
        i >= oneofs.len() ==> s.oneofs_from(m, oneofs, i) == nothing::<E>(),
        i < programs.rules.len() ==> then_comes::<E>(
            s.programs_from(programs, this, i),
            s.program(programs, this, i),
            s.programs_from(programs, this, i + 1),
        ),
        i >= programs.rules.len() ==> s.programs_from::<E>(programs, this, i) == nothing::<E>(),
{
}

} // verus!
