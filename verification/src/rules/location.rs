//! Where violations are reported.

use super::outcome::{chain, key_subscript, on_field, path_or_empty, Out, Setting};
use super::standard::wellknown::Formats;
use super::standard::CheckV;
use super::{
    AnyCheckV, FieldEvaluatorV, ItemEvaluatorV, MessageEvaluatorV, NestedV, ProgramSetV,
    ValueRulesV,
};
use crate::cel::{Engine, ThisV};
use crate::protobuf::reads::{entry_of, field_of, item_of};
use crate::protobuf::{FieldV, KeyV, ValV};
use crate::validate::{FieldPathElementV, SubscriptV, ViolationV};
use vstd::prelude::*;

verus! {

/// The map key that a subscript names, if it names one.
pub open spec fn named_key(subscript: SubscriptV) -> Option<KeyV> {
    match subscript {
        SubscriptV::Index(_) => None,
        SubscriptV::BoolKey(b) => Some(KeyV::Bool(b)),
        SubscriptV::IntKey(i) => Some(KeyV::Int(i)),
        SubscriptV::UintKey(u) => Some(KeyV::Uint(u)),
        SubscriptV::StringKey(s) => Some(KeyV::String(s)),
    }
}

/// The subscript of an entry names its key: the key can be read back from it,
/// and entries with different keys have different subscripts.
pub proof fn law_subscripts_name_keys(a: KeyV, b: KeyV)
    ensures
        named_key(key_subscript(a)) == Some(a),
        key_subscript(a) == key_subscript(b) ==> a == b,
{
}

/// Whether a path element is that of a field, with a subscript.
pub open spec fn element_at(
    e: FieldPathElementV,
    of: FieldPathElementV,
    subscript: SubscriptV,
) -> bool {
    &&& e.field_number == of.field_number
    &&& e.field_name == of.field_name
    &&& e.field_type == of.field_type
    &&& e.key_type == of.key_type
    &&& e.value_type == of.value_type
    &&& e.subscript == Some(subscript)
}

/// Whether a path element is that of a map, with a subscript from which
/// exactly this key is read back.
pub open spec fn element_of_key(e: FieldPathElementV, of: FieldPathElementV, key: KeyV) -> bool {
    e.subscript matches Some(subscript) && named_key(subscript) == Some(key) && element_at(
        e,
        of,
        subscript,
    )
}

/// Whether none of the violations has a path yet, or is marked as one of a
/// key.
spec fn bare(found: Seq<ViolationV>) -> bool {
    forall|i: int|
        0 <= i < found.len() ==> (#[trigger] found[i]).field is None && found[i].for_key is None
}

spec fn bare_out<E>(out: Out<E>) -> bool {
    out is Ok ==> bare(out->Ok_0)
}

proof fn lemma_bare_chain<E>(fast: bool, a: Out<E>, b: Out<E>)
    requires
        bare_out(a),
        bare_out(b),
    ensures
        bare_out(chain(fast, a, b)),
{
}

proof fn lemma_bare_checks<F: Formats, C: Engine, E>(
    s: Setting<F, C>,
    checks: Seq<CheckV>,
    value: Option<ValV<E>>,
    i: int,
)
    ensures
        bare_out(s.checks_from(checks, value, i)),
    decreases checks.len() - i,
{
    if 0 <= i < checks.len() {
        lemma_bare_checks(s, checks, value, i + 1);
        lemma_bare_chain(
            s.fast,
            s.check(checks[i], value),
            s.checks_from(checks, value, i + 1),
        );
    }
}

proof fn lemma_bare_value_checks<F: Formats, C: Engine, E>(
    s: Setting<F, C>,
    checks: Seq<CheckV>,
    wrapper: Option<FieldV>,
    value: Option<ValV<E>>,
)
    ensures
        bare_out(s.checks(checks, wrapper, value)),
{
    lemma_bare_checks(s, checks, value, 0);
    lemma_bare_checks::<F, C, E>(s, checks, None, 0);
    if wrapper is Some && value is Some && value->Some_0 is Message {
        if let Ok(unboxed) = field_of(value->Some_0, wrapper->Some_0) {
            lemma_bare_checks(s, checks, unboxed, 0);
        }
    }
}

proof fn lemma_bare_programs<F: Formats, C: Engine, E>(
    s: Setting<F, C>,
    programs: ProgramSetV<C::Program>,
    this: ThisV<C::Frame>,
    i: int,
)
    ensures
        bare_out::<E>(s.programs_from(programs, this, i)),
    decreases programs.rules.len() - i,
{
    if 0 <= i < programs.rules.len() {
        lemma_bare_programs::<F, C, E>(s, programs, this, i + 1);
        lemma_bare_chain::<E>(
            s.fast,
            s.program(programs, this, i),
            s.programs_from(programs, this, i + 1),
        );
    }
}

proof fn lemma_bare_item<F: Formats, C: Engine, E>(
    s: Setting<F, C>,
    rules: ValueRulesV<C::Program>,
    field: FieldV,
    value: ValV<E>,
)
    ensures
        bare_out(s.item(rules, field, value)),
{
    lemma_bare_value_checks(s, rules.checks, rules.wrapper, Some(value));
    if let Some(programs) = rules.programs {
        assert forall|this: ThisV<C::Frame>|
            bare_out::<E>(#[trigger] s.programs_from(programs, this, 0)) by {
            lemma_bare_programs::<F, C, E>(s, programs, this, 0);
        }
    }
    assert(bare_out(s.item_cel(rules, field, value)));
    lemma_bare_chain(
        s.fast,
        s.checks(rules.checks, rules.wrapper, Some(value)),
        s.item_cel(rules, field, value),
    );
}

proof fn lemma_bare_any<F: Formats, C: Engine, E>(
    s: Setting<F, C>,
    value: Option<ValV<E>>,
    check: Option<AnyCheckV>,
)
    ensures
        bare_out(s.any_of_value(None, value, check)),
{
}

/// The path element that the entries of a map are reported on.
pub open spec fn map_base<P>(field: FieldEvaluatorV<P>) -> FieldPathElementV {
    match field.entry_element {
        Some(element) => element,
        None => field.element,
    }
}

/// A violation in a map entry names the entry: its path is the map's element
/// alone, with a subscript from which exactly that entry's key is read back.
pub proof fn law_entries_are_named_by_key<F: Formats, C: Engine, E>(
    s: Setting<F, C>,
    field: FieldEvaluatorV<C::Program>,
    key: KeyV,
    value: ValV<E>,
    i: int,
)
    requires
        s.entry(field, key, value) matches Ok(found) && 0 <= i < found.len(),
    ensures
        ({
            let v = s.entry(field, key, value)->Ok_0[i];
            &&& v.field matches Some(path) && path.len() == 1 && element_of_key(
                path[0],
                map_base(field),
                key,
            )
        }),
{
    if let Some(keys) = field.keys {
        let checked = s.checks_from(
            keys.rules.checks,
            Some(super::outcome::key_value::<E>(key)),
            0,
        );
        lemma_bare_checks(
            s,
            keys.rules.checks,
            Some(super::outcome::key_value::<E>(key)),
            0,
        );
        if let Some(programs) = keys.rules.programs {
            let this = ThisV::Scalar(super::outcome::key_scalar(key));
            lemma_bare_programs::<F, C, E>(s, programs, this, 0);
            lemma_bare_chain(s.fast, checked, s.programs_from(programs, this, 0));
        } else {
            lemma_bare_chain(s.fast, checked, super::outcome::nothing());
        }
    }
    if let Some(values) = field.values {
        lemma_bare_item(s, values.rules, field.field, value);
    }
    law_subscripts_name_keys(key, key);
}

/// A violation in an element of a list names the element: its path is the
/// list's element alone, with the position of the element for a subscript.
/// It is not one of a key.
pub proof fn law_elements_are_named_by_position<F: Formats, C: Engine, E>(
    s: Setting<F, C>,
    field: FieldEvaluatorV<C::Program>,
    items: ItemEvaluatorV<C::Program>,
    l: ValV<E>,
    position: u64,
    i: int,
)
    requires
        s.list_item(field, items, l, position as int) matches Ok(found) && 0 <= i < found.len(),
    ensures
        ({
            let v = s.list_item(field, items, l, position as int)->Ok_0[i];
            &&& v.for_key is None
            &&& v.field matches Some(path) && path.len() == 1 && element_at(
                path[0],
                field.element,
                SubscriptV::Index(position),
            )
        }),
{
    if let Ok(Some(value)) = item_of(l, position as int) {
        lemma_bare_item(s, items.rules, field.field, value);
        lemma_bare_any(s, Some(value), items.rules.any);
        lemma_bare_chain(
            s.fast,
            s.item(items.rules, field.field, value),
            s.any_of_value(None, Some(value), items.rules.any),
        );
    }
}

/// A violation of a field's own rules is reported on the field, and on
/// nothing below it.
pub proof fn law_field_rules_are_reported_on_the_field<F: Formats, C: Engine, E>(
    s: Setting<F, C>,
    m: ValV<E>,
    name: Seq<char>,
    field: FieldEvaluatorV<C::Program>,
    value: Option<ValV<E>>,
    i: int,
)
    requires
        s.field_rules(m, name, field, value) matches Ok(found) && 0 <= i < found.len(),
    ensures
        s.field_rules(m, name, field, value)->Ok_0[i].field == Some(seq![field.element]),
        s.field_rules(m, name, field, value)->Ok_0[i].for_key is None,
{
    lemma_bare_value_checks(s, field.rules.checks, field.rules.wrapper, value);
    if let Some(programs) = field.rules.programs {
        if let Ok(this) = s.field_this(m, name, field, value) {
            lemma_bare_programs::<F, C, E>(s, programs, this, 0);
        }
    }
    lemma_bare_chain(
        s.fast,
        s.checks(field.rules.checks, field.rules.wrapper, value),
        s.field_cel(m, name, field, value),
    );
    let v = s.field_rules(m, name, field, value)->Ok_0[i];
    assert(v.field->Some_0 =~= seq![field.element]);
}

/// Whether a violation is another one, found one level further down: the same
/// but for its path, which leads through one more element first. Paths are
/// leaf first.
pub open spec fn found_below(v: ViolationV, inner: ViolationV) -> bool {
    &&& v.field matches Some(path) && path.len() > 0 && path.drop_last() == path_or_empty(
        inner.field,
    )
    &&& v.rule == inner.rule
    &&& v.rule_id == inner.rule_id
    &&& v.message == inner.message
    &&& v.for_key == inner.for_key
}

/// The element that a violation's path leads through first.
pub open spec fn first_step(v: ViolationV) -> FieldPathElementV {
    v.field->Some_0.last()
}

/// Violations with one more element are the same violations further down.
pub proof fn lemma_found_below(inner: Seq<ViolationV>, e: FieldPathElementV)
    ensures
        on_field(inner, e).len() == inner.len(),
        forall|k: int|
            0 <= k < inner.len() ==> {
                let v = #[trigger] on_field(inner, e)[k];
                found_below(v, inner[k]) && first_step(v) == e
            },
{
    assert forall|k: int| 0 <= k < inner.len() implies {
        let v = #[trigger] on_field(inner, e)[k];
        found_below(v, inner[k]) && first_step(v) == e
    } by {
        let path = path_or_empty(inner[k].field);
        assert(path.push(e).drop_last() =~= path);
    }
}

/// The violations of the message in a map entry are those of the message
/// itself, each with the map's element on its path, subscripted so that
/// exactly that entry's key is read back.
pub proof fn law_messages_in_entries_are_named_by_key<F: Formats, C: Engine, E>(
    s: Setting<F, C>,
    p: ValV<E>,
    name: Seq<char>,
    evaluator: MessageEvaluatorV<C::Program>,
    element: FieldPathElementV,
    i: int,
    sub: ValV<E>,
)
    requires
        p is Mapping,
        (p->value)(i) == Some(sub),
        sub is Message,
    ensures
        match (s.message(sub, name, evaluator), s.nested_entry(p, name, evaluator, element, i)) {
            (Ok(inner), Ok(found)) => found.len() == inner.len() && forall|k: int|
                0 <= k < found.len() ==> found_below(#[trigger] found[k], inner[k])
                    && element_of_key(first_step(found[k]), element, (p->key)(i)),
            (Err(a), Err(b)) => a == b,
            _ => false,
        },
{
    let key = (p->key)(i);
    law_subscripts_name_keys(key, key);
    if let Ok(inner) = s.message(sub, name, evaluator) {
        lemma_found_below(inner, super::outcome::subscripted(element, key_subscript(key)));
    }
}

/// The violations of the message that a field holds are those of the message
/// itself, each with the field's element on its path.
pub proof fn law_messages_in_fields_are_found_below<F: Formats, C: Engine, E>(
    s: Setting<F, C>,
    m: ValV<E>,
    nested: NestedV,
    sub: ValV<E>,
    name: Seq<char>,
)
    requires
        m is Message,
        nested.shape is Singular,
        (m->has)(nested.field) == Ok::<bool, E>(true),
        (m->get)(nested.field) == Some(sub),
        sub is Message,
        nested.field.message_type == Some(name),
        s.evaluators.dom().contains(nested.message),
    ensures
        match (
            s.message(sub, name, s.evaluators[nested.message]),
            s.nested_field(m, nested),
        ) {
            (Ok(inner), Ok(found)) => found.len() == inner.len() && forall|k: int|
                0 <= k < found.len() ==> found_below(#[trigger] found[k], inner[k]) && first_step(
                    found[k],
                ) == nested.element,
            (Err(a), Err(b)) => a == b,
            _ => false,
        },
{
    if let Ok(inner) = s.message(sub, name, s.evaluators[nested.message]) {
        lemma_found_below(inner, nested.element);
    }
}

/// A message that a field does not have is not looked at.
pub proof fn law_messages_not_there_are_not_walked<F: Formats, C: Engine, E>(
    s: Setting<F, C>,
    m: ValV<E>,
    nested: NestedV,
)
    requires
        nested.shape is Singular,
        (m->has)(nested.field) == Ok::<bool, E>(false),
    ensures
        s.nested_field(m, nested) matches Ok(found) && found.len() == 0,
{
}

/// What is in one of two parts of a walk is in both together, where the walk
/// goes on, and nothing else is.
pub proof fn lemma_parts<E>(fast: bool, a: Out<E>, b: Out<E>, v: ViolationV)
    requires
        chain(fast, a, b) is Ok,
    ensures
        a is Ok,
        !fast ==> b is Ok,
        !fast ==> (chain(fast, a, b)->Ok_0.contains(v) <==> a->Ok_0.contains(v)
            || b->Ok_0.contains(v)),
        chain(fast, a, b)->Ok_0.contains(v) ==> a->Ok_0.contains(v) || (b is Ok
            && b->Ok_0.contains(v)),
{
    if b is Ok {
        let x = a->Ok_0;
        let y = b->Ok_0;
        if x.contains(v) {
            let i = choose|i: int| 0 <= i < x.len() && x[i] == v;
            assert((x + y)[i] == v);
        }
        if y.contains(v) {
            let i = choose|i: int| 0 <= i < y.len() && y[i] == v;
            assert((x + y)[x.len() + i] == v);
        }
    }
}

/// Whether a violation is one of the entry at a position of a map, on the
/// map's element subscripted by that entry's key.
pub open spec fn of_entry<F: Formats, C: Engine, E>(
    s: Setting<F, C>,
    field: FieldEvaluatorV<C::Program>,
    p: ValV<E>,
    i: int,
    v: ViolationV,
) -> bool {
    &&& (p->value)(i) matches Some(value) && s.entry(field, (p->key)(i), value) matches Ok(found)
        && found.contains(v)
    &&& v.field matches Some(path) && path.len() == 1 && element_of_key(
        path[0],
        map_base(field),
        (p->key)(i),
    )
}

proof fn lemma_entries_parts<F: Formats, C: Engine, E>(
    s: Setting<F, C>,
    field: FieldEvaluatorV<C::Program>,
    p: ValV<E>,
    k: int,
    v: ViolationV,
)
    requires
        s.entries_from(field, p, k) is Ok,
    ensures
        s.entries_from(field, p, k)->Ok_0.contains(v) ==> exists|i: int|
            i >= k && #[trigger] of_entry(s, field, p, i, v),
    decreases usize::MAX - k,
{
    if k < usize::MAX {
        if let Ok(Some((key, value))) = entry_of(p, k) {
            let here = s.entry(field, key, value);
            let later = s.entries_from(field, p, k + 1);
            lemma_parts(s.fast, here, later, v);
            if here->Ok_0.contains(v) {
                let i = choose|i: int| 0 <= i < here->Ok_0.len() && here->Ok_0[i] == v;
                law_entries_are_named_by_key(s, field, key, value, i);
                assert(of_entry(s, field, p, k, v));
            }
            if later is Ok {
                lemma_entries_parts(s, field, p, k + 1, v);
            }
        }
    }
}

/// Every violation of the entries of a map is one of an entry that the map
/// has, and names it by its key.
pub proof fn law_map_violations_name_an_entry<F: Formats, C: Engine, E>(
    s: Setting<F, C>,
    field: FieldEvaluatorV<C::Program>,
    p: ValV<E>,
    v: ViolationV,
)
    requires
        p is Mapping,
        s.field_entries(field, Some(p)) matches Ok(found) && found.contains(v),
    ensures
        exists|i: int| i >= 0 && #[trigger] of_entry(s, field, p, i, v),
{
    lemma_entries_parts(s, field, p, 0, v);
}

/// Whether a map has `n` entries, each of which can be read, and no more.
pub open spec fn all_entries<E>(p: ValV<E>, n: int) -> bool {
    &&& p is Mapping
    &&& 0 <= n < usize::MAX
    &&& (p->value)(n) is None
    &&& forall|i: int|
        0 <= i < n ==> (#[trigger] (p->value)(i)) is Some && !((p->value)(i)->Some_0 is Failed)
}

proof fn lemma_entries_whole<F: Formats, C: Engine, E>(
    s: Setting<F, C>,
    field: FieldEvaluatorV<C::Program>,
    p: ValV<E>,
    n: int,
    k: int,
    i: int,
    v: ViolationV,
)
    requires
        !s.fast,
        all_entries(p, n),
        0 <= k <= i < n,
        s.entries_from(field, p, k) is Ok,
    ensures
        s.entry(field, (p->key)(i), (p->value)(i)->Some_0) matches Ok(found) && (found.contains(v)
            ==> s.entries_from(field, p, k)->Ok_0.contains(v)),
    decreases i - k,
{
    assert((p->value)(k) is Some);
    let here = s.entry(field, (p->key)(k), (p->value)(k)->Some_0);
    let later = s.entries_from(field, p, k + 1);
    lemma_parts(s.fast, here, later, v);
    if k < i {
        lemma_entries_whole(s, field, p, n, k + 1, i, v);
    }
}

/// Every entry of a map is checked: what is wrong with any of them is found,
/// unless the walk stops at the first violation.
pub proof fn law_every_entry_is_checked<F: Formats, C: Engine, E>(
    s: Setting<F, C>,
    field: FieldEvaluatorV<C::Program>,
    p: ValV<E>,
    n: int,
    i: int,
    v: ViolationV,
)
    requires
        !s.fast,
        all_entries(p, n),
        0 <= i < n,
        field.keys is Some || field.values is Some,
        s.field_entries(field, Some(p)) is Ok,
    ensures
        s.entry(field, (p->key)(i), (p->value)(i)->Some_0) matches Ok(found) && (found.contains(v)
            ==> s.field_entries(field, Some(p))->Ok_0.contains(v)),
{
    lemma_entries_whole(s, field, p, n, 0, i, v);
}

/// Whether a violation is one of the element at a position of a list, on the
/// list's element subscripted by the position.
pub open spec fn of_element<F: Formats, C: Engine, E>(
    s: Setting<F, C>,
    field: FieldEvaluatorV<C::Program>,
    items: ItemEvaluatorV<C::Program>,
    l: ValV<E>,
    i: int,
    v: ViolationV,
) -> bool {
    &&& s.list_item(field, items, l, i) matches Ok(found) && found.contains(v)
    &&& v.field matches Some(path) && path.len() == 1 && element_at(
        path[0],
        field.element,
        SubscriptV::Index(i as u64),
    )
}

proof fn lemma_items_parts<F: Formats, C: Engine, E>(
    s: Setting<F, C>,
    field: FieldEvaluatorV<C::Program>,
    items: ItemEvaluatorV<C::Program>,
    l: ValV<E>,
    k: int,
    n: int,
    v: ViolationV,
)
    requires
        0 <= k <= n <= usize::MAX,
        s.items_from(field, items, l, k, n) is Ok,
    ensures
        s.items_from(field, items, l, k, n)->Ok_0.contains(v) ==> exists|i: int|
            k <= i < n && #[trigger] of_element(s, field, items, l, i, v),
        !s.fast ==> forall|i: int|
            k <= i < n ==> (#[trigger] s.list_item(field, items, l, i)) is Ok && (s.list_item(
                field,
                items,
                l,
                i,
            )->Ok_0.contains(v) ==> s.items_from(field, items, l, k, n)->Ok_0.contains(v)),
    decreases n - k,
{
    if k < n {
        let here = s.list_item(field, items, l, k);
        let later = s.items_from(field, items, l, k + 1, n);
        lemma_parts(s.fast, here, later, v);
        if here->Ok_0.contains(v) {
            let i = choose|i: int| 0 <= i < here->Ok_0.len() && here->Ok_0[i] == v;
            law_elements_are_named_by_position(s, field, items, l, k as u64, i);
            assert(of_element(s, field, items, l, k, v));
        }
        if later is Ok {
            lemma_items_parts(s, field, items, l, k + 1, n, v);
        }
    }
}

/// Every violation of the elements of a list is one of an element that the
/// list has, and names it by its position; and what is wrong with any of
/// them is found, unless the walk stops at the first violation.
pub proof fn law_list_violations_name_an_element<F: Formats, C: Engine, E>(
    s: Setting<F, C>,
    field: FieldEvaluatorV<C::Program>,
    items: ItemEvaluatorV<C::Program>,
    l: ValV<E>,
    n: usize,
    v: ViolationV,
)
    requires
        l is List,
        l->len == Ok::<usize, E>(n),
        field.items == Some(items),
        s.field_list(field, Some(l)) is Ok,
    ensures
        s.field_list(field, Some(l))->Ok_0.contains(v) ==> exists|i: int|
            0 <= i < n && #[trigger] of_element(s, field, items, l, i, v),
        !s.fast ==> forall|i: int|
            0 <= i < n ==> (#[trigger] s.list_item(field, items, l, i)) is Ok && (s.list_item(
                field,
                items,
                l,
                i,
            )->Ok_0.contains(v) ==> s.field_list(field, Some(l))->Ok_0.contains(v)),
{
    lemma_items_parts(s, field, items, l, 0, n as int, v);
}

} // verus!
