//! What holds of every walk.

use super::outcome::{chain, from_root, nothing, with_field, Out, Setting};
use super::standard::wellknown::Formats;
use super::standard::CheckV;
use super::{
    AnyCheckV, FieldEvaluatorV, ItemEvaluatorV, MessageEvaluatorV, MessageOneofV, NestedV,
    OneofRequiredV, ProgramSetV, ValueRulesV,
};
use crate::cel::{Engine, ThisV};
use crate::protobuf::reads::{entry_of, field_of, item_of, len_of};
use crate::protobuf::{
    lemma_get_smaller, lemma_item_smaller, lemma_value_smaller, FieldV, KeyV, ValV,
};
use crate::validate::{FieldPathElementV, ViolationV};
use vstd::prelude::*;

verus! {

/// The same validation, stopping at the first violation.
pub open spec fn fast<F, C: Engine>(s: Setting<F, C>) -> Setting<F, C> {
    Setting { fast: true, ..s }
}

/// A walk that stops at the first violation agrees with one that does not:
/// where the full walk ends well, so does the fast one, and finds something
/// exactly when the full one does, the same thing first; where the full walk
/// fails, the fast one fails too or has found something before.
pub open spec fn agrees<E>(full: Out<E>, fast: Out<E>) -> bool {
    match full {
        Ok(a) => fast is Ok && (a.len() == 0 <==> fast->Ok_0.len() == 0) && (a.len() > 0
            ==> fast->Ok_0[0] == a[0]),
        Err(_) => fast is Err || fast->Ok_0.len() > 0,
    }
}

proof fn lemma_chain<E>(f1: Out<E>, f2: Out<E>, g1: Out<E>, g2: Out<E>)
    requires
        agrees(f1, g1),
        agrees(f2, g2),
    ensures
        agrees(chain(false, f1, f2), chain(true, g1, g2)),
{
}

proof fn lemma_checks<F: Formats, C: Engine, E>(
    s: Setting<F, C>,
    checks: Seq<CheckV>,
    value: Option<ValV<E>>,
    i: int,
)
    requires
        !s.fast,
    ensures
        agrees(s.checks_from(checks, value, i), fast(s).checks_from(checks, value, i)),
    decreases checks.len() - i,
{
    if 0 <= i < checks.len() {
        lemma_checks(s, checks, value, i + 1);
        assert(s.check(checks[i], value) == fast(s).check(checks[i], value));
        lemma_chain(
            s.check(checks[i], value),
            s.checks_from(checks, value, i + 1),
            fast(s).check(checks[i], value),
            fast(s).checks_from(checks, value, i + 1),
        );
    }
}

proof fn lemma_value_checks<F: Formats, C: Engine, E>(
    s: Setting<F, C>,
    checks: Seq<CheckV>,
    wrapper: Option<FieldV>,
    value: Option<ValV<E>>,
)
    requires
        !s.fast,
    ensures
        agrees(s.checks(checks, wrapper, value), fast(s).checks(checks, wrapper, value)),
{
    lemma_checks(s, checks, value, 0);
    lemma_checks::<F, C, E>(s, checks, None, 0);
    if wrapper is Some && value is Some && value->Some_0 is Message {
        if let Ok(unboxed) = field_of(value->Some_0, wrapper->Some_0) {
            lemma_checks(s, checks, unboxed, 0);
        }
    }
}

proof fn lemma_programs<F: Formats, C: Engine, E>(
    s: Setting<F, C>,
    programs: ProgramSetV<C::Program>,
    this: ThisV<C::Frame>,
    i: int,
)
    requires
        !s.fast,
    ensures
        agrees::<E>(
            s.programs_from(programs, this, i),
            fast(s).programs_from(programs, this, i),
        ),
    decreases programs.rules.len() - i,
{
    if 0 <= i < programs.rules.len() {
        lemma_programs::<F, C, E>(s, programs, this, i + 1);
        assert(s.program::<E>(programs, this, i) == fast(s).program::<E>(programs, this, i));
        lemma_chain::<E>(
            s.program(programs, this, i),
            s.programs_from(programs, this, i + 1),
            fast(s).program(programs, this, i),
            fast(s).programs_from(programs, this, i + 1),
        );
    }
}

proof fn lemma_item<F: Formats, C: Engine, E>(
    s: Setting<F, C>,
    rules: ValueRulesV<C::Program>,
    field: FieldV,
    value: ValV<E>,
)
    requires
        !s.fast,
    ensures
        agrees(s.item(rules, field, value), fast(s).item(rules, field, value)),
{
    lemma_value_checks(s, rules.checks, rules.wrapper, Some(value));
    if let Some(programs) = rules.programs {
        assert forall|this: ThisV<C::Frame>|
            agrees::<E>(
                #[trigger] s.programs_from(programs, this, 0),
                fast(s).programs_from(programs, this, 0),
            ) by {
            lemma_programs::<F, C, E>(s, programs, this, 0);
        }
    }
    assert(agrees(s.item_cel(rules, field, value), fast(s).item_cel(rules, field, value)));
    lemma_chain(
        s.checks(rules.checks, rules.wrapper, Some(value)),
        s.item_cel(rules, field, value),
        fast(s).checks(rules.checks, rules.wrapper, Some(value)),
        fast(s).item_cel(rules, field, value),
    );
}

proof fn lemma_any<F: Formats, C: Engine, E>(
    s: Setting<F, C>,
    field: Option<FieldPathElementV>,
    value: Option<ValV<E>>,
    check: Option<AnyCheckV>,
)
    requires
        !s.fast,
    ensures
        agrees(s.any_of_value(field, value, check), fast(s).any_of_value(field, value, check)),
{
}

proof fn lemma_items<F: Formats, C: Engine, E>(
    s: Setting<F, C>,
    field: FieldEvaluatorV<C::Program>,
    items: ItemEvaluatorV<C::Program>,
    l: ValV<E>,
    i: int,
    n: int,
)
    requires
        !s.fast,
    ensures
        agrees(
            s.items_from(field, items, l, i, n),
            fast(s).items_from(field, items, l, i, n),
        ),
    decreases n - i,
{
    if i < n {
        lemma_items(s, field, items, l, i + 1, n);
        if let Ok(Some(value)) = item_of(l, i) {
            lemma_item(s, items.rules, field.field, value);
            lemma_any(s, None, Some(value), items.rules.any);
            lemma_chain(
                s.item(items.rules, field.field, value),
                s.any_of_value(None, Some(value), items.rules.any),
                fast(s).item(items.rules, field.field, value),
                fast(s).any_of_value(None, Some(value), items.rules.any),
            );
        }
        assert(agrees(s.list_item(field, items, l, i), fast(s).list_item(field, items, l, i)));
        lemma_chain(
            s.list_item(field, items, l, i),
            s.items_from(field, items, l, i + 1, n),
            fast(s).list_item(field, items, l, i),
            fast(s).items_from(field, items, l, i + 1, n),
        );
    }
}

proof fn lemma_entry_key<F: Formats, C: Engine, E>(
    s: Setting<F, C>,
    keys: Option<ItemEvaluatorV<C::Program>>,
    key: KeyV,
)
    requires
        !s.fast,
    ensures
        agrees::<E>(s.entry_key(keys, key), fast(s).entry_key(keys, key)),
{
    if let Some(keys) = keys {
        let value = Some(super::outcome::key_value::<E>(key));
        lemma_checks(s, keys.rules.checks, value, 0);
        let this = ThisV::Scalar(super::outcome::key_scalar(key));
        let cel: Out<E> = match keys.rules.programs {
            None => nothing(),
            Some(programs) => s.programs_from(programs, this, 0),
        };
        let fast_cel: Out<E> = match keys.rules.programs {
            None => nothing(),
            Some(programs) => fast(s).programs_from(programs, this, 0),
        };
        if let Some(programs) = keys.rules.programs {
            lemma_programs::<F, C, E>(s, programs, this, 0);
        }
        lemma_chain(
            s.checks_from(keys.rules.checks, value, 0),
            cel,
            fast(s).checks_from(keys.rules.checks, value, 0),
            fast_cel,
        );
    }
}

proof fn lemma_entry<F: Formats, C: Engine, E>(
    s: Setting<F, C>,
    field: FieldEvaluatorV<C::Program>,
    key: KeyV,
    value: ValV<E>,
)
    requires
        !s.fast,
    ensures
        agrees(s.entry(field, key, value), fast(s).entry(field, key, value)),
{
    lemma_entry_key::<F, C, E>(s, field.keys, key);
    if let Some(values) = field.values {
        lemma_item(s, values.rules, field.field, value);
    }
    assert(agrees(
        s.entry_value(field.values, field.field, value),
        fast(s).entry_value(field.values, field.field, value),
    ));
}

proof fn lemma_entries<F: Formats, C: Engine, E>(
    s: Setting<F, C>,
    field: FieldEvaluatorV<C::Program>,
    p: ValV<E>,
    i: int,
)
    requires
        !s.fast,
    ensures
        agrees(s.entries_from(field, p, i), fast(s).entries_from(field, p, i)),
    decreases usize::MAX - i,
{
    if i < usize::MAX {
        lemma_entries(s, field, p, i + 1);
        if let Ok(Some((key, value))) = entry_of(p, i) {
            lemma_entry(s, field, key, value);
            lemma_chain(
                s.entry(field, key, value),
                s.entries_from(field, p, i + 1),
                fast(s).entry(field, key, value),
                fast(s).entries_from(field, p, i + 1),
            );
        }
    }
}

proof fn lemma_field_rules<F: Formats, C: Engine, E>(
    s: Setting<F, C>,
    m: ValV<E>,
    name: Seq<char>,
    field: FieldEvaluatorV<C::Program>,
    value: Option<ValV<E>>,
)
    requires
        !s.fast,
    ensures
        agrees(
            s.field_rules(m, name, field, value),
            fast(s).field_rules(m, name, field, value),
        ),
{
    lemma_value_checks(s, field.rules.checks, field.rules.wrapper, value);
    assert(s.field_this(m, name, field, value) == fast(s).field_this(m, name, field, value));
    if let Some(programs) = field.rules.programs {
        if let Ok(this) = s.field_this(m, name, field, value) {
            lemma_programs::<F, C, E>(s, programs, this, 0);
        }
    }
    lemma_chain(
        s.checks(field.rules.checks, field.rules.wrapper, value),
        s.field_cel(m, name, field, value),
        fast(s).checks(field.rules.checks, field.rules.wrapper, value),
        fast(s).field_cel(m, name, field, value),
    );
}

proof fn lemma_field_items<F: Formats, C: Engine, E>(
    s: Setting<F, C>,
    field: FieldEvaluatorV<C::Program>,
    value: Option<ValV<E>>,
)
    requires
        !s.fast,
    ensures
        agrees(s.field_list(field, value), fast(s).field_list(field, value)),
        agrees(s.field_entries(field, value), fast(s).field_entries(field, value)),
{
    if value is Some && value->Some_0 is Mapping {
        lemma_entries(s, field, value->Some_0, 0);
    }
    if field.items is Some && value is Some && value->Some_0 is List {
        if let Ok(n) = len_of(value->Some_0) {
            lemma_items(s, field, field.items->Some_0, value->Some_0, 0, n as int);
        }
    }
}

proof fn lemma_field<F: Formats, C: Engine, E>(
    s: Setting<F, C>,
    m: ValV<E>,
    name: Seq<char>,
    field: FieldEvaluatorV<C::Program>,
)
    requires
        !s.fast,
    ensures
        agrees(s.field(m, name, field), fast(s).field(m, name, field)),
{
    if let Ok(value) = field_of(m, field.field) {
        let t = fast(s);
        lemma_field_rules(s, m, name, field, value);
        lemma_field_items(s, field, value);
        lemma_any(s, Some(field.element), value, field.rules.any);
        assert(s.absent(m, field, value) == t.absent(m, field, value));
        assert(s.defined_only(field, value) == t.defined_only(field, value));
        let items = chain(false, s.field_list(field, value), s.field_entries(field, value));
        let items_fast = chain(true, t.field_list(field, value), t.field_entries(field, value));
        lemma_chain(
            s.field_list(field, value),
            s.field_entries(field, value),
            t.field_list(field, value),
            t.field_entries(field, value),
        );
        lemma_chain(
            s.defined_only(field, value),
            items,
            t.defined_only(field, value),
            items_fast,
        );
        lemma_chain(
            s.field_rules(m, name, field, value),
            chain(false, s.defined_only(field, value), items),
            t.field_rules(m, name, field, value),
            chain(true, t.defined_only(field, value), items_fast),
        );
        let any = if field.shape is Singular {
            s.any_of_value(Some(field.element), value, field.rules.any)
        } else {
            nothing()
        };
        let any_fast = if field.shape is Singular {
            t.any_of_value(Some(field.element), value, field.rules.any)
        } else {
            nothing()
        };
        lemma_chain(
            any,
            s.present_field(m, name, field, value),
            any_fast,
            t.present_field(m, name, field, value),
        );
    }
}

proof fn lemma_fields<F: Formats, C: Engine, E>(
    s: Setting<F, C>,
    m: ValV<E>,
    name: Seq<char>,
    fields: Seq<FieldEvaluatorV<C::Program>>,
    i: int,
)
    requires
        !s.fast,
    ensures
        agrees(s.fields_from(m, name, fields, i), fast(s).fields_from(m, name, fields, i)),
    decreases fields.len() - i,
{
    if 0 <= i < fields.len() {
        lemma_fields(s, m, name, fields, i + 1);
        lemma_field(s, m, name, fields[i]);
        lemma_chain(
            s.field(m, name, fields[i]),
            s.fields_from(m, name, fields, i + 1),
            fast(s).field(m, name, fields[i]),
            fast(s).fields_from(m, name, fields, i + 1),
        );
    }
}

proof fn lemma_message_oneofs<F: Formats, C: Engine, E>(
    s: Setting<F, C>,
    m: ValV<E>,
    oneofs: Seq<MessageOneofV>,
    i: int,
)
    requires
        !s.fast,
    ensures
        agrees(s.message_oneofs_from(m, oneofs, i), fast(s).message_oneofs_from(m, oneofs, i)),
    decreases oneofs.len() - i,
{
    if 0 <= i < oneofs.len() {
        lemma_message_oneofs(s, m, oneofs, i + 1);
        assert(s.message_oneof(m, oneofs[i]) == fast(s).message_oneof(m, oneofs[i]));
        lemma_chain(
            s.message_oneof(m, oneofs[i]),
            s.message_oneofs_from(m, oneofs, i + 1),
            fast(s).message_oneof(m, oneofs[i]),
            fast(s).message_oneofs_from(m, oneofs, i + 1),
        );
    }
}

proof fn lemma_oneofs<F: Formats, C: Engine, E>(
    s: Setting<F, C>,
    m: ValV<E>,
    oneofs: Seq<OneofRequiredV>,
    i: int,
)
    requires
        !s.fast,
    ensures
        agrees(s.oneofs_from(m, oneofs, i), fast(s).oneofs_from(m, oneofs, i)),
    decreases oneofs.len() - i,
{
    if 0 <= i < oneofs.len() {
        lemma_oneofs(s, m, oneofs, i + 1);
        assert(s.oneof(m, oneofs[i]) == fast(s).oneof(m, oneofs[i]));
        lemma_chain(
            s.oneof(m, oneofs[i]),
            s.oneofs_from(m, oneofs, i + 1),
            fast(s).oneof(m, oneofs[i]),
            fast(s).oneofs_from(m, oneofs, i + 1),
        );
    }
}

proof fn lemma_message<F: Formats, C: Engine, E>(
    s: Setting<F, C>,
    m: ValV<E>,
    name: Seq<char>,
    evaluator: MessageEvaluatorV<C::Program>,
)
    requires
        !s.fast,
    ensures
        agrees(s.message(m, name, evaluator), fast(s).message(m, name, evaluator)),
    decreases m, 2nat, 0int,
{
    let t = fast(s);
    if let Some(programs) = evaluator.cel {
        if let Ok(frame) = super::outcome::frame_of(s.engine, name, m) {
            lemma_programs::<F, C, E>(s, programs, ThisV::Message(frame), 0);
        }
    }
    lemma_message_oneofs(s, m, evaluator.message_oneofs, 0);
    lemma_fields(s, m, name, evaluator.fields, 0);
    lemma_oneofs(s, m, evaluator.oneofs, 0);
    lemma_nested(s, m, evaluator.nested, 0);
    let nested = s.nested_from(m, evaluator.nested, 0);
    let nested_fast = t.nested_from(m, evaluator.nested, 0);
    let oneofs = s.oneofs_from(m, evaluator.oneofs, 0);
    let oneofs_fast = t.oneofs_from(m, evaluator.oneofs, 0);
    lemma_chain(oneofs, nested, oneofs_fast, nested_fast);
    let tail = chain(false, oneofs, nested);
    let tail_fast = chain(true, oneofs_fast, nested_fast);
    let fields = s.fields_from(m, name, evaluator.fields, 0);
    let fields_fast = t.fields_from(m, name, evaluator.fields, 0);
    lemma_chain(fields, tail, fields_fast, tail_fast);
    let tail = chain(false, fields, tail);
    let tail_fast = chain(true, fields_fast, tail_fast);
    let message_oneofs = s.message_oneofs_from(m, evaluator.message_oneofs, 0);
    let message_oneofs_fast = t.message_oneofs_from(m, evaluator.message_oneofs, 0);
    lemma_chain(message_oneofs, tail, message_oneofs_fast, tail_fast);
    let tail = chain(false, message_oneofs, tail);
    let tail_fast = chain(true, message_oneofs_fast, tail_fast);
    lemma_chain(
        s.message_cel(m, name, evaluator.cel),
        tail,
        t.message_cel(m, name, evaluator.cel),
        tail_fast,
    );
}

proof fn lemma_nested<F: Formats, C: Engine, E>(
    s: Setting<F, C>,
    m: ValV<E>,
    nested: Seq<NestedV>,
    i: int,
)
    requires
        !s.fast,
    ensures
        agrees(s.nested_from(m, nested, i), fast(s).nested_from(m, nested, i)),
    decreases m, 1nat, nested.len() - i,
{
    if 0 <= i < nested.len() {
        lemma_nested(s, m, nested, i + 1);
        lemma_nested_field(s, m, nested[i]);
        lemma_chain(
            s.nested_field(m, nested[i]),
            s.nested_from(m, nested, i + 1),
            fast(s).nested_field(m, nested[i]),
            fast(s).nested_from(m, nested, i + 1),
        );
    }
}

proof fn lemma_nested_field<F: Formats, C: Engine, E>(
    s: Setting<F, C>,
    m: ValV<E>,
    nested: NestedV,
)
    requires
        !s.fast,
    ensures
        agrees(s.nested_field(m, nested), fast(s).nested_field(m, nested)),
    decreases m, 0nat, 0int,
{
    assert(s.type_at(nested.message) == fast(s).type_at(nested.message));
    if m is Message {
        if let Ok(Some(value)) = field_of(m, nested.field) {
            lemma_get_smaller(m, nested.field);
            if s.evaluators.dom().contains(nested.message) {
                let evaluator = s.evaluators[nested.message];
                if let Some(name) = nested.field.message_type {
                    if value is Message {
                        lemma_message(s, value, name, evaluator);
                    }
                    if value is List {
                        if let Ok(n) = len_of(value) {
                            lemma_nested_items(
                                s,
                                value,
                                name,
                                evaluator,
                                nested.element,
                                0,
                                n as int,
                            );
                        }
                    }
                    if value is Mapping {
                        lemma_nested_entries(s, value, name, evaluator, nested.element, 0);
                    }
                }
            }
        }
    }
}

proof fn lemma_nested_items<F: Formats, C: Engine, E>(
    s: Setting<F, C>,
    l: ValV<E>,
    name: Seq<char>,
    evaluator: MessageEvaluatorV<C::Program>,
    element: FieldPathElementV,
    i: int,
    n: int,
)
    requires
        !s.fast,
    ensures
        agrees(
            s.nested_items_from(l, name, evaluator, element, i, n),
            fast(s).nested_items_from(l, name, evaluator, element, i, n),
        ),
    decreases l, 1nat, n - i,
{
    if i < n && l is List {
        lemma_nested_items(s, l, name, evaluator, element, i + 1, n);
        lemma_item_smaller(l, i);
        if let Ok(Some(sub)) = item_of(l, i) {
            if sub is Message {
                lemma_message(s, sub, name, evaluator);
            }
        }
    }
}

proof fn lemma_nested_entries<F: Formats, C: Engine, E>(
    s: Setting<F, C>,
    p: ValV<E>,
    name: Seq<char>,
    evaluator: MessageEvaluatorV<C::Program>,
    element: FieldPathElementV,
    i: int,
)
    requires
        !s.fast,
    ensures
        agrees(
            s.nested_entries_from(p, name, evaluator, element, i),
            fast(s).nested_entries_from(p, name, evaluator, element, i),
        ),
    decreases p, 1nat, usize::MAX - i,
{
    if i < usize::MAX && p is Mapping {
        lemma_nested_entries(s, p, name, evaluator, element, i + 1);
        lemma_value_smaller(p, i);
        if let Ok(Some((_, sub))) = entry_of(p, i) {
            if sub is Message {
                lemma_message(s, sub, name, evaluator);
            }
        }
        lemma_chain(
            s.nested_entry(p, name, evaluator, element, i),
            s.nested_entries_from(p, name, evaluator, element, i + 1),
            fast(s).nested_entry(p, name, evaluator, element, i),
            fast(s).nested_entries_from(p, name, evaluator, element, i + 1),
        );
    }
}

/// Failing fast reports a violation exactly when a full validation reports
/// one, and the one that the full validation reports first. Where the full
/// validation cannot be completed, failing fast does not report a valid
/// message either.
pub proof fn law_fail_fast_agrees<F: Formats, C: Engine, E>(
    s: Setting<F, C>,
    m: ValV<E>,
    name: Seq<char>,
    evaluator: MessageEvaluatorV<C::Program>,
)
    requires
        !s.fast,
    ensures
        agrees(s.validated(m, name, evaluator), fast(s).validated(m, name, evaluator)),
{
    lemma_message(s, m, name, evaluator);
}

/// A message whose type has no rules, and no message-typed fields, is valid.
pub proof fn law_no_rules_no_violations<F: Formats, C: Engine, E>(
    s: Setting<F, C>,
    m: ValV<E>,
    name: Seq<char>,
    evaluator: MessageEvaluatorV<C::Program>,
)
    requires
        evaluator.cel is None,
        evaluator.message_oneofs.len() == 0,
        evaluator.fields.len() == 0,
        evaluator.oneofs.len() == 0,
        evaluator.nested.len() == 0,
    ensures
        s.validated(m, name, evaluator) == nothing::<E>(),
{
    let none = Seq::<ViolationV>::empty();
    assert(none + none =~= none);
    assert(super::outcome::all_from_root(none) =~= none);
}

/// The element by which a message was reached stands before the path inside
/// it.
pub proof fn law_outer_elements_come_first(v: ViolationV, element: FieldPathElementV)
    ensures
        from_root(with_field(v, element)).field == Some(
            seq![element] + match from_root(v).field {
                Some(path) => path,
                None => Seq::empty(),
            },
        ),
{
    let inner = super::outcome::path_or_empty(v.field);
    assert(inner.push(element).reverse() =~= seq![element] + inner.reverse());
    if v.field is None {
        assert(inner.reverse() =~= Seq::empty());
    }
}

} // verus!
