//! What the parts of a walk find.

use super::location::{
    all_entries, element_at, element_of_key, first_step, found_below,
    law_messages_in_entries_are_named_by_key, lemma_found_below, lemma_parts,
};
use super::outcome::{
    chain, from_root, nothing, on_field, path_or_empty, subscripted, Out, Setting,
};
use super::presence::{in_shape, lemma_there, readable, there};
use super::standard::wellknown::Formats;
use super::standard::CheckV;
use super::{
    AnyCheckV, FieldEvaluatorV, ItemEvaluatorV, MessageEvaluatorV, MessageOneofV, NestedV,
    OneofRequiredV, ValueRulesV,
};
use crate::cel::Engine;
use crate::descriptors::any_url_field;
use crate::error::ErrorV;
use crate::protobuf::reads::item_of;
use crate::protobuf::{FieldV, KeyV, ValV};
use crate::validate::{FieldPathElementV, SubscriptV, ViolationV};
use vstd::prelude::*;

verus! {

/// Whether a violation is what breaking a check is reported as: under its id,
/// in its words, on its rule path, and on no field yet.
pub open spec fn reports(v: ViolationV, check: CheckV) -> bool {
    &&& v.rule_id == Some(check.id)
    &&& v.message == Some(check.message)
    &&& check.rule_path.len() > 0 ==> v.rule == Some(check.rule_path)
    &&& check.rule_path.len() == 0 ==> v.rule is None
    &&& v.field is None
    &&& v.for_key is None
}

/// Whether one of the checks is broken by the value, and reported as `v`.
pub open spec fn breaks<F: Formats, C: Engine, E>(
    s: Setting<F, C>,
    check: CheckV,
    value: Option<ValV<E>>,
    v: ViolationV,
) -> bool {
    check.test.broken_by::<F, E>(s.formats, s.now, value) == Ok::<bool, ErrorV<E>>(true)
        && reports(v, check)
}

proof fn lemma_checks_parts<F: Formats, C: Engine, E>(
    s: Setting<F, C>,
    checks: Seq<CheckV>,
    value: Option<ValV<E>>,
    k: int,
    v: ViolationV,
)
    requires
        0 <= k <= checks.len(),
        s.checks_from(checks, value, k) is Ok,
    ensures
        s.checks_from(checks, value, k)->Ok_0.contains(v) ==> exists|i: int|
            k <= i < checks.len() && breaks(s, #[trigger] checks[i], value, v),
        !s.fast ==> forall|i: int|
            k <= i < checks.len() && breaks(s, #[trigger] checks[i], value, v)
                ==> s.checks_from(checks, value, k)->Ok_0.contains(v),
    decreases checks.len() - k,
{
    if k < checks.len() {
        let here = s.check(checks[k], value);
        let later = s.checks_from(checks, value, k + 1);
        lemma_parts(s.fast, here, later, v);
        if later is Ok {
            lemma_checks_parts(s, checks, value, k + 1, v);
        }
        if breaks(s, checks[k], value, v) {
            assert(here->Ok_0[0] == v);
        }
    }
}

/// The violations of the standard rules are those that the value breaks: each
/// broken rule is reported under its id, in its words and on its rule path,
/// and nothing else is. A walk that stops at the first violation may leave
/// some out.
pub proof fn law_broken_checks_are_reported<F: Formats, C: Engine, E>(
    s: Setting<F, C>,
    checks: Seq<CheckV>,
    value: Option<ValV<E>>,
    v: ViolationV,
)
    requires
        s.checks(checks, None, value) is Ok,
    ensures
        s.checks(checks, None, value)->Ok_0.contains(v) ==> exists|i: int|
            0 <= i < checks.len() && breaks(s, #[trigger] checks[i], value, v),
        !s.fast ==> forall|i: int|
            0 <= i < checks.len() && breaks(s, #[trigger] checks[i], value, v) ==> s.checks(
                checks,
                None,
                value,
            )->Ok_0.contains(v),
{
    lemma_checks_parts(s, checks, value, 0, v);
}

proof fn lemma_no_checks_broken<F: Formats, C: Engine, E>(
    s: Setting<F, C>,
    checks: Seq<CheckV>,
    value: Option<ValV<E>>,
    k: int,
)
    requires
        0 <= k <= checks.len(),
        forall|i: int|
            0 <= i < checks.len() ==> (#[trigger] checks[i]).test.broken_by::<F, E>(
                s.formats,
                s.now,
                value,
            ) == Ok::<bool, ErrorV<E>>(false),
    ensures
        s.checks_from(checks, value, k) == nothing::<E>(),
    decreases checks.len() - k,
{
    if k < checks.len() {
        lemma_no_checks_broken(s, checks, value, k + 1);
        assert(Seq::<ViolationV>::empty() + Seq::<ViolationV>::empty() =~= Seq::empty());
    }
}

/// A value that breaks none of the standard rules is not reported.
pub proof fn law_kept_checks_report_nothing<F: Formats, C: Engine, E>(
    s: Setting<F, C>,
    checks: Seq<CheckV>,
    value: Option<ValV<E>>,
)
    requires
        forall|i: int|
            0 <= i < checks.len() ==> (#[trigger] checks[i]).test.broken_by::<F, E>(
                s.formats,
                s.now,
                value,
            ) == Ok::<bool, ErrorV<E>>(false),
    ensures
        s.checks(checks, None, value) matches Ok(found) && found.len() == 0,
{
    lemma_no_checks_broken(s, checks, value, 0);
}

/// A wrapper message is checked as the value in it, and one that is not there
/// as a value that is not.
pub proof fn law_wrappers_are_checked_by_their_value<F: Formats, C: Engine, E>(
    s: Setting<F, C>,
    checks: Seq<CheckV>,
    wrapper: FieldV,
    m: ValV<E>,
    value: Option<ValV<E>>,
)
    requires
        m is Message,
        (m->get)(wrapper) == value,
        !(value matches Some(v) && v is Failed),
    ensures
        s.checks(checks, Some(wrapper), Some(m)) == s.checks(checks, None, value),
        s.checks::<E>(checks, Some(wrapper), None) == s.checks::<E>(checks, None, None),
{
}

/// Whether a violation is another one, of rules that stand further down: the
/// same but for its rule path, which goes on with more elements.
pub open spec fn ruled_below(
    v: ViolationV,
    inner: ViolationV,
    prefix: Seq<FieldPathElementV>,
) -> bool {
    &&& v.rule == Some(path_or_empty(inner.rule) + prefix)
    &&& v.rule_id == inner.rule_id
    &&& v.message == inner.message
}

/// The violations of an element of a list are those of the element rules,
/// and of the `any` rules behind them, with the rules that hold them on their
/// rule paths.
pub proof fn law_elements_are_checked_by_their_rules<F: Formats, C: Engine, E>(
    s: Setting<F, C>,
    field: FieldEvaluatorV<C::Program>,
    items: ItemEvaluatorV<C::Program>,
    l: ValV<E>,
    i: int,
    value: ValV<E>,
)
    requires
        (l->item)(i) == Some(value),
        !(value is Failed),
        !items.rules.ignore_empty,
        items.rules.any is None,
    ensures
        match (s.item(items.rules, field.field, value), s.list_item(field, items, l, i)) {
            (Ok(inner), Ok(found)) => found.len() == inner.len() && forall|k: int|
                0 <= k < found.len() ==> ruled_below(
                    #[trigger] found[k],
                    inner[k],
                    items.rule_prefix,
                ),
            (Err(a), Err(b)) => a == b,
            _ => false,
        },
{
    if let Ok(inner) = s.item(items.rules, field.field, value) {
        assert(inner + Seq::<ViolationV>::empty() =~= inner);
    }
}

/// The violations of a map entry are those of its key, which are marked as
/// such, and then those of its value, which are not, each with the rules that
/// hold them on its rule path.
pub proof fn law_entries_are_checked_by_key_and_value<F: Formats, C: Engine, E>(
    s: Setting<F, C>,
    field: FieldEvaluatorV<C::Program>,
    keys: ItemEvaluatorV<C::Program>,
    values: ItemEvaluatorV<C::Program>,
    key: KeyV,
    value: ValV<E>,
    key_found: Seq<ViolationV>,
    value_found: Seq<ViolationV>,
)
    requires
        !s.fast,
        field.keys == Some(keys),
        field.values == Some(values),
        !keys.rules.ignore_empty,
        !values.rules.ignore_empty,
        keys.rules.programs is None,
        s.checks_from::<E>(
            keys.rules.checks,
            Some(super::outcome::key_value::<E>(key)),
            0,
        ) == Ok::<Seq<ViolationV>, ErrorV<E>>(key_found),
        s.item(values.rules, field.field, value) == Ok::<Seq<ViolationV>, ErrorV<E>>(value_found),
    ensures
        s.entry(field, key, value) matches Ok(found) && {
            &&& found.len() == key_found.len() + value_found.len()
            &&& forall|k: int|
                0 <= k < key_found.len() ==> ruled_below(
                    #[trigger] found[k],
                    key_found[k],
                    keys.rule_prefix,
                ) && found[k].for_key == Some(true)
            &&& forall|k: int|
                key_found.len() <= k < found.len() ==> ruled_below(
                    #[trigger] found[k],
                    value_found[k - key_found.len()],
                    values.rule_prefix,
                ) && found[k].for_key == value_found[k - key_found.len()].for_key
        },
{
    assert(key_found + Seq::<ViolationV>::empty() =~= key_found);
}

/// The type URL of an `Any`, where it can be read.
pub open spec fn url_of<E>(any: ValV<E>, url: Seq<char>) -> bool {
    any is Message && (any->get)(any_url_field()) == Some(ValV::<E>::String(url))
}

/// Whether a position of a list holds the text.
pub open spec fn holds(list: Seq<Seq<char>>, text: Seq<char>) -> bool {
    exists|i: int| 0 <= i < list.len() && #[trigger] list[i] == text
}

/// `any.in` is broken by a type URL that no position of a list that is not
/// empty holds, and `any.not_in` by one that some position holds. Each is
/// reported under its name, on the field, with its own rule path.
pub proof fn law_any_rules<F: Formats, C: Engine, E>(
    s: Setting<F, C>,
    field: Option<FieldPathElementV>,
    any: ValV<E>,
    check: AnyCheckV,
    url: Seq<char>,
)
    requires
        url_of(any, url),
        !s.fast,
    ensures
        ({
            let outside = check.in_list.len() > 0 && !holds(check.in_list, url);
            let inside = holds(check.not_in, url);
            let path = match field {
                Some(element) => Some(seq![element]),
                None => None,
            };
            let found = s.any_of_value(field, Some(any), Some(check))->Ok_0;
            &&& s.any_of_value(field, Some(any), Some(check)) is Ok
            &&& found.len() == (if outside {
                1nat
            } else {
                0nat
            }) + (if inside {
                1nat
            } else {
                0nat
            })
            &&& outside ==> found[0] == (ViolationV {
                field: path,
                rule: Some(seq![s.schema.any_in, s.schema.any]),
                rule_id: Some("any.in"@),
                message: Some("type URL must be in the allow list"@),
                for_key: None,
            })
            &&& inside ==> found.last() == (ViolationV {
                field: path,
                rule: Some(seq![s.schema.any_not_in, s.schema.any]),
                rule_id: Some("any.not_in"@),
                message: Some("type URL must not be in the block list"@),
                for_key: None,
            })
        }),
{
    assert(check.in_list.contains(url) == holds(check.in_list, url));
    assert(check.not_in.contains(url) == holds(check.not_in, url));
}

/// `enum.defined_only` is broken exactly by the numbers that the enum does
/// not define, and is reported on the field.
pub proof fn law_defined_only<F: Formats, C: Engine, E>(
    s: Setting<F, C>,
    field: FieldEvaluatorV<C::Program>,
    index: u64,
    number: i32,
)
    requires
        field.defined_only == Some(index),
        index < s.enums.len(),
    ensures
        ({
            let defined = exists|i: int|
                0 <= i < s.enums[index as int].len() && #[trigger] s.enums[index as int][i]
                    == number;
            let out: Out<E> = s.defined_only(field, Some(ValV::Enum(number)));
            &&& out is Ok
            &&& defined ==> out->Ok_0.len() == 0
            &&& !defined ==> out->Ok_0.len() == 1 && out->Ok_0[0] == (ViolationV {
                field: Some(seq![field.element]),
                rule: Some(seq![s.schema.enum_defined_only, s.schema.enumeration]),
                rule_id: Some("enum.defined_only"@),
                message: Some("value must be one of the defined enum values"@),
                for_key: None,
            })
        }),
{
}

/// Whether a part of a walk finds the violation.
pub open spec fn finds<E>(out: Out<E>, v: ViolationV) -> bool {
    out is Ok && out->Ok_0.contains(v)
}

/// Whether a part of a walk ends well and the whole keeps the violation, if
/// the part finds it.
pub open spec fn kept<E>(part: Out<E>, whole: Out<E>, v: ViolationV) -> bool {
    part is Ok && (part->Ok_0.contains(v) ==> finds(whole, v))
}

proof fn lemma_fields_parts<F: Formats, C: Engine, E>(
    s: Setting<F, C>,
    m: ValV<E>,
    name: Seq<char>,
    fields: Seq<FieldEvaluatorV<C::Program>>,
    k: int,
    v: ViolationV,
)
    requires
        0 <= k <= fields.len(),
        s.fields_from(m, name, fields, k) is Ok,
    ensures
        s.fields_from(m, name, fields, k)->Ok_0.contains(v) ==> exists|i: int|
            k <= i < fields.len() && finds(s.field(m, name, #[trigger] fields[i]), v),
        !s.fast ==> forall|i: int|
            k <= i < fields.len() ==> kept(s.field(m, name, #[trigger] fields[i]), s.fields_from(m, name, fields, k), v),
    decreases fields.len() - k,
{
    if k < fields.len() {
        let here = s.field(m, name, fields[k]);
        let later = s.fields_from(m, name, fields, k + 1);
        lemma_parts(s.fast, here, later, v);
        if here->Ok_0.contains(v) {
            assert(finds(s.field(m, name, fields[k]), v));
        }
        if later is Ok {
            lemma_fields_parts(s, m, name, fields, k + 1, v);
        }
    }
}

proof fn lemma_message_oneofs_parts<F: Formats, C: Engine, E>(
    s: Setting<F, C>,
    m: ValV<E>,
    oneofs: Seq<MessageOneofV>,
    k: int,
    v: ViolationV,
)
    requires
        0 <= k <= oneofs.len(),
        s.message_oneofs_from(m, oneofs, k) is Ok,
    ensures
        s.message_oneofs_from(m, oneofs, k)->Ok_0.contains(v) ==> exists|i: int|
            k <= i < oneofs.len() && finds(s.message_oneof(m, #[trigger] oneofs[i]), v),
        !s.fast ==> forall|i: int|
            k <= i < oneofs.len() ==> kept(s.message_oneof(m, #[trigger] oneofs[i]), s.message_oneofs_from(m, oneofs, k), v),
    decreases oneofs.len() - k,
{
    if k < oneofs.len() {
        let here = s.message_oneof(m, oneofs[k]);
        let later = s.message_oneofs_from(m, oneofs, k + 1);
        lemma_parts(s.fast, here, later, v);
        if here->Ok_0.contains(v) {
            assert(finds(s.message_oneof(m, oneofs[k]), v));
        }
        if later is Ok {
            lemma_message_oneofs_parts(s, m, oneofs, k + 1, v);
        }
    }
}

proof fn lemma_oneofs_parts<F: Formats, C: Engine, E>(
    s: Setting<F, C>,
    m: ValV<E>,
    oneofs: Seq<OneofRequiredV>,
    k: int,
    v: ViolationV,
)
    requires
        0 <= k <= oneofs.len(),
        s.oneofs_from(m, oneofs, k) is Ok,
    ensures
        s.oneofs_from(m, oneofs, k)->Ok_0.contains(v) ==> exists|i: int|
            k <= i < oneofs.len() && finds(s.oneof(m, #[trigger] oneofs[i]), v),
        !s.fast ==> forall|i: int|
            k <= i < oneofs.len() ==> kept(s.oneof(m, #[trigger] oneofs[i]), s.oneofs_from(m, oneofs, k), v),
    decreases oneofs.len() - k,
{
    if k < oneofs.len() {
        let here = s.oneof(m, oneofs[k]);
        let later = s.oneofs_from(m, oneofs, k + 1);
        lemma_parts(s.fast, here, later, v);
        if here->Ok_0.contains(v) {
            assert(finds(s.oneof(m, oneofs[k]), v));
        }
        if later is Ok {
            lemma_oneofs_parts(s, m, oneofs, k + 1, v);
        }
    }
}

proof fn lemma_nested_parts<F: Formats, C: Engine, E>(
    s: Setting<F, C>,
    m: ValV<E>,
    nested: Seq<NestedV>,
    k: int,
    v: ViolationV,
)
    requires
        0 <= k <= nested.len(),
        s.nested_from(m, nested, k) is Ok,
    ensures
        s.nested_from(m, nested, k)->Ok_0.contains(v) ==> exists|i: int|
            k <= i < nested.len() && finds(s.nested_field(m, #[trigger] nested[i]), v),
        !s.fast ==> forall|i: int|
            k <= i < nested.len() ==> kept(s.nested_field(m, #[trigger] nested[i]), s.nested_from(m, nested, k), v),
    decreases nested.len() - k,
{
    if k < nested.len() {
        let here = s.nested_field(m, nested[k]);
        let later = s.nested_from(m, nested, k + 1);
        lemma_parts(s.fast, here, later, v);
        if here->Ok_0.contains(v) {
            assert(finds(s.nested_field(m, nested[k]), v));
        }
        if later is Ok {
            lemma_nested_parts(s, m, nested, k + 1, v);
        }
    }
}

/// Whether a violation is found by one of the parts of the rules of a message
/// type: its custom rules, its message oneofs, its fields, its required
/// oneofs, or the messages that its fields hold.
pub open spec fn of_part<F: Formats, C: Engine, E>(
    s: Setting<F, C>,
    m: ValV<E>,
    name: Seq<char>,
    evaluator: MessageEvaluatorV<C::Program>,
    v: ViolationV,
) -> bool {
    ||| finds(s.message_cel(m, name, evaluator.cel), v)
    ||| exists|i: int|
        0 <= i < evaluator.message_oneofs.len() && finds(
            s.message_oneof(m, #[trigger] evaluator.message_oneofs[i]),
            v,
        )
    ||| exists|i: int|
        0 <= i < evaluator.fields.len() && finds(
            s.field(m, name, #[trigger] evaluator.fields[i]),
            v,
        )
    ||| exists|i: int|
        0 <= i < evaluator.oneofs.len() && finds(s.oneof(m, #[trigger] evaluator.oneofs[i]), v)
    ||| exists|i: int|
        0 <= i < evaluator.nested.len() && finds(
            s.nested_field(m, #[trigger] evaluator.nested[i]),
            v,
        )
}

/// What is found of a message is what the parts of its rules find: nothing
/// else, and, unless the walk stops at the first violation, all of it.
pub proof fn law_messages_are_walked_whole<F: Formats, C: Engine, E>(
    s: Setting<F, C>,
    m: ValV<E>,
    name: Seq<char>,
    evaluator: MessageEvaluatorV<C::Program>,
    v: ViolationV,
)
    requires
        s.message(m, name, evaluator) is Ok,
    ensures
        finds(s.message(m, name, evaluator), v) ==> of_part(s, m, name, evaluator, v),
        !s.fast ==> {
            let whole = s.message(m, name, evaluator);
            &&& kept(s.message_cel(m, name, evaluator.cel), whole, v)
            &&& forall|i: int|
                0 <= i < evaluator.message_oneofs.len() ==> kept(
                    s.message_oneof(m, #[trigger] evaluator.message_oneofs[i]),
                    whole,
                    v,
                )
            &&& forall|i: int|
                0 <= i < evaluator.fields.len() ==> kept(
                    s.field(m, name, #[trigger] evaluator.fields[i]),
                    whole,
                    v,
                )
            &&& forall|i: int|
                0 <= i < evaluator.oneofs.len() ==> kept(
                    s.oneof(m, #[trigger] evaluator.oneofs[i]),
                    whole,
                    v,
                )
            &&& forall|i: int|
                0 <= i < evaluator.nested.len() ==> kept(
                    s.nested_field(m, #[trigger] evaluator.nested[i]),
                    whole,
                    v,
                )
        },
{
    let cel = s.message_cel(m, name, evaluator.cel);
    let message_oneofs = s.message_oneofs_from(m, evaluator.message_oneofs, 0);
    let fields = s.fields_from(m, name, evaluator.fields, 0);
    let oneofs = s.oneofs_from(m, evaluator.oneofs, 0);
    let nested = s.nested_from(m, evaluator.nested, 0);
    let last = chain(s.fast, oneofs, nested);
    let third = chain(s.fast, fields, last);
    let second = chain(s.fast, message_oneofs, third);
    assert(s.message(m, name, evaluator) == chain(s.fast, cel, second));
    lemma_parts(s.fast, cel, second, v);
    if second is Ok {
        lemma_parts(s.fast, message_oneofs, third, v);
        lemma_message_oneofs_parts(s, m, evaluator.message_oneofs, 0, v);
        if third is Ok {
            lemma_parts(s.fast, fields, last, v);
            lemma_fields_parts(s, m, name, evaluator.fields, 0, v);
            if last is Ok {
                lemma_parts(s.fast, oneofs, nested, v);
                lemma_oneofs_parts(s, m, evaluator.oneofs, 0, v);
                if nested is Ok {
                    lemma_nested_parts(s, m, evaluator.nested, 0, v);
                }
            }
        }
    }
}

/// Whether a violation is found, one level further down than `inner`, below
/// the element of a list or map with that subscript.
pub open spec fn found_at(
    found: Seq<ViolationV>,
    inner: ViolationV,
    element: FieldPathElementV,
    subscript: SubscriptV,
) -> bool {
    exists|v: ViolationV|
        found.contains(v) && #[trigger] found_below(v, inner) && element_at(
            first_step(v),
            element,
            subscript,
        )
}

proof fn lemma_nested_items<F: Formats, C: Engine, E>(
    s: Setting<F, C>,
    l: ValV<E>,
    name: Seq<char>,
    evaluator: MessageEvaluatorV<C::Program>,
    element: FieldPathElementV,
    k: int,
    n: int,
    i: int,
    j: int,
)
    requires
        !s.fast,
        l is List,
        0 <= k <= i < n <= usize::MAX,
        (l->item)(i) matches Some(sub) && sub is Message,
        s.nested_items_from(l, name, evaluator, element, k, n) is Ok,
    ensures
        s.message((l->item)(i)->Some_0, name, evaluator) matches Ok(inner) && (0 <= j < inner.len()
            ==> found_at(
            s.nested_items_from(l, name, evaluator, element, k, n)->Ok_0,
            inner[j],
            element,
            SubscriptV::Index(i as u64),
        )),
    decreases i - k,
{
    let here: Out<E> = match item_of(l, k) {
        Err(e) => Err(e),
        Ok(None) => nothing(),
        Ok(Some(sub)) => if sub is Message {
            match s.message(sub, name, evaluator) {
                Err(e) => Err(e),
                Ok(found) => Ok(on_field(found, subscripted(element, SubscriptV::Index(k as u64)))),
            }
        } else {
            nothing()
        },
    };
    let later = s.nested_items_from(l, name, evaluator, element, k + 1, n);
    let whole = s.nested_items_from(l, name, evaluator, element, k, n);
    assert(whole == chain(s.fast, here, later));
    if k == i {
        let sub = (l->item)(i)->Some_0;
        let e = subscripted(element, SubscriptV::Index(k as u64));
        assert(s.message(sub, name, evaluator) is Ok);
        let inner = s.message(sub, name, evaluator)->Ok_0;
        if 0 <= j < inner.len() {
            let v = on_field(inner, e)[j];
            let path = path_or_empty(inner[j].field);
            assert(path.push(e).drop_last() =~= path);
            assert(found_below(v, inner[j]));
            assert(here->Ok_0[j] == v);
            assert(here->Ok_0.contains(v));
            lemma_parts(s.fast, here, later, v);
            assert(whole->Ok_0.contains(v));
        }
    } else {
        lemma_nested_items(s, l, name, evaluator, element, k + 1, n, i, j);
        let inner = s.message((l->item)(i)->Some_0, name, evaluator)->Ok_0;
        if 0 <= j < inner.len() {
            let v = choose|v: ViolationV|
                later->Ok_0.contains(v) && #[trigger] found_below(v, inner[j]) && element_at(
                    first_step(v),
                    element,
                    SubscriptV::Index(i as u64),
                );
            lemma_parts(s.fast, here, later, v);
            assert(whole->Ok_0.contains(v) && found_below(v, inner[j]));
        }
    }
}

/// Every message in a list is walked: what is wrong with it is found, on the
/// list's element with the position of the message, unless the walk stops at
/// the first violation.
pub proof fn law_every_message_of_a_list_is_walked<F: Formats, C: Engine, E>(
    s: Setting<F, C>,
    m: ValV<E>,
    nested: NestedV,
    l: ValV<E>,
    n: usize,
    name: Seq<char>,
    i: int,
    j: int,
)
    requires
        !s.fast,
        m is Message,
        nested.shape is List,
        (m->get)(nested.field) == Some(l),
        l is List,
        l->len == Ok::<usize, E>(n),
        0 <= i < n,
        (l->item)(i) matches Some(sub) && sub is Message,
        nested.field.message_type == Some(name),
        s.evaluators.dom().contains(nested.message),
        s.nested_field(m, nested) is Ok,
    ensures
        s.message((l->item)(i)->Some_0, name, s.evaluators[nested.message]) matches Ok(inner) && (0
            <= j < inner.len() ==> found_at(
            s.nested_field(m, nested)->Ok_0,
            inner[j],
            nested.element,
            SubscriptV::Index(i as u64),
        )),
{
    let evaluator = s.evaluators[nested.message];
    assert(s.nested_field(m, nested) == s.nested_items_from(
        l,
        name,
        evaluator,
        nested.element,
        0,
        n as int,
    ));
    lemma_nested_items(s, l, name, evaluator, nested.element, 0, n as int, i, j);
}

/// Whether a violation is found, one level further down than `inner`, below
/// the element of a map with a subscript that names the key.
pub open spec fn found_at_key(
    found: Seq<ViolationV>,
    inner: ViolationV,
    element: FieldPathElementV,
    key: KeyV,
) -> bool {
    exists|v: ViolationV|
        found.contains(v) && #[trigger] found_below(v, inner) && element_of_key(
            first_step(v),
            element,
            key,
        )
}

proof fn lemma_nested_entries<F: Formats, C: Engine, E>(
    s: Setting<F, C>,
    p: ValV<E>,
    name: Seq<char>,
    evaluator: MessageEvaluatorV<C::Program>,
    element: FieldPathElementV,
    n: int,
    k: int,
    i: int,
    j: int,
)
    requires
        !s.fast,
        all_entries(p, n),
        0 <= k <= i < n,
        (p->value)(i)->Some_0 is Message,
        s.nested_entries_from(p, name, evaluator, element, k) is Ok,
    ensures
        s.message((p->value)(i)->Some_0, name, evaluator) matches Ok(inner) && (0 <= j < inner.len()
            ==> found_at_key(
            s.nested_entries_from(p, name, evaluator, element, k)->Ok_0,
            inner[j],
            element,
            (p->key)(i),
        )),
    decreases i - k,
{
    assert((p->value)(k) is Some);
    assert((p->value)(i) is Some);
    let here = s.nested_entry(p, name, evaluator, element, k);
    let later = s.nested_entries_from(p, name, evaluator, element, k + 1);
    let whole = s.nested_entries_from(p, name, evaluator, element, k);
    assert(whole == chain(s.fast, here, later));
    if k == i {
        let sub = (p->value)(i)->Some_0;
        law_messages_in_entries_are_named_by_key(s, p, name, evaluator, element, i, sub);
        let inner = s.message(sub, name, evaluator)->Ok_0;
        if 0 <= j < inner.len() {
            let v = here->Ok_0[j];
            assert(found_below(v, inner[j]));
            assert(here->Ok_0.contains(v));
            lemma_parts(s.fast, here, later, v);
            assert(whole->Ok_0.contains(v));
        }
    } else {
        lemma_nested_entries(s, p, name, evaluator, element, n, k + 1, i, j);
        let inner = s.message((p->value)(i)->Some_0, name, evaluator)->Ok_0;
        if 0 <= j < inner.len() {
            let v = choose|v: ViolationV|
                later->Ok_0.contains(v) && #[trigger] found_below(v, inner[j]) && element_of_key(
                    first_step(v),
                    element,
                    (p->key)(i),
                );
            lemma_parts(s.fast, here, later, v);
            assert(whole->Ok_0.contains(v) && found_below(v, inner[j]));
        }
    }
}

/// Every message in a map is walked: what is wrong with it is found, on the
/// map's element with a subscript that names its key, unless the walk stops
/// at the first violation.
pub proof fn law_every_message_of_a_map_is_walked<F: Formats, C: Engine, E>(
    s: Setting<F, C>,
    m: ValV<E>,
    nested: NestedV,
    p: ValV<E>,
    n: int,
    name: Seq<char>,
    i: int,
    j: int,
)
    requires
        !s.fast,
        m is Message,
        nested.shape is Mapping,
        (m->get)(nested.field) == Some(p),
        all_entries(p, n),
        0 <= i < n,
        (p->value)(i)->Some_0 is Message,
        nested.field.message_type == Some(name),
        s.evaluators.dom().contains(nested.message),
        s.nested_field(m, nested) is Ok,
    ensures
        s.message((p->value)(i)->Some_0, name, s.evaluators[nested.message]) matches Ok(inner) && (0
            <= j < inner.len() ==> found_at_key(
            s.nested_field(m, nested)->Ok_0,
            inner[j],
            nested.element,
            (p->key)(i),
        )),
{
    let evaluator = s.evaluators[nested.message];
    assert(s.nested_field(m, nested) == s.nested_entries_from(
        p,
        name,
        evaluator,
        nested.element,
        0,
    ));
    lemma_nested_entries(s, p, name, evaluator, nested.element, n, 0, i, j);
}

/// What is reported of a message is what was found, in the same order, with
/// the paths from the root down.
pub proof fn law_reports_turn_paths_round<F: Formats, C: Engine, E>(
    s: Setting<F, C>,
    m: ValV<E>,
    name: Seq<char>,
    evaluator: MessageEvaluatorV<C::Program>,
)
    ensures
        match (s.message(m, name, evaluator), s.validated(m, name, evaluator)) {
            (Ok(found), Ok(reported)) => reported.len() == found.len() && forall|i: int|
                0 <= i < found.len() ==> turned_round(#[trigger] reported[i], found[i]),
            (Err(a), Err(b)) => a == b,
            _ => false,
        },
{
    if let Ok(found) = s.message(m, name, evaluator) {
        assert forall|i: int| 0 <= i < found.len() implies turned_round(
            from_root(#[trigger] found[i]),
            found[i],
        ) by {}
    }
}

/// Whether a path is another one the other way round.
pub open spec fn other_way(
    a: Option<Seq<FieldPathElementV>>,
    b: Option<Seq<FieldPathElementV>>,
) -> bool {
    match (a, b) {
        (Some(a), Some(b)) => a.len() == b.len() && forall|i: int|
            0 <= i < a.len() ==> #[trigger] a[i] == b[b.len() - 1 - i],
        (None, None) => true,
        _ => false,
    }
}

/// Whether a violation is another one with both paths the other way round.
pub open spec fn turned_round(v: ViolationV, found: ViolationV) -> bool {
    &&& other_way(v.field, found.field)
    &&& other_way(v.rule, found.rule)
    &&& v.rule_id == found.rule_id
    &&& v.message == found.message
    &&& v.for_key == found.for_key
}

/// What is found of a field that is set is what the parts of its rules find:
/// its `any` rules, where it holds one value, its own checks and custom
/// rules, `defined_only`, and the rules of its elements or entries.
pub proof fn law_fields_are_walked_whole<F: Formats, C: Engine, E>(
    s: Setting<F, C>,
    m: ValV<E>,
    name: Seq<char>,
    field: FieldEvaluatorV<C::Program>,
    v: ViolationV,
)
    requires
        readable(m, field.field),
        there(m, field),
        (m->get)(field.field) matches Some(value) ==> in_shape(value, field.shape),
        s.field(m, name, field) is Ok,
    ensures
        ({
            let value = (m->get)(field.field);
            let whole = s.field(m, name, field);
            let any = s.any_of_value(Some(field.element), value, field.rules.any);
            let rules = s.field_rules(m, name, field, value);
            let defined = s.defined_only(field, value);
            let items = s.field_list(field, value);
            let entries = s.field_entries(field, value);
            &&& finds(whole, v) ==> (field.shape is Singular && finds(any, v)) || finds(rules, v)
                || finds(defined, v) || finds(items, v) || finds(entries, v)
            &&& !s.fast ==> {
                &&& field.shape is Singular ==> kept(any, whole, v)
                &&& kept(rules, whole, v)
                &&& kept(defined, whole, v)
                &&& kept(items, whole, v)
                &&& kept(entries, whole, v)
            }
        }),
{
    let value = (m->get)(field.field);
    lemma_there(s, m, field);
    let any: Out<E> = if field.shape is Singular {
        s.any_of_value(Some(field.element), value, field.rules.any)
    } else {
        nothing()
    };
    let rules = s.field_rules(m, name, field, value);
    let defined = s.defined_only(field, value);
    let items = s.field_list(field, value);
    let entries = s.field_entries(field, value);
    let third = chain(s.fast, items, entries);
    let second = chain(s.fast, defined, third);
    let first = chain(s.fast, rules, second);
    assert(s.field(m, name, field) == chain(s.fast, any, first));
    lemma_parts(s.fast, any, first, v);
    if first is Ok {
        lemma_parts(s.fast, rules, second, v);
        if second is Ok {
            lemma_parts(s.fast, defined, third, v);
            if third is Ok {
                lemma_parts(s.fast, items, entries, v);
            }
        }
    }
}

/// The violations of a value's own rules are those of its standard rules and
/// those of its custom ones.
pub proof fn law_values_are_checked_whole<F: Formats, C: Engine, E>(
    s: Setting<F, C>,
    m: ValV<E>,
    name: Seq<char>,
    field: FieldEvaluatorV<C::Program>,
    value: Option<ValV<E>>,
    v: ViolationV,
)
    requires
        s.field_rules(m, name, field, value) is Ok,
    ensures
        ({
            let checks = s.checks(field.rules.checks, field.rules.wrapper, value);
            let cel = s.field_cel(m, name, field, value);
            let found = s.field_rules(m, name, field, value)->Ok_0;
            &&& found.contains(v) ==> exists|inner: ViolationV|
                (finds(checks, inner) || finds(cel, inner)) && #[trigger] found_below(v, inner)
                    && first_step(v) == field.element
            &&& !s.fast && (finds(checks, v) || finds(cel, v)) ==> exists|outer: ViolationV|
                found.contains(outer) && #[trigger] found_below(outer, v) && first_step(outer)
                    == field.element
            &&& !s.fast ==> checks is Ok && cel is Ok
        }),
{
    let checks = s.checks(field.rules.checks, field.rules.wrapper, value);
    let cel = s.field_cel(m, name, field, value);
    let both = chain(s.fast, checks, cel);
    let inner = both->Ok_0;
    let found = s.field_rules(m, name, field, value)->Ok_0;
    assert(found == on_field(inner, field.element));
    lemma_found_below(inner, field.element);
    lemma_parts(s.fast, checks, cel, v);
    if found.contains(v) {
        let i = choose|i: int| 0 <= i < found.len() && found[i] == v;
        lemma_parts(s.fast, checks, cel, inner[i]);
        assert(inner.contains(inner[i]));
        assert(found_below(v, inner[i]));
    }
    if !s.fast && (finds(checks, v) || finds(cel, v)) {
        let i = choose|i: int| 0 <= i < inner.len() && inner[i] == v;
        assert(found.contains(found[i]));
        assert(found_below(found[i], v));
    }
}

/// The violations of an element or a map value are those of its standard
/// rules and those of its custom ones.
pub proof fn law_items_are_checked_whole<F: Formats, C: Engine, E>(
    s: Setting<F, C>,
    rules: ValueRulesV<C::Program>,
    field: FieldV,
    value: ValV<E>,
    v: ViolationV,
)
    requires
        s.item(rules, field, value) is Ok,
    ensures
        ({
            let checks = s.checks(rules.checks, rules.wrapper, Some(value));
            let cel = s.item_cel(rules, field, value);
            let whole = s.item(rules, field, value);
            &&& finds(whole, v) ==> finds(checks, v) || finds(cel, v)
            &&& !s.fast ==> kept(checks, whole, v) && kept(cel, whole, v)
        }),
{
    lemma_parts(
        s.fast,
        s.checks(rules.checks, rules.wrapper, Some(value)),
        s.item_cel(rules, field, value),
        v,
    );
}

/// An `Any` without a type URL is checked as one with an empty URL.
pub proof fn law_any_without_a_url<F: Formats, C: Engine, E>(
    s: Setting<F, C>,
    field: Option<FieldPathElementV>,
    bare: ValV<E>,
    empty: ValV<E>,
    check: AnyCheckV,
)
    requires
        bare is Message,
        (bare->get)(any_url_field()) is None,
        url_of(empty, Seq::empty()),
    ensures
        s.any_of_value(field, Some(bare), Some(check)) == s.any_of_value(
            field,
            Some(empty),
            Some(check),
        ),
{
}

/// The `any` rules of the elements of a list are tried on each element, and
/// reported below the rules of the list.
pub proof fn law_any_rules_of_elements<F: Formats, C: Engine, E>(
    s: Setting<F, C>,
    field: FieldEvaluatorV<C::Program>,
    items: ItemEvaluatorV<C::Program>,
    l: ValV<E>,
    i: int,
    value: ValV<E>,
    check: AnyCheckV,
)
    requires
        (l->item)(i) == Some(value),
        value is Message,
        !items.rules.ignore_empty,
        items.rules.any == Some(check),
        items.rules.checks.len() == 0,
        items.rules.wrapper is None,
        items.rules.programs is None,
    ensures
        match (
            s.any_of_value(None, Some(value), Some(check)),
            s.list_item(field, items, l, i),
        ) {
            (Ok(inner), Ok(found)) => found.len() == inner.len() && forall|k: int|
                0 <= k < found.len() ==> ruled_below(
                    #[trigger] found[k],
                    inner[k],
                    items.rule_prefix,
                ),
            (Err(a), Err(b)) => a == b,
            _ => false,
        },
{
    assert(s.item(items.rules, field.field, value) is Ok);
    assert(s.item(items.rules, field.field, value)->Ok_0 =~= Seq::<ViolationV>::empty());
    if let Ok(inner) = s.any_of_value(None, Some(value), Some(check)) {
        assert(Seq::<ViolationV>::empty() + inner =~= inner);
    }
}

/// A message that is met without its rules is not expected, and told by the
/// name of its type.
pub proof fn law_missing_rules_are_unexpected<F: Formats, C: Engine, E>(
    s: Setting<F, C>,
    m: ValV<E>,
    nested: NestedV,
    sub: ValV<E>,
)
    requires
        (m->get)(nested.field) == Some(sub),
        !(sub is Failed),
        nested.shape is Singular ==> (m->has)(nested.field) == Ok::<bool, E>(true),
        !s.evaluators.dom().contains(nested.message),
        nested.message < s.types.len(),
    ensures
        s.nested_field(m, nested) == Err::<Seq<ViolationV>, ErrorV<E>>(
            ErrorV::Unexpected(
                "rules not loaded for message: "@ + s.types[nested.message as int],
            ),
        ),
{
}

} // verus!
