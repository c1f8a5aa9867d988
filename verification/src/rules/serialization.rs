//! When a message is serialized, and when how it is makes no difference.

use super::outcome::{field_set, value_scalar, value_set, zero_item, Setting};
use super::standard::wellknown::Formats;
use super::standard::{
    all_elements, elements, mask_paths, nanoseconds, repeats, strings_among, value_keys, CheckV,
};
use super::{
    AnyCheckV, FieldEvaluatorV, ItemEvaluatorV, MessageEvaluatorV, MessageOneofV, NestedV,
    OneofRequiredV, ValueRulesV,
};
use crate::cel::Engine;
use crate::descriptors::{any_url_field, nanos_field, paths_field, seconds_field};
use crate::error::ErrorV;
use crate::protobuf::reads::{entry_of, field_of, item_of, len_of, presence_of, size_of};
use crate::protobuf::{
    lemma_get_smaller, lemma_item_smaller, lemma_value_smaller, FieldV, KeyV, ValV,
};
use crate::validate::FieldPathElementV;
use vstd::prelude::*;

verus! {

/// Whether two values read the same down to a depth, but for how the messages
/// among them are serialized.
pub open spec fn alike<E>(a: ValV<E>, b: ValV<E>, depth: nat) -> bool
    decreases depth, 0nat,
{
    if depth == 0 {
        true
    } else if a is Message && b is Message {
        forall|f: FieldV|
            {
                &&& presence_of(a, f) == presence_of(b, f)
                &&& alike_reads(
                    #[trigger] field_of(a, f),
                    #[trigger] field_of(b, f),
                    (depth - 1) as nat,
                )
            }
    } else if a is List && b is List {
        &&& len_of(a) == len_of(b)
        &&& forall|i: int|
            alike_reads(#[trigger] item_of(a, i), #[trigger] item_of(b, i), (depth - 1) as nat)
    } else if a is Mapping && b is Mapping {
        &&& size_of(a) == size_of(b)
        &&& forall|i: int|
            alike_entries(
                #[trigger] entry_of(a, i),
                #[trigger] entry_of(b, i),
                (depth - 1) as nat,
            )
    } else {
        a == b
    }
}

/// Whether two reads of a value give the same, as [`alike`] has it.
pub open spec fn alike_reads<E>(
    a: Result<Option<ValV<E>>, ErrorV<E>>,
    b: Result<Option<ValV<E>>, ErrorV<E>>,
    depth: nat,
) -> bool
    decreases depth, 1nat,
{
    match (a, b) {
        (Ok(Some(x)), Ok(Some(y))) => alike(x, y, depth),
        (Ok(Some(_)), _) => false,
        (_, Ok(Some(_))) => false,
        _ => a == b,
    }
}

/// Whether two reads of an entry give the same, as [`alike`] has it.
pub open spec fn alike_entries<E>(
    a: Result<Option<(KeyV, ValV<E>)>, ErrorV<E>>,
    b: Result<Option<(KeyV, ValV<E>)>, ErrorV<E>>,
    depth: nat,
) -> bool
    decreases depth, 1nat,
{
    match (a, b) {
        (Ok(Some((k, x))), Ok(Some((l, y)))) => k == l && alike(x, y, depth),
        (Ok(Some(_)), _) => false,
        (_, Ok(Some(_))) => false,
        _ => a == b,
    }
}

/// Whether two values read the same, at any depth, but for how the messages
/// among them are serialized.
#[verifier::opaque]
pub open spec fn same_but_serialized<E>(a: ValV<E>, b: ValV<E>) -> bool {
    forall|depth: nat| #[trigger] alike(a, b, depth)
}

/// Whether two values that may be there are the same, as
/// [`same_but_serialized`] has it.
spec fn same_values<E>(a: Option<ValV<E>>, b: Option<ValV<E>>) -> bool {
    match (a, b) {
        (Some(x), Some(y)) => same_but_serialized(x, y),
        (None, None) => true,
        _ => false,
    }
}

/// Whether two reads give the same.
spec fn same_reads<E>(
    a: Result<Option<ValV<E>>, ErrorV<E>>,
    b: Result<Option<ValV<E>>, ErrorV<E>>,
) -> bool {
    match (a, b) {
        (Ok(x), Ok(y)) => same_values(x, y),
        (Err(d), Err(e)) => d == e,
        _ => false,
    }
}

/// Whether two reads of an entry give the same.
spec fn same_entries<E>(
    a: Result<Option<(KeyV, ValV<E>)>, ErrorV<E>>,
    b: Result<Option<(KeyV, ValV<E>)>, ErrorV<E>>,
) -> bool {
    match (a, b) {
        (Ok(Some((k, x))), Ok(Some((l, y)))) => k == l && same_but_serialized(x, y),
        (Ok(None), Ok(None)) => true,
        (Err(d), Err(e)) => d == e,
        _ => false,
    }
}

/// Values that read the same are of one kind, and scalars are equal.
proof fn lemma_kind<E>(a: ValV<E>, b: ValV<E>)
    requires
        same_but_serialized(a, b),
    ensures
        a is Message <==> b is Message,
        a is List <==> b is List,
        a is Mapping <==> b is Mapping,
        !(a is Message) && !(a is List) && !(a is Mapping) ==> a == b,
{
    reveal(same_but_serialized);
    assert(alike(a, b, 1));
}

/// The fields of messages that read the same do.
proof fn lemma_field_same<E>(a: ValV<E>, b: ValV<E>, f: FieldV)
    requires
        same_but_serialized(a, b),
        a is Message,
    ensures
        b is Message,
        presence_of(a, f) == presence_of(b, f),
        same_reads(field_of(a, f), field_of(b, f)),
{
    reveal(same_but_serialized);
    lemma_kind(a, b);
    let x = field_of(a, f);
    let y = field_of(b, f);
    assert forall|depth: nat| #[trigger] alike_reads(x, y, depth) by {
        assert(alike(a, b, depth + 1));
        assert((depth + 1 - 1) as nat == depth);
    }
    assert(alike(a, b, 1));
    assert(alike_reads(x, y, 0));
    if let (Ok(Some(u)), Ok(Some(v))) = (x, y) {
        assert forall|depth: nat| #[trigger] alike(u, v, depth) by {
            assert(alike_reads(x, y, depth));
        }
    }
}

/// The elements of lists that read the same do.
proof fn lemma_item_same<E>(a: ValV<E>, b: ValV<E>, i: int)
    requires
        same_but_serialized(a, b),
        a is List,
    ensures
        b is List,
        len_of(a) == len_of(b),
        same_reads(item_of(a, i), item_of(b, i)),
{
    reveal(same_but_serialized);
    lemma_kind(a, b);
    let x = item_of(a, i);
    let y = item_of(b, i);
    assert forall|depth: nat| #[trigger] alike_reads(x, y, depth) by {
        assert(alike(a, b, depth + 1));
        assert((depth + 1 - 1) as nat == depth);
    }
    assert(alike(a, b, 1));
    assert(alike_reads(x, y, 0));
    if let (Ok(Some(u)), Ok(Some(v))) = (x, y) {
        assert forall|depth: nat| #[trigger] alike(u, v, depth) by {
            assert(alike_reads(x, y, depth));
        }
    }
}

/// The entries of maps that read the same do.
proof fn lemma_entry_same<E>(a: ValV<E>, b: ValV<E>, i: int)
    requires
        same_but_serialized(a, b),
        a is Mapping,
    ensures
        b is Mapping,
        size_of(a) == size_of(b),
        same_entries(entry_of(a, i), entry_of(b, i)),
{
    reveal(same_but_serialized);
    lemma_kind(a, b);
    let x = entry_of(a, i);
    let y = entry_of(b, i);
    assert forall|depth: nat| #[trigger] alike_entries(x, y, depth) by {
        assert(alike(a, b, depth + 1));
        assert((depth + 1 - 1) as nat == depth);
    }
    assert(alike(a, b, 1));
    assert(alike_entries(x, y, 0));
    if let (Ok(Some((_, u))), Ok(Some((_, v)))) = (x, y) {
        assert forall|depth: nat| #[trigger] alike(u, v, depth) by {
            assert(alike_entries(x, y, depth));
        }
    }
}

/// Whether sequences of values are the same.
spec fn same_seqs<E>(a: Seq<ValV<E>>, b: Seq<ValV<E>>) -> bool {
    a.len() == b.len() && forall|i: int|
        0 <= i < a.len() ==> same_but_serialized(#[trigger] a[i], #[trigger] b[i])
}

proof fn lemma_elements_same<E>(a: ValV<E>, b: ValV<E>, n: nat)
    requires
        same_but_serialized(a, b),
        a is List,
    ensures
        match (elements(a, n), elements(b, n)) {
            (Ok(x), Ok(y)) => same_seqs(x, y),
            (Err(d), Err(e)) => d == e,
            _ => false,
        },
    decreases n,
{
    if n > 0 {
        lemma_elements_same(a, b, (n - 1) as nat);
        lemma_item_same(a, b, n - 1);
    }
}

proof fn lemma_all_elements_same<E>(a: ValV<E>, b: ValV<E>)
    requires
        same_but_serialized(a, b),
        a is List,
    ensures
        match (all_elements(a), all_elements(b)) {
            (Ok(x), Ok(y)) => same_seqs(x, y),
            (Err(d), Err(e)) => d == e,
            _ => false,
        },
{
    lemma_item_same(a, b, 0);
    if let Ok(n) = len_of(a) {
        lemma_elements_same(a, b, n as nat);
    }
}

proof fn lemma_repeats_same<E>(a: ValV<E>, b: ValV<E>)
    requires
        same_but_serialized(a, b),
        a is List,
    ensures
        repeats(a) == repeats(b),
{
    lemma_all_elements_same(a, b);
    if let (Ok(x), Ok(y)) = (all_elements(a), all_elements(b)) {
        assert forall|i: int| 0 <= i < x.len() implies #[trigger] value_keys(x)[i] == value_keys(
            y,
        )[i] by {
            lemma_kind(x[i], y[i]);
        }
        assert(value_keys(x) =~= value_keys(y));
    }
}

proof fn lemma_strings_same<E>(a: Seq<ValV<E>>, b: Seq<ValV<E>>)
    requires
        same_seqs(a, b),
    ensures
        strings_among(a) == strings_among(b),
    decreases a.len(),
{
    if a.len() > 0 {
        lemma_kind(a.last(), b.last());
        assert(same_seqs(a.drop_last(), b.drop_last()));
        lemma_strings_same(a.drop_last(), b.drop_last());
    }
}

proof fn lemma_nanoseconds_same<E>(a: ValV<E>, b: ValV<E>)
    requires
        same_but_serialized(a, b),
    ensures
        nanoseconds(Some(a)) == nanoseconds(Some(b)),
{
    lemma_kind(a, b);
    if a is Message {
        lemma_field_same(a, b, seconds_field());
        lemma_field_same(a, b, nanos_field());
        if let (Ok(Some(x)), Ok(Some(y))) = (
            field_of(a, seconds_field()),
            field_of(b, seconds_field()),
        ) {
            lemma_kind(x, y);
        }
        if let (Ok(Some(x)), Ok(Some(y))) = (
            field_of(a, nanos_field()),
            field_of(b, nanos_field()),
        ) {
            lemma_kind(x, y);
        }
    }
}

proof fn lemma_paths_same<E>(a: ValV<E>, b: ValV<E>)
    requires
        same_but_serialized(a, b),
    ensures
        mask_paths(Some(a)) == mask_paths(Some(b)),
{
    lemma_kind(a, b);
    if a is Message {
        lemma_field_same(a, b, paths_field());
        if let (Ok(Some(x)), Ok(Some(y))) = (
            field_of(a, paths_field()),
            field_of(b, paths_field()),
        ) {
            lemma_kind(x, y);
            if x is List {
                lemma_all_elements_same(x, y);
                if let (Ok(u), Ok(v)) = (all_elements(x), all_elements(y)) {
                    lemma_strings_same(u, v);
                }
            }
        }
    }
}

proof fn lemma_check_same<F: Formats, C: Engine, E>(
    s: Setting<F, C>,
    check: CheckV,
    a: Option<ValV<E>>,
    b: Option<ValV<E>>,
)
    requires
        same_values(a, b),
    ensures
        s.check(check, a) == s.check(check, b),
{
    if let (Some(x), Some(y)) = (a, b) {
        lemma_kind(x, y);
        lemma_nanoseconds_same(x, y);
        lemma_paths_same(x, y);
        if x is List {
            lemma_item_same(x, y, 0);
            lemma_repeats_same(x, y);
        }
        if x is Mapping {
            lemma_entry_same(x, y, 0);
        }
    }
}

proof fn lemma_checks_same<F: Formats, C: Engine, E>(
    s: Setting<F, C>,
    checks: Seq<CheckV>,
    a: Option<ValV<E>>,
    b: Option<ValV<E>>,
    i: int,
)
    requires
        same_values(a, b),
    ensures
        s.checks_from(checks, a, i) == s.checks_from(checks, b, i),
    decreases checks.len() - i,
{
    if 0 <= i < checks.len() {
        lemma_check_same(s, checks[i], a, b);
        lemma_checks_same(s, checks, a, b, i + 1);
    }
}

proof fn lemma_value_checks_same<F: Formats, C: Engine, E>(
    s: Setting<F, C>,
    checks: Seq<CheckV>,
    wrapper: Option<FieldV>,
    a: Option<ValV<E>>,
    b: Option<ValV<E>>,
)
    requires
        same_values(a, b),
    ensures
        s.checks(checks, wrapper, a) == s.checks(checks, wrapper, b),
{
    lemma_checks_same(s, checks, a, b, 0);
    if let (Some(x), Some(y)) = (a, b) {
        lemma_kind(x, y);
        if wrapper is Some && x is Message {
            lemma_field_same(x, y, wrapper->Some_0);
            if let (Ok(u), Ok(v)) = (
                field_of(x, wrapper->Some_0),
                field_of(y, wrapper->Some_0),
            ) {
                lemma_checks_same(s, checks, u, v, 0);
            }
        }
    }
}

proof fn lemma_scalar_same<E>(a: Option<ValV<E>>, b: Option<ValV<E>>, kind: super::ScalarKind)
    requires
        same_values(a, b),
    ensures
        value_scalar(a, kind) == value_scalar(b, kind),
{
    if let (Some(x), Some(y)) = (a, b) {
        lemma_kind(x, y);
    }
}

/// Whether the custom rules of a value bind scalars alone to `this`.
pub open spec fn binds_scalars<P>(rules: ValueRulesV<P>) -> bool {
    rules.programs is Some ==> rules.scalar is Some
}

/// Whether the rules of a field bind no message to `this`, be it the one that
/// has the field or one in it.
pub open spec fn binds_no_message<P>(field: FieldEvaluatorV<P>) -> bool {
    &&& !binds_message(field)
    &&& field.items matches Some(items) ==> binds_scalars(items.rules)
    &&& field.values matches Some(values) ==> binds_scalars(values.rules)
}

/// Whether the rules of a message type bind no message to `this`.
pub open spec fn needs_no_frame<P>(evaluator: MessageEvaluatorV<P>) -> bool {
    &&& evaluator.cel is None
    &&& forall|i: int|
        0 <= i < evaluator.fields.len() ==> binds_no_message(#[trigger] evaluator.fields[i])
}

proof fn lemma_item_rules_same<F: Formats, C: Engine, E>(
    s: Setting<F, C>,
    rules: ValueRulesV<C::Program>,
    field: FieldV,
    a: ValV<E>,
    b: ValV<E>,
)
    requires
        same_but_serialized(a, b),
        binds_scalars(rules),
    ensures
        s.item(rules, field, a) == s.item(rules, field, b),
        zero_item(a) == zero_item(b),
{
    lemma_kind(a, b);
    lemma_value_checks_same(s, rules.checks, rules.wrapper, Some(a), Some(b));
    if let Some(kind) = rules.scalar {
        lemma_scalar_same(Some(a), Some(b), kind);
    }
    assert(s.item_cel(rules, field, a) == s.item_cel(rules, field, b));
}

proof fn lemma_any_same<F: Formats, C: Engine, E>(
    s: Setting<F, C>,
    field: Option<FieldPathElementV>,
    a: Option<ValV<E>>,
    b: Option<ValV<E>>,
    check: Option<AnyCheckV>,
)
    requires
        same_values(a, b),
    ensures
        s.any_of_value(field, a, check) == s.any_of_value(field, b, check),
{
    if let (Some(x), Some(y)) = (a, b) {
        lemma_kind(x, y);
        if x is Message {
            lemma_field_same(x, y, any_url_field());
            if let (Ok(Some(u)), Ok(Some(v))) = (
                field_of(x, any_url_field()),
                field_of(y, any_url_field()),
            ) {
                lemma_kind(u, v);
            }
        }
    }
}

proof fn lemma_items_same<F: Formats, C: Engine, E>(
    s: Setting<F, C>,
    field: FieldEvaluatorV<C::Program>,
    items: ItemEvaluatorV<C::Program>,
    a: ValV<E>,
    b: ValV<E>,
    i: int,
    n: int,
)
    requires
        same_but_serialized(a, b),
        a is List,
        binds_scalars(items.rules),
    ensures
        s.items_from(field, items, a, i, n) == s.items_from(field, items, b, i, n),
    decreases n - i,
{
    if i < n {
        lemma_items_same(s, field, items, a, b, i + 1, n);
        lemma_item_same(a, b, i);
        if let (Ok(Some(x)), Ok(Some(y))) = (item_of(a, i), item_of(b, i)) {
            lemma_item_rules_same(s, items.rules, field.field, x, y);
            lemma_any_same(s, None, Some(x), Some(y), items.rules.any);
        }
        assert(s.list_item(field, items, a, i) == s.list_item(field, items, b, i));
    }
}

proof fn lemma_entries_same<F: Formats, C: Engine, E>(
    s: Setting<F, C>,
    field: FieldEvaluatorV<C::Program>,
    a: ValV<E>,
    b: ValV<E>,
    i: int,
)
    requires
        same_but_serialized(a, b),
        a is Mapping,
        binds_no_message(field),
    ensures
        s.entries_from(field, a, i) == s.entries_from(field, b, i),
    decreases usize::MAX - i,
{
    if i < usize::MAX {
        lemma_entries_same(s, field, a, b, i + 1);
        lemma_entry_same(a, b, i);
        if let (Ok(Some((key, x))), Ok(Some((_, y)))) = (entry_of(a, i), entry_of(b, i)) {
            if let Some(values) = field.values {
                lemma_item_rules_same(s, values.rules, field.field, x, y);
            }
            assert(s.entry(field, key, x) == s.entry(field, key, y));
        }
    }
}

proof fn lemma_value_set_same<E>(a: Option<ValV<E>>, b: Option<ValV<E>>)
    requires
        same_values(a, b),
    ensures
        value_set(a) == value_set(b),
{
    if let (Some(x), Some(y)) = (a, b) {
        lemma_kind(x, y);
        if x is List {
            lemma_item_same(x, y, 0);
        }
        if x is Mapping {
            lemma_entry_same(x, y, 0);
        }
    }
}

proof fn lemma_field_rules_same<F: Formats, C: Engine, E>(
    s: Setting<F, C>,
    a: ValV<E>,
    b: ValV<E>,
    name: Seq<char>,
    field: FieldEvaluatorV<C::Program>,
)
    requires
        same_but_serialized(a, b),
        a is Message,
        binds_no_message(field),
    ensures
        s.field(a, name, field) == s.field(b, name, field),
{
    lemma_field_same(a, b, field.field);
    if let (Ok(x), Ok(y)) = (field_of(a, field.field), field_of(b, field.field)) {
        lemma_value_set_same(x, y);
        lemma_value_checks_same(s, field.rules.checks, field.rules.wrapper, x, y);
        lemma_any_same(s, Some(field.element), x, y, field.rules.any);
        if let Some(kind) = field.rules.scalar {
            lemma_scalar_same(x, y, kind);
        }
        if let (Some(u), Some(v)) = (x, y) {
            lemma_kind(u, v);
            if u is List {
                lemma_item_same(u, v, 0);
                if let (Some(items), Ok(n)) = (field.items, len_of(u)) {
                    lemma_items_same(s, field, items, u, v, 0, n as int);
                }
            }
            if u is Mapping {
                lemma_entry_same(u, v, 0);
                lemma_entries_same(s, field, u, v, 0);
            }
        }
        assert(s.absent(a, field, x) == s.absent(b, field, y));
        assert(s.field_cel(a, name, field, x) == s.field_cel(b, name, field, y));
        assert(s.field_rules(a, name, field, x) == s.field_rules(b, name, field, y));
        assert(s.defined_only(field, x) == s.defined_only(field, y));
        assert(s.field_list(field, x) == s.field_list(field, y));
        assert(s.field_entries(field, x) == s.field_entries(field, y));
        assert(s.present_field(a, name, field, x) == s.present_field(b, name, field, y));
    }
}

proof fn lemma_fields_same<F: Formats, C: Engine, E>(
    s: Setting<F, C>,
    a: ValV<E>,
    b: ValV<E>,
    name: Seq<char>,
    fields: Seq<FieldEvaluatorV<C::Program>>,
    i: int,
)
    requires
        same_but_serialized(a, b),
        a is Message,
        forall|j: int| 0 <= j < fields.len() ==> binds_no_message(#[trigger] fields[j]),
    ensures
        s.fields_from(a, name, fields, i) == s.fields_from(b, name, fields, i),
    decreases fields.len() - i,
{
    if 0 <= i < fields.len() {
        lemma_field_rules_same(s, a, b, name, fields[i]);
        lemma_fields_same(s, a, b, name, fields, i + 1);
    }
}

proof fn lemma_set_same<F: Formats, C: Engine, E>(
    a: ValV<E>,
    b: ValV<E>,
    fields: Seq<FieldV>,
    i: int,
)
    requires
        same_but_serialized(a, b),
        a is Message,
    ensures
        Setting::<F, C>::set_from(a, fields, i) == Setting::<F, C>::set_from(b, fields, i),
        Setting::<F, C>::any_set_from(a, fields, i) == Setting::<F, C>::any_set_from(b, fields, i),
    decreases fields.len() - i,
{
    if 0 <= i < fields.len() {
        lemma_set_same::<F, C, E>(a, b, fields, i + 1);
        lemma_field_same(a, b, fields[i]);
        if let (Ok(x), Ok(y)) = (field_of(a, fields[i]), field_of(b, fields[i])) {
            lemma_value_set_same(x, y);
        }
        assert(field_set(a, fields[i]) == field_set(b, fields[i]));
    }
}

proof fn lemma_message_oneofs_same<F: Formats, C: Engine, E>(
    s: Setting<F, C>,
    a: ValV<E>,
    b: ValV<E>,
    oneofs: Seq<MessageOneofV>,
    i: int,
)
    requires
        same_but_serialized(a, b),
        a is Message,
    ensures
        s.message_oneofs_from(a, oneofs, i) == s.message_oneofs_from(b, oneofs, i),
    decreases oneofs.len() - i,
{
    if 0 <= i < oneofs.len() {
        lemma_message_oneofs_same(s, a, b, oneofs, i + 1);
        lemma_set_same::<F, C, E>(a, b, oneofs[i].fields, 0);
    }
}

proof fn lemma_oneofs_same<F: Formats, C: Engine, E>(
    s: Setting<F, C>,
    a: ValV<E>,
    b: ValV<E>,
    oneofs: Seq<OneofRequiredV>,
    i: int,
)
    requires
        same_but_serialized(a, b),
        a is Message,
    ensures
        s.oneofs_from(a, oneofs, i) == s.oneofs_from(b, oneofs, i),
    decreases oneofs.len() - i,
{
    if 0 <= i < oneofs.len() {
        lemma_oneofs_same(s, a, b, oneofs, i + 1);
        lemma_set_same::<F, C, E>(a, b, oneofs[i].members, 0);
    }
}

/// Whether one of the message-typed fields is of the type at a place.
pub open spec fn has_nested(nested: Seq<NestedV>, index: u64) -> bool {
    exists|i: int| 0 <= i < nested.len() && (#[trigger] nested[i]).message == index
}

/// Whether a walk may meet a type below the root, that many messages further
/// down than the root's own fields.
pub open spec fn meets<F, C: Engine>(
    s: Setting<F, C>,
    evaluator: MessageEvaluatorV<C::Program>,
    index: u64,
    steps: nat,
) -> bool
    decreases steps,
{
    if steps == 0 {
        has_nested(evaluator.nested, index)
    } else {
        exists|middle: u64|
            meets(s, evaluator, middle, (steps - 1) as nat) && s.evaluators.dom().contains(middle)
                && #[trigger] has_nested(s.evaluators[middle].nested, index)
    }
}

/// Whether a walk may meet a type below the root.
#[verifier::opaque]
pub open spec fn is_met<F, C: Engine>(
    s: Setting<F, C>,
    evaluator: MessageEvaluatorV<C::Program>,
    index: u64,
) -> bool {
    exists|steps: nat| #[trigger] meets(s, evaluator, index, steps)
}

/// Whether the message-typed fields are of types in a set.
spec fn nested_within(nested: Seq<NestedV>, met: Set<u64>) -> bool {
    forall|i: int| 0 <= i < nested.len() ==> met.contains((#[trigger] nested[i]).message)
}

/// Whether none of the rules of the types in a set binds a message to `this`,
/// and the set holds the types of their fields.
spec fn needs_no_frames<F, C: Engine>(s: Setting<F, C>, met: Set<u64>) -> bool {
    forall|index: u64| #[trigger]
        met.contains(index) && s.evaluators.dom().contains(index) ==> needs_no_frame(
            s.evaluators[index],
        ) && nested_within(s.evaluators[index].nested, met)
}

proof fn lemma_message_same<F: Formats, C: Engine, E>(
    s: Setting<F, C>,
    met: Set<u64>,
    a: ValV<E>,
    b: ValV<E>,
    name: Seq<char>,
    evaluator: MessageEvaluatorV<C::Program>,
)
    requires
        same_but_serialized(a, b),
        a is Message,
        needs_no_frames(s, met),
        needs_no_frame(evaluator),
        nested_within(evaluator.nested, met),
    ensures
        s.message(a, name, evaluator) == s.message(b, name, evaluator),
    decreases a, 2nat, 0int,
{
    lemma_message_oneofs_same(s, a, b, evaluator.message_oneofs, 0);
    lemma_fields_same(s, a, b, name, evaluator.fields, 0);
    lemma_oneofs_same(s, a, b, evaluator.oneofs, 0);
    lemma_nested_same(s, met, a, b, evaluator.nested, 0);
}

proof fn lemma_nested_same<F: Formats, C: Engine, E>(
    s: Setting<F, C>,
    met: Set<u64>,
    a: ValV<E>,
    b: ValV<E>,
    nested: Seq<NestedV>,
    i: int,
)
    requires
        same_but_serialized(a, b),
        a is Message,
        needs_no_frames(s, met),
        nested_within(nested, met),
    ensures
        s.nested_from(a, nested, i) == s.nested_from(b, nested, i),
    decreases a, 1nat, nested.len() - i,
{
    if 0 <= i < nested.len() {
        lemma_nested_same(s, met, a, b, nested, i + 1);
        lemma_nested_field_same(s, met, a, b, nested[i]);
    }
}

proof fn lemma_nested_field_same<F: Formats, C: Engine, E>(
    s: Setting<F, C>,
    met: Set<u64>,
    a: ValV<E>,
    b: ValV<E>,
    nested: NestedV,
)
    requires
        same_but_serialized(a, b),
        a is Message,
        needs_no_frames(s, met),
        met.contains(nested.message),
    ensures
        s.nested_field(a, nested) == s.nested_field(b, nested),
    decreases a, 0nat, 0int,
{
    lemma_field_same(a, b, nested.field);
    if let (Ok(Some(x)), Ok(Some(y))) = (
        field_of(a, nested.field),
        field_of(b, nested.field),
    ) {
        lemma_kind(x, y);
        lemma_get_smaller(a, nested.field);
        if s.evaluators.dom().contains(nested.message) {
            let evaluator = s.evaluators[nested.message];
            let element = nested.element;
            if let Some(name) = nested.field.message_type {
                if x is Message {
                    lemma_message_same(s, met, x, y, name, evaluator);
                }
                if x is List {
                    lemma_item_same(x, y, 0);
                    if let Ok(n) = len_of(x) {
                        lemma_nested_items_same(s, met, x, y, name, evaluator, element, 0, n as int);
                    }
                }
                if x is Mapping {
                    lemma_entry_same(x, y, 0);
                    lemma_nested_entries_same(s, met, x, y, name, evaluator, element, 0);
                }
            }
        }
    }
}

proof fn lemma_nested_items_same<F: Formats, C: Engine, E>(
    s: Setting<F, C>,
    met: Set<u64>,
    a: ValV<E>,
    b: ValV<E>,
    name: Seq<char>,
    evaluator: MessageEvaluatorV<C::Program>,
    element: FieldPathElementV,
    i: int,
    n: int,
)
    requires
        same_but_serialized(a, b),
        a is List,
        needs_no_frames(s, met),
        needs_no_frame(evaluator),
        nested_within(evaluator.nested, met),
    ensures
        s.nested_items_from(a, name, evaluator, element, i, n) == s.nested_items_from(
            b,
            name,
            evaluator,
            element,
            i,
            n,
        ),
    decreases a, 1nat, n - i,
{
    lemma_item_same(a, b, i);
    if i < n {
        lemma_nested_items_same(s, met, a, b, name, evaluator, element, i + 1, n);
        lemma_item_smaller(a, i);
        if let (Ok(Some(x)), Ok(Some(y))) = (item_of(a, i), item_of(b, i)) {
            lemma_kind(x, y);
            if x is Message {
                lemma_message_same(s, met, x, y, name, evaluator);
            }
        }
    }
}

proof fn lemma_nested_entries_same<F: Formats, C: Engine, E>(
    s: Setting<F, C>,
    met: Set<u64>,
    a: ValV<E>,
    b: ValV<E>,
    name: Seq<char>,
    evaluator: MessageEvaluatorV<C::Program>,
    element: FieldPathElementV,
    i: int,
)
    requires
        same_but_serialized(a, b),
        a is Mapping,
        needs_no_frames(s, met),
        needs_no_frame(evaluator),
        nested_within(evaluator.nested, met),
    ensures
        s.nested_entries_from(a, name, evaluator, element, i) == s.nested_entries_from(
            b,
            name,
            evaluator,
            element,
            i,
        ),
    decreases a, 1nat, usize::MAX - i,
{
    lemma_entry_same(a, b, i);
    if i < usize::MAX {
        lemma_nested_entries_same(s, met, a, b, name, evaluator, element, i + 1);
        lemma_value_smaller(a, i);
        if let (Ok(Some((_, x))), Ok(Some((_, y)))) = (entry_of(a, i), entry_of(b, i)) {
            lemma_kind(x, y);
            if x is Message {
                lemma_message_same(s, met, x, y, name, evaluator);
            }
        }
        assert(s.nested_entry(a, name, evaluator, element, i) == s.nested_entry(
            b,
            name,
            evaluator,
            element,
            i,
        ));
    }
}

/// Where no custom rule of the root's type, or of a type that a walk may meet
/// below it, binds a message to `this`, no message is serialized, at any
/// depth: how the root and the messages below it are, or that they cannot be,
/// makes no difference.
pub proof fn law_nothing_is_serialized_without_custom_rules<F: Formats, C: Engine, E>(
    s: Setting<F, C>,
    a: ValV<E>,
    b: ValV<E>,
    name: Seq<char>,
    evaluator: MessageEvaluatorV<C::Program>,
)
    requires
        same_but_serialized(a, b),
        a is Message,
        needs_no_frame(evaluator),
        forall|index: u64| #[trigger]
            is_met(s, evaluator, index) && s.evaluators.dom().contains(index) ==> needs_no_frame(
                s.evaluators[index],
            ),
    ensures
        s.validated(a, name, evaluator) == s.validated(b, name, evaluator),
{
    let met = Set::new(|index: u64| is_met(s, evaluator, index));
    reveal(is_met);
    assert forall|i: int| 0 <= i < evaluator.nested.len() implies met.contains(
        (#[trigger] evaluator.nested[i]).message,
    ) by {
        assert(has_nested(evaluator.nested, evaluator.nested[i].message));
        assert(meets(s, evaluator, evaluator.nested[i].message, 0));
    }
    assert forall|index: u64| #[trigger]
        met.contains(index) && s.evaluators.dom().contains(index) implies nested_within(
        s.evaluators[index].nested,
        met,
    ) by {
        let nested = s.evaluators[index].nested;
        let steps = choose|steps: nat| #[trigger] meets(s, evaluator, index, steps);
        assert forall|i: int| 0 <= i < nested.len() implies met.contains(
            (#[trigger] nested[i]).message,
        ) by {
            let next = steps + 1;
            assert((next - 1) as nat == steps);
            assert(has_nested(s.evaluators[index].nested, nested[i].message));
            assert(meets(s, evaluator, nested[i].message, next));
        }
    }
    lemma_message_same(s, met, a, b, name, evaluator);
}

/// The message, serialized otherwise.
pub open spec fn serialized_as<E>(m: ValV<E>, encode: Result<Seq<u8>, E>) -> ValV<E> {
    ValV::Message { has: m->has, get: m->get, encode }
}

/// Whether the rules of a field bind the message that has it to `this`, in
/// part: a custom rule on anything but a scalar does.
pub open spec fn binds_message<P>(field: FieldEvaluatorV<P>) -> bool {
    field.rules.programs is Some && !(field.shape is Singular && field.rules.scalar is Some)
}

proof fn lemma_fields_as<F: Formats, C: Engine, E>(
    s: Setting<F, C>,
    m: ValV<E>,
    name: Seq<char>,
    fields: Seq<FieldEvaluatorV<C::Program>>,
    encode: Result<Seq<u8>, E>,
    i: int,
)
    requires
        m is Message,
        forall|j: int| 0 <= j < fields.len() ==> !binds_message(#[trigger] fields[j]),
    ensures
        s.fields_from(m, name, fields, i) == s.fields_from(
            serialized_as(m, encode),
            name,
            fields,
            i,
        ),
    decreases fields.len() - i,
{
    if 0 <= i < fields.len() {
        let other = serialized_as(m, encode);
        let field = fields[i];
        lemma_fields_as(s, m, name, fields, encode, i + 1);
        assert(field_of(m, field.field) == field_of(other, field.field));
        if let Ok(value) = field_of(m, field.field) {
            assert(s.absent(m, field, value) == s.absent(other, field, value));
            assert(s.field_cel(m, name, field, value) == s.field_cel(other, name, field, value));
        }
        assert(s.field(m, name, field) == s.field(other, name, field));
    }
}

proof fn lemma_set_as<F: Formats, C: Engine, E>(
    m: ValV<E>,
    fields: Seq<FieldV>,
    encode: Result<Seq<u8>, E>,
    i: int,
)
    requires
        m is Message,
    ensures
        Setting::<F, C>::set_from(m, fields, i) == Setting::<F, C>::set_from(
            serialized_as(m, encode),
            fields,
            i,
        ),
        Setting::<F, C>::any_set_from(m, fields, i) == Setting::<F, C>::any_set_from(
            serialized_as(m, encode),
            fields,
            i,
        ),
    decreases fields.len() - i,
{
    if 0 <= i < fields.len() {
        lemma_set_as::<F, C, E>(m, fields, encode, i + 1);
        assert(field_set(m, fields[i]) == field_set(serialized_as(m, encode), fields[i]));
    }
}

proof fn lemma_message_oneofs_as<F: Formats, C: Engine, E>(
    s: Setting<F, C>,
    m: ValV<E>,
    oneofs: Seq<MessageOneofV>,
    encode: Result<Seq<u8>, E>,
    i: int,
)
    requires
        m is Message,
    ensures
        s.message_oneofs_from(m, oneofs, i) == s.message_oneofs_from(
            serialized_as(m, encode),
            oneofs,
            i,
        ),
    decreases oneofs.len() - i,
{
    if 0 <= i < oneofs.len() {
        lemma_message_oneofs_as(s, m, oneofs, encode, i + 1);
        lemma_set_as::<F, C, E>(m, oneofs[i].fields, encode, 0);
    }
}

proof fn lemma_oneofs_as<F: Formats, C: Engine, E>(
    s: Setting<F, C>,
    m: ValV<E>,
    oneofs: Seq<OneofRequiredV>,
    encode: Result<Seq<u8>, E>,
    i: int,
)
    requires
        m is Message,
    ensures
        s.oneofs_from(m, oneofs, i) == s.oneofs_from(serialized_as(m, encode), oneofs, i),
    decreases oneofs.len() - i,
{
    if 0 <= i < oneofs.len() {
        lemma_oneofs_as(s, m, oneofs, encode, i + 1);
        lemma_set_as::<F, C, E>(m, oneofs[i].members, encode, 0);
    }
}

proof fn lemma_nested_as<F: Formats, C: Engine, E>(
    s: Setting<F, C>,
    m: ValV<E>,
    nested: Seq<NestedV>,
    encode: Result<Seq<u8>, E>,
    i: int,
)
    requires
        m is Message,
    ensures
        s.nested_from(m, nested, i) == s.nested_from(serialized_as(m, encode), nested, i),
    decreases nested.len() - i,
{
    if 0 <= i < nested.len() {
        lemma_nested_as(s, m, nested, encode, i + 1);
        let other = serialized_as(m, encode);
        assert(field_of(m, nested[i].field) == field_of(other, nested[i].field));
        assert(presence_of(m, nested[i].field) == presence_of(other, nested[i].field));
        assert(s.nested_field(m, nested[i]) == s.nested_field(other, nested[i]));
    }
}

/// A message is serialized only for custom rules that bind it, or a repeated
/// or map field of it, to `this`: without any, how it is serialized, or that
/// it cannot be, makes no difference.
pub proof fn law_serialized_only_for_custom_rules<F: Formats, C: Engine, E>(
    s: Setting<F, C>,
    m: ValV<E>,
    name: Seq<char>,
    evaluator: MessageEvaluatorV<C::Program>,
    encode: Result<Seq<u8>, E>,
)
    requires
        m is Message,
        evaluator.cel is None,
        forall|i: int|
            0 <= i < evaluator.fields.len() ==> !binds_message(#[trigger] evaluator.fields[i]),
    ensures
        s.validated(m, name, evaluator) == s.validated(serialized_as(m, encode), name, evaluator),
{
    lemma_message_oneofs_as(s, m, evaluator.message_oneofs, encode, 0);
    lemma_fields_as(s, m, name, evaluator.fields, encode, 0);
    lemma_oneofs_as(s, m, evaluator.oneofs, encode, 0);
    lemma_nested_as(s, m, evaluator.nested, encode, 0);
    assert(s.message(m, name, evaluator) == s.message(serialized_as(m, encode), name, evaluator));
}

/// A value reads the same as itself.
proof fn lemma_alike_itself<E>(a: ValV<E>, depth: nat)
    ensures
        alike(a, a, depth),
    decreases depth,
{
    if depth > 0 {
        let less = (depth - 1) as nat;
        assert forall|f: FieldV| alike_reads(#[trigger] field_of(a, f), field_of(a, f), less) by {
            if let Ok(Some(x)) = field_of(a, f) {
                lemma_alike_itself(x, less);
            }
        }
        assert forall|i: int| alike_reads(#[trigger] item_of(a, i), item_of(a, i), less) by {
            if let Ok(Some(x)) = item_of(a, i) {
                lemma_alike_itself(x, less);
            }
        }
        assert forall|i: int| alike_entries(#[trigger] entry_of(a, i), entry_of(a, i), less) by {
            if let Ok(Some((_, x))) = entry_of(a, i) {
                lemma_alike_itself(x, less);
            }
        }
    }
}

/// A message serialized otherwise reads the same but for that.
pub proof fn law_serialized_otherwise_reads_the_same<E>(m: ValV<E>, encode: Result<Seq<u8>, E>)
    requires
        m is Message,
    ensures
        same_but_serialized(m, serialized_as(m, encode)),
{
    reveal(same_but_serialized);
    let other = serialized_as(m, encode);
    assert forall|depth: nat| #[trigger] alike(m, other, depth) by {
        if depth > 0 {
            let less = (depth - 1) as nat;
            assert forall|f: FieldV|
                alike_reads(#[trigger] field_of(m, f), #[trigger] field_of(other, f), less) by {
                assert(field_of(m, f) == field_of(other, f));
                if let Ok(Some(x)) = field_of(m, f) {
                    lemma_alike_itself(x, less);
                }
            }
            assert forall|f: FieldV| presence_of(m, f) == #[trigger] presence_of(other, f) by {}
        }
    }
}

} // verus!
