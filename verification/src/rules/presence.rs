//! Fields that are not set, and what is said of them.

use super::outcome::{
    chain, field_set, nothing, value_set, zero_item, zero_key, Out, Setting,
};
use super::standard::wellknown::Formats;
use super::{FieldEvaluatorV, ItemEvaluatorV, MessageOneofV, OneofRequiredV, Shape, ValueRulesV};
use crate::cel::Engine;
use crate::double::Double;
use crate::error::ErrorV;
use crate::protobuf::reads::entry_of;
use crate::protobuf::{FieldV, KeyV, ValV};
use crate::validate::ViolationV;
use vstd::prelude::*;

verus! {

/// Whether a value is the default of its type: the number, string or bytes
/// that are not serialized, a list without elements, a map without entries.
pub open spec fn at_default<E>(v: ValV<E>) -> bool {
    ||| v == ValV::<E>::Bool(false)
    ||| v == ValV::<E>::Int(0)
    ||| v == ValV::<E>::Uint(0)
    ||| v == ValV::<E>::Double(Double { bits: 0 })
    ||| v == ValV::<E>::Enum(0)
    ||| v == ValV::<E>::String(Seq::empty())
    ||| v == ValV::<E>::Bytes(Seq::empty())
    ||| (v is List && v->len == Ok::<usize, E>(0))
    ||| (v is Mapping && v->size == Ok::<usize, E>(0))
}

/// Whether a value is read in full and is not the default of its type.
pub open spec fn off_default<E>(v: ValV<E>) -> bool {
    &&& !at_default(v)
    &&& !(v is Failed)
    &&& v is List ==> v->len is Ok
    &&& v is Mapping ==> v->size is Ok
}

/// Whether a field of a message is not set: the message says so of one that
/// tracks presence, and any other is missing or at its default.
pub open spec fn unset<E>(m: ValV<E>, field: FieldV) -> bool {
    if field.has_presence {
        (m->has)(field) == Ok::<bool, E>(false)
    } else {
        (m->get)(field) is None || at_default((m->get)(field)->Some_0)
    }
}

/// Whether a field of a message is set.
pub open spec fn given<E>(m: ValV<E>, field: FieldV) -> bool {
    if field.has_presence {
        (m->has)(field) == Ok::<bool, E>(true)
    } else {
        (m->get)(field) is Some && off_default((m->get)(field)->Some_0)
    }
}

/// Whether a field of a message can be read.
pub open spec fn readable<E>(m: ValV<E>, field: FieldV) -> bool {
    !((m->get)(field) matches Some(v) && v is Failed)
}

/// Whether a message says if the field that rules are for is set.
pub open spec fn counts_presence<P>(field: FieldEvaluatorV<P>) -> bool {
    field.shape is Singular && field.field.has_presence
}

/// Whether the field that rules are for is not set: a list or map goes by
/// whether it is empty.
pub open spec fn missing<E, P>(m: ValV<E>, field: FieldEvaluatorV<P>) -> bool {
    if counts_presence(field) {
        (m->has)(field.field) == Ok::<bool, E>(false)
    } else {
        (m->get)(field.field) is None || at_default((m->get)(field.field)->Some_0)
    }
}

/// Whether the field that rules are for is set.
pub open spec fn there<E, P>(m: ValV<E>, field: FieldEvaluatorV<P>) -> bool {
    if counts_presence(field) {
        (m->has)(field.field) == Ok::<bool, E>(true)
    } else {
        (m->get)(field.field) is Some && off_default((m->get)(field.field)->Some_0)
    }
}

/// Whether the value of a field has the shape of the field.
pub open spec fn in_shape<E>(v: ValV<E>, shape: Shape) -> bool {
    match shape {
        Shape::Singular => !(v is List) && !(v is Mapping),
        Shape::List => v is List,
        Shape::Mapping { .. } => v is Mapping,
    }
}

/// A value is set exactly when it is off its default.
proof fn lemma_value_set<E>(v: ValV<E>)
    ensures
        at_default(v) ==> value_set(Some(v)) == Ok::<bool, ErrorV<E>>(false),
        off_default(v) ==> value_set(Some(v)) == Ok::<bool, ErrorV<E>>(true),
{
    if let ValV::String(s) = v {
        if s.len() == 0 {
            assert(s =~= Seq::empty());
        }
    }
    if let ValV::Bytes(b) = v {
        if b.len() == 0 {
            assert(b =~= Seq::empty());
        }
    }
}

/// A field is set exactly when it is given, and not set when it is unset.
proof fn lemma_set<E>(m: ValV<E>, field: FieldV)
    requires
        readable(m, field),
    ensures
        unset(m, field) ==> field_set(m, field) == Ok::<bool, ErrorV<E>>(false),
        given(m, field) ==> field_set(m, field) == Ok::<bool, ErrorV<E>>(true),
{
    if let Some(v) = (m->get)(field) {
        lemma_value_set(v);
    }
}

/// A required field that is not set is reported, whatever its shape: once,
/// as `required`, on the field itself. A list or a map is not where it is
/// told to ignore that it is empty.
pub proof fn law_required_fields_are_reported<F: Formats, C: Engine, E>(
    s: Setting<F, C>,
    m: ValV<E>,
    name: Seq<char>,
    field: FieldEvaluatorV<C::Program>,
)
    requires
        field.required,
        field.shape is Singular || !field.rules.ignore_empty,
        readable(m, field.field),
        missing(m, field),
    ensures
        s.field(m, name, field) matches Ok(found) && found.len() == 1 && found[0] == (ViolationV {
            field: Some(seq![field.element]),
            rule: Some(seq![s.schema.required]),
            rule_id: Some("required"@),
            message: Some("value is required"@),
            for_key: None,
        }),
{
}

/// A field that is not set and is told to ignore that is passed over: no
/// rule of it is tried. A required field of one value is not passed over.
pub proof fn law_ignored_unset_fields_are_passed_over<F: Formats, C: Engine, E>(
    s: Setting<F, C>,
    m: ValV<E>,
    name: Seq<char>,
    field: FieldEvaluatorV<C::Program>,
)
    requires
        field.rules.ignore_empty,
        !(field.shape is Singular && field.required),
        readable(m, field.field),
        missing(m, field),
    ensures
        s.field(m, name, field) matches Ok(found) && found.len() == 0,
{
}

/// The elements of a list are checked by the element rules, the field and
/// its path element alone.
proof fn lemma_items_alike<F: Formats, C: Engine, E>(
    s: Setting<F, C>,
    a: FieldEvaluatorV<C::Program>,
    b: FieldEvaluatorV<C::Program>,
    items: ItemEvaluatorV<C::Program>,
    l: ValV<E>,
    i: int,
    n: int,
)
    requires
        a.field == b.field,
        a.element == b.element,
    ensures
        s.items_from(a, items, l, i, n) == s.items_from(b, items, l, i, n),
    decreases n - i,
{
    if i < n {
        lemma_items_alike(s, a, b, items, l, i + 1, n);
        assert(s.list_item(a, items, l, i) == s.list_item(b, items, l, i));
    }
}

/// The entries of a map are checked by the key and value rules, the field
/// and its path elements alone.
proof fn lemma_entries_alike<F: Formats, C: Engine, E>(
    s: Setting<F, C>,
    a: FieldEvaluatorV<C::Program>,
    b: FieldEvaluatorV<C::Program>,
    p: ValV<E>,
    i: int,
)
    requires
        a.field == b.field,
        a.element == b.element,
        a.entry_element == b.entry_element,
        a.keys == b.keys,
        a.values == b.values,
    ensures
        s.entries_from(a, p, i) == s.entries_from(b, p, i),
    decreases usize::MAX - i,
{
    if i < usize::MAX {
        lemma_entries_alike(s, a, b, p, i + 1);
        if let Ok(Some((key, value))) = entry_of(p, i) {
            assert(s.entry(a, key, value) == s.entry(b, key, value));
        }
    }
}

/// Nothing found in front changes nothing.
proof fn lemma_nothing_first<E>(fast: bool, out: Out<E>)
    ensures
        chain(fast, nothing(), out) == out,
{
    if let Ok(found) = out {
        assert(Seq::<ViolationV>::empty() + found =~= found);
    }
}

/// A field that is not set is still checked, by the value it then has, where
/// it is neither required nor told to ignore that.
pub proof fn law_unset_fields_are_checked<F: Formats, C: Engine, E>(
    s: Setting<F, C>,
    m: ValV<E>,
    name: Seq<char>,
    field: FieldEvaluatorV<C::Program>,
)
    requires
        !field.rules.ignore_empty,
        !field.required,
        field.rules.any is None,
        readable(m, field.field),
        missing(m, field),
    ensures
        s.field(m, name, field) == s.present_field(m, name, field, (m->get)(field.field)),
{
    let value = (m->get)(field.field);
    assert(s.absent(m, field, value) is None);
    lemma_nothing_first(s.fast, s.present_field(m, name, field, value));
}

/// A field that is set is there to be checked.
pub proof fn lemma_there<F: Formats, C: Engine, E>(
    s: Setting<F, C>,
    m: ValV<E>,
    field: FieldEvaluatorV<C::Program>,
)
    requires
        there(m, field),
        (m->get)(field.field) matches Some(v) ==> in_shape(v, field.shape),
    ensures
        s.absent(m, field, (m->get)(field.field)) is None,
{
    if let Some(v) = (m->get)(field.field) {
        lemma_value_set(v);
    }
}

/// A field that is set is checked in the same way whether or not it is
/// required, and whether or not it is told to ignore that it is not set.
pub proof fn law_set_fields_are_checked<F: Formats, C: Engine, E>(
    s: Setting<F, C>,
    m: ValV<E>,
    name: Seq<char>,
    field: FieldEvaluatorV<C::Program>,
    required: bool,
    ignore_empty: bool,
)
    requires
        readable(m, field.field),
        there(m, field),
        (m->get)(field.field) matches Some(v) ==> in_shape(v, field.shape),
    ensures
        ({
            let other = FieldEvaluatorV {
                required,
                rules: ValueRulesV { ignore_empty, ..field.rules },
                ..field
            };
            &&& s.field(m, name, field) == s.present_field(m, name, field, (m->get)(field.field))
                || (field.shape is Singular && field.rules.any is Some)
            &&& s.field(m, name, other) == s.field(m, name, field)
        }),
{
    let other = FieldEvaluatorV {
        required,
        rules: ValueRulesV { ignore_empty, ..field.rules },
        ..field
    };
    let value = (m->get)(field.field);
    lemma_there(s, m, field);
    lemma_there(s, m, other);
    if let Some(v) = value {
        if v is Mapping {
            lemma_entries_alike(s, field, other, v, 0);
        }
        if v is List && field.items is Some && v->len is Ok {
            lemma_items_alike(s, field, other, field.items->Some_0, v, 0, v->len->Ok_0 as int);
        }
    }
    assert(s.field_list(field, value) == s.field_list(other, value));
    assert(s.field_entries(field, value) == s.field_entries(other, value));
    assert(s.field_rules(m, name, field, value) == s.field_rules(m, name, other, value));
    assert(s.defined_only(field, value) == s.defined_only(other, value));
    assert(s.present_field(m, name, field, value) == s.present_field(m, name, other, value));
    lemma_nothing_first(s.fast, s.present_field(m, name, field, value));
}

/// Whether every field of a list can be read and is either set or not.
pub open spec fn decided<E>(m: ValV<E>, fields: Seq<FieldV>) -> bool {
    forall|i: int|
        0 <= i < fields.len() ==> readable(m, #[trigger] fields[i]) && (unset(m, fields[i])
            || given(m, fields[i]))
}

/// How many fields are set, from one on: none exactly when all are unset, and
/// more than one exactly when two of them are set.
proof fn lemma_set_from<F: Formats, C: Engine, E>(m: ValV<E>, fields: Seq<FieldV>, k: int)
    requires
        decided(m, fields),
        0 <= k <= fields.len(),
    ensures
        Setting::<F, C>::set_from(m, fields, k) is Ok,
        Setting::<F, C>::set_from(m, fields, k)->Ok_0 == 0 <==> forall|i: int|
            k <= i < fields.len() ==> unset(m, #[trigger] fields[i]),
        Setting::<F, C>::set_from(m, fields, k)->Ok_0 > 1 <==> exists|i: int, j: int|
            k <= i < j < fields.len() && given(m, #[trigger] fields[i]) && given(
                m,
                #[trigger] fields[j],
            ),
    decreases fields.len() - k,
{
    if k < fields.len() {
        lemma_set_from::<F, C, E>(m, fields, k + 1);
        lemma_set(m, fields[k]);
        let more = Setting::<F, C>::set_from(m, fields, k + 1)->Ok_0;
        let count = Setting::<F, C>::set_from(m, fields, k)->Ok_0;
        if given(m, fields[k]) {
            assert(count == more + 1);
            if more > 0 {
                let j = choose|j: int|
                    k + 1 <= j < fields.len() && !unset(m, #[trigger] fields[j]);
                assert(given(m, fields[k]) && given(m, fields[j]));
            }
            if exists|i: int, j: int|
                k <= i < j < fields.len() && given(m, #[trigger] fields[i]) && given(
                    m,
                    #[trigger] fields[j],
                ) {
                let (i, j) = choose|i: int, j: int|
                    k <= i < j < fields.len() && given(m, #[trigger] fields[i]) && given(
                        m,
                        #[trigger] fields[j],
                    );
                lemma_set(m, fields[j]);
                assert(!unset(m, fields[j]));
                assert(more > 0);
            }
        } else {
            assert(unset(m, fields[k]));
            assert(count == more);
        }
    }
}

/// A message oneof rule is broken when two of its fields are set, and, where
/// one is required, when none is; with one of them set it is not. It is the
/// message that is reported, as `message.oneof`.
pub proof fn law_message_oneofs<F: Formats, C: Engine, E>(
    s: Setting<F, C>,
    m: ValV<E>,
    oneof: MessageOneofV,
)
    requires
        decided(m, oneof.fields),
    ensures
        ({
            let two = exists|i: int, j: int|
                0 <= i < j < oneof.fields.len() && given(m, #[trigger] oneof.fields[i]) && given(
                    m,
                    #[trigger] oneof.fields[j],
                );
            let none = forall|i: int|
                0 <= i < oneof.fields.len() ==> unset(m, #[trigger] oneof.fields[i]);
            let broken = two || (none && oneof.required);
            &&& s.message_oneof(m, oneof) matches Ok(found) && found.len() == (if broken {
                1nat
            } else {
                0nat
            }) && (broken ==> found[0] == (ViolationV {
                field: None,
                rule: None,
                rule_id: Some("message.oneof"@),
                message: Some(
                    if two {
                        "only one of "@ + oneof.names + " can be set"@
                    } else {
                        "one of "@ + oneof.names + " must be set"@
                    },
                ),
                for_key: None,
            }))
        }),
{
    lemma_set_from::<F, C, E>(m, oneof.fields, 0);
}

/// Whether one of the fields from one on is set.
proof fn lemma_any_set<F: Formats, C: Engine, E>(m: ValV<E>, fields: Seq<FieldV>, k: int)
    requires
        decided(m, fields),
        0 <= k <= fields.len(),
    ensures
        Setting::<F, C>::any_set_from(m, fields, k) == Ok::<bool, ErrorV<E>>(
            !forall|i: int| k <= i < fields.len() ==> unset(m, #[trigger] fields[i]),
        ),
    decreases fields.len() - k,
{
    if k < fields.len() {
        lemma_any_set::<F, C, E>(m, fields, k + 1);
        lemma_set(m, fields[k]);
    }
}

/// A required oneof is broken exactly when none of its members is set. It is
/// the oneof that is reported, as `required`.
pub proof fn law_required_oneofs<F: Formats, C: Engine, E>(
    s: Setting<F, C>,
    m: ValV<E>,
    oneof: OneofRequiredV,
)
    requires
        decided(m, oneof.members),
    ensures
        ({
            let none = forall|i: int|
                0 <= i < oneof.members.len() ==> unset(m, #[trigger] oneof.members[i]);
            &&& s.oneof(m, oneof) matches Ok(found) && found.len() == (if none {
                1nat
            } else {
                0nat
            }) && (none ==> found[0] == (ViolationV {
                field: Some(seq![oneof.element]),
                rule: None,
                rule_id: Some("required"@),
                message: Some("exactly one field is required in oneof"@),
                for_key: None,
            }))
        }),
{
    lemma_any_set::<F, C, E>(m, oneof.members, 0);
}

/// Whether an element, a key or a map value is the zero of its type. The two
/// zeros of doubles both are; a message never is.
pub open spec fn zero<E>(v: ValV<E>) -> bool {
    ||| v == ValV::<E>::Bool(false)
    ||| v == ValV::<E>::Int(0)
    ||| v == ValV::<E>::Uint(0)
    ||| (v matches ValV::Double(f) && f.position() == 0)
    ||| v == ValV::<E>::Enum(0)
    ||| v == ValV::<E>::String(Seq::empty())
    ||| v == ValV::<E>::Bytes(Seq::empty())
}

/// An element of a list that is zero is passed over where its rules say so;
/// any other element is checked in the same way whether or not they do.
pub proof fn law_zero_elements_are_passed_over<F: Formats, C: Engine, E>(
    s: Setting<F, C>,
    field: FieldEvaluatorV<C::Program>,
    items: ItemEvaluatorV<C::Program>,
    l: ValV<E>,
    i: int,
    ignore_empty: bool,
)
    requires
        (l->item)(i) matches Some(v) && !(v is Failed),
    ensures
        ({
            let v = (l->item)(i)->Some_0;
            let other = ItemEvaluatorV {
                rules: ValueRulesV { ignore_empty, ..items.rules },
                ..items
            };
            &&& zero(v) && items.rules.ignore_empty ==> s.list_item(field, items, l, i) == nothing::<
                E,
            >()
            &&& !zero(v) ==> s.list_item(field, items, l, i) == s.list_item(field, other, l, i)
        }),
{
    lemma_zero((l->item)(i)->Some_0);
    let other = ItemEvaluatorV { rules: ValueRulesV { ignore_empty, ..items.rules }, ..items };
    let v = (l->item)(i)->Some_0;
    assert(s.item(items.rules, field.field, v) == s.item(other.rules, field.field, v));
}

proof fn lemma_zero<E>(v: ValV<E>)
    ensures
        zero_item(v) == zero(v),
{
    if let ValV::String(s) = v {
        if s.len() == 0 {
            assert(s =~= Seq::empty());
        }
    }
    if let ValV::Bytes(b) = v {
        if b.len() == 0 {
            assert(b =~= Seq::empty());
        }
    }
}

/// Whether a map key is the zero of its type.
pub open spec fn zero_of_keys(key: KeyV) -> bool {
    ||| key == KeyV::Bool(false)
    ||| key == KeyV::Int(0)
    ||| key == KeyV::Uint(0)
    ||| key == KeyV::String(Seq::empty())
}

/// The keys and values of map entries are passed over in the same way.
pub proof fn law_zero_entries_are_passed_over<F: Formats, C: Engine, E>(
    s: Setting<F, C>,
    rules: ItemEvaluatorV<C::Program>,
    field: FieldV,
    key: KeyV,
    value: ValV<E>,
    ignore_empty: bool,
)
    ensures
        ({
            let other = ItemEvaluatorV {
                rules: ValueRulesV { ignore_empty, ..rules.rules },
                ..rules
            };
            &&& zero_of_keys(key) && rules.rules.ignore_empty ==> s.entry_key::<E>(Some(rules), key)
                == nothing::<E>()
            &&& !zero_of_keys(key) ==> s.entry_key::<E>(Some(rules), key) == s.entry_key::<E>(
                Some(other),
                key,
            )
            &&& zero(value) && rules.rules.ignore_empty ==> s.entry_value(
                Some(rules),
                field,
                value,
            ) == nothing::<E>()
            &&& !zero(value) ==> s.entry_value(Some(rules), field, value) == s.entry_value(
                Some(other),
                field,
                value,
            )
        }),
{
    lemma_zero(value);
    if let KeyV::String(t) = key {
        if t.len() == 0 {
            assert(t =~= Seq::empty());
        }
    }
    assert(zero_key(key) == zero_of_keys(key));
    let other = ItemEvaluatorV { rules: ValueRulesV { ignore_empty, ..rules.rules }, ..rules };
    assert(s.item(rules.rules, field, value) == s.item(other.rules, field, value));
}

/// A field that cannot be read, or whose presence cannot be, ends the walk of
/// the field with the error of the read.
pub proof fn law_unreadable_fields_end_the_walk<F: Formats, C: Engine, E>(
    s: Setting<F, C>,
    m: ValV<E>,
    name: Seq<char>,
    field: FieldEvaluatorV<C::Program>,
    error: E,
)
    requires
        ({
            ||| (m->get)(field.field) == Some(ValV::<E>::Failed(error))
            ||| readable(m, field.field) && counts_presence(field) && (m->has)(field.field) == Err::<
                bool,
                E,
            >(error)
            ||| !(field.shape is Singular) && ((m->get)(field.field) matches Some(v) && v is List
                && v->len == Err::<usize, E>(error))
            ||| !(field.shape is Singular) && ((m->get)(field.field) matches Some(v) && v is Mapping
                && v->size == Err::<usize, E>(error))
        }),
    ensures
        s.field(m, name, field) == Err::<Seq<ViolationV>, ErrorV<E>>(ErrorV::Read(error)),
{
}

} // verus!
