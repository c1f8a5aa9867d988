//! What the rules of a message type are made of.

use super::super::plan::{
    entry_target, field_named, field_target, ignores_empty, in_oneofs, member_ignore, messages_ignored, no_cel, placed,
    rules_field, rules_message, scalar_kind_of, with_cel_rules, with_expressions, with_predefined,
    CompiledV, DecodedV, ItemKind, Source, Target,
};
use super::super::standard::build::{rule_checks, NativeV};
use super::super::standard::CheckV;
use super::super::{
    FieldEvaluatorV, MessageOneofV, OneofRequiredV, ProgramSetV, RuleMetaV, Shape,
};
use crate::cel::Engine;
use crate::descriptors::{
    extension_element, field_element, law_elements_of_extensions_and_oneofs,
    law_extensions_are_found_by_number, type_of_kind, FieldDescriptor, MessageDescriptor,
    OneofDescriptor, SingularKind,
};
use crate::error::ErrorV;
use crate::pool::{dynamic_in, has_unknown, index_in, set_numbers};
use crate::protobuf::FieldV;
use crate::text::{joined, texts};
use crate::validate::rules::{
    FieldRules, Ignore, MessageOneofRule, MessageRules, Rule, RulesType,
    StandardRules,
};
use crate::validate::{FieldPathElementV, SubscriptV};
use vstd::prelude::*;

verus! {

/// The rules of a field are made for that field: they are reported on its
/// path element, walked in its shape, and require it where they say so. Only
/// the rules of a map have an element for its entries.
pub proof fn law_field_rules_are_made_for_their_field<C: Engine, E>(
    source: Source<C>,
    field: FieldDescriptor,
    rules: FieldRules,
    ignore: Option<Ignore>,
)
    requires
        source.field::<E>(field, rules, ignore) matches Ok(Some(_)),
    ensures
        ({
            let made = source.field::<E>(field, rules, ignore)->Ok_0->Some_0;
            &&& made.field.number == field.number
            &&& made.field.name == field.name@
            &&& made.element.field_name == Some(field.name@)
            &&& made.element.subscript is None
            &&& made.element.key_type is None
            &&& made.entry_element is Some <==> field.kind is Mapping
            &&& made.entry_element matches Some(e) ==> e.field_name == Some(field.name@)
                && e.key_type is Some && e.value_type is Some && e.subscript is None
                && e.field_number == made.element.field_number && e.field_type
                == made.element.field_type
            &&& made.required <==> rules.required == Some(true)
            &&& field.kind is Singular <==> made.shape is Singular
            &&& field.kind is List <==> made.shape is List
            &&& field.kind is Mapping <==> made.shape is Mapping
            &&& ignore != Some(Ignore::Always)
            &&& ignore == Some(Ignore::IfZeroValue) ==> made.rules.ignore_empty
            &&& source.value::<E>(field_target(field), rules, ignore) matches Ok(Some(built))
                && made.rules == built.rules && made.defined_only == built.defined_only
                && made.items == built.items && made.keys == built.keys && made.values
                == built.values
        }),
{
}

/// The rules of elements, keys and values stand below those of the list or
/// map that holds them.
pub proof fn law_item_rules_stand_below_their_container<C: Engine, E>(
    source: Source<C>,
    target: Target,
    rules: Box<FieldRules>,
    kind: ItemKind,
)
    requires
        source.item::<E>(target, Some(rules), kind) matches Ok(Some(_)),
    ensures
        ({
            let made = source.item::<E>(target, Some(rules), kind)->Ok_0->Some_0;
            &&& made.rule_prefix.len() == 2
            &&& kind is Items ==> made.rule_prefix[0] == source.schema.repeated_items
                && made.rule_prefix[1] == source.schema.repeated
            &&& kind is Keys ==> made.rule_prefix[0] == source.schema.map_keys
                && made.rule_prefix[1] == source.schema.mapping
            &&& kind is Values ==> made.rule_prefix[0] == source.schema.map_values
                && made.rule_prefix[1] == source.schema.mapping
            &&& rules.ignore != Some(Ignore::Always)
            &&& source.value::<E>(target, *rules, rules.ignore) matches Ok(Some(built))
                && made.rules == built.rules
        }),
{
}

/// The rules of the fields of a message type are those of the fields that
/// have rules, and of no others: each field's as its own rules make them.
pub proof fn law_fields_with_rules_are_built<C: Engine, E>(
    source: Source<C>,
    message: MessageDescriptor,
    n: nat,
)
    requires
        n <= message.fields@.len(),
        source.fields::<E>(message, n) is Ok,
    ensures
        forall|i: int|
            0 <= i < n ==> built_among::<C, E>(
                source,
                message,
                #[trigger] message.fields@[i],
                source.fields::<E>(message, n)->Ok_0,
            ),
        forall|k: int|
            0 <= k < source.fields::<E>(message, n)->Ok_0.len() ==> exists|i: int|
                0 <= i < n && made_of::<C, E>(
                    source,
                    message,
                    #[trigger] message.fields@[i],
                    #[trigger] source.fields::<E>(message, n)->Ok_0[k],
                ),
    decreases n,
{
    if n > 0 {
        law_fields_with_rules_are_built::<C, E>(source, message, (n - 1) as nat);
        let earlier = source.fields::<E>(message, (n - 1) as nat)->Ok_0;
        let all = source.fields::<E>(message, n)->Ok_0;
        let field = message.fields@[n - 1];
        assert forall|v: FieldEvaluatorV<C::Program>| earlier.contains(v) implies all.contains(
            v,
        ) by {
            let k = choose|k: int| 0 <= k < earlier.len() && earlier[k] == v;
            assert(all[k] == v);
        }
        assert forall|i: int| 0 <= i < n implies built_among::<C, E>(
            source,
            message,
            #[trigger] message.fields@[i],
            all,
        ) by {
            if i < n - 1 {
                assert(built_among::<C, E>(source, message, message.fields@[i], earlier));
            } else if all.len() > earlier.len() {
                assert(all[earlier.len() as int] == all.last());
            }
        }
        assert forall|k: int| 0 <= k < all.len() implies exists|i: int|
            0 <= i < n && made_of::<C, E>(
                source,
                message,
                #[trigger] message.fields@[i],
                #[trigger] all[k],
            ) by {
            if k < earlier.len() {
                assert(all[k] == earlier[k]);
                let i = choose|i: int|
                    0 <= i < n - 1 && made_of::<C, E>(
                        source,
                        message,
                        #[trigger] message.fields@[i],
                        earlier[k],
                    );
                assert(made_of::<C, E>(source, message, message.fields@[i], all[k]));
            } else {
                assert(made_of::<C, E>(source, message, field, all[k]));
            }
        }
    }
}

/// Whether `made` is what the rules of a field make, for a field that says
/// when it is left out, or is a member of a message oneof.
pub open spec fn made_of<C: Engine, E>(
    source: Source<C>,
    message: MessageDescriptor,
    field: FieldDescriptor,
    made: FieldEvaluatorV<C::Program>,
) -> bool {
    source.descriptors.field_rules_of(message, field) matches Some(rules) && source.field::<E>(
        field,
        rules,
        member_ignore(source.descriptors.message_rules_of(message), field, rules.ignore),
    ) == Ok::<Option<FieldEvaluatorV<C::Program>>, ErrorV<E>>(Some(made))
}

/// Whether what a field's rules make, if anything, is among the rules.
pub open spec fn built_among<C: Engine, E>(
    source: Source<C>,
    message: MessageDescriptor,
    field: FieldDescriptor,
    all: Seq<FieldEvaluatorV<C::Program>>,
) -> bool {
    source.descriptors.field_rules_of(message, field) matches Some(rules) ==> {
        let made = source.field::<E>(
            field,
            rules,
            member_ignore(source.descriptors.message_rules_of(message), field, rules.ignore),
        );
        &&& made is Ok
        &&& made->Ok_0 is Some ==> all.contains(made->Ok_0->Some_0)
    }
}

/// When a field is left out: as its own rules say, or, where they say
/// nothing and one of the message's oneofs names it, when it is not set.
pub proof fn law_oneof_members_are_left_out_when_unset(
    rules: MessageRules,
    field: FieldDescriptor,
    ignore: Option<Ignore>,
)
    ensures
        ignore is Some ==> member_ignore(Some(rules), field, ignore) == ignore,
        member_ignore(None, field, ignore) == ignore,
        ignore is None ==> (member_ignore(Some(rules), field, ignore) == Some(Ignore::IfZeroValue)
            <==> exists|i: int, j: int|
            0 <= i < rules.oneof@.len() && 0 <= j < rules.oneof@[i].fields@.len() && #[trigger]
                rules.oneof@[i].fields@[j]@ == field.name@),
        ignore is None ==> member_ignore(Some(rules), field, ignore) is None || member_ignore(
            Some(rules),
            field,
            ignore,
        ) == Some(Ignore::IfZeroValue),
{
    if exists|i: int, j: int|
        0 <= i < rules.oneof@.len() && 0 <= j < rules.oneof@[i].fields@.len() && #[trigger]
            rules.oneof@[i].fields@[j]@ == field.name@ {
        let (i, j) = choose|i: int, j: int|
            0 <= i < rules.oneof@.len() && 0 <= j < rules.oneof@[i].fields@.len() && #[trigger]
                rules.oneof@[i].fields@[j]@ == field.name@;
        assert(texts(rules.oneof@[i].fields@)[j] == field.name@);
        assert(texts(rules.oneof@[i].fields@).contains(field.name@));
    }
    if in_oneofs(rules.oneof@, field.name@) {
        let i = choose|i: int|
            0 <= i < rules.oneof@.len() && texts((#[trigger] rules.oneof@[i]).fields@).contains(
                field.name@,
            );
        let names = texts(rules.oneof@[i].fields@);
        let j = choose|j: int| 0 <= j < names.len() && names[j] == field.name@;
        assert(rules.oneof@[i].fields@[j]@ == field.name@);
    }
}

proof fn lemma_named(fields: Seq<FieldDescriptor>, name: Seq<char>, k: int)
    requires
        0 <= k <= fields.len(),
    ensures
        match field_named(fields, name, k) {
            Some(i) => k <= i < fields.len() && (fields[i].name@ == name || fields[i].json_name@
                == name),
            None => forall|j: int|
                k <= j < fields.len() ==> (#[trigger] fields[j]).name@ != name
                    && fields[j].json_name@ != name,
        },
    decreases fields.len() - k,
{
    if k < fields.len() {
        lemma_named(fields, name, k + 1);
    }
}

/// The fields of a message oneof are those that its names name, one for each
/// name and in the same order; a name may be the one in `.proto` files or the
/// one in JSON.
pub proof fn law_oneofs_are_of_the_fields_they_name<C: Engine, E>(
    source: Source<C>,
    message: MessageDescriptor,
    names: Seq<Seq<char>>,
    n: nat,
)
    requires
        n <= names.len(),
        source.oneof_fields::<E>(message, names, n) is Ok,
    ensures
        source.oneof_fields::<E>(message, names, n)->Ok_0.len() == n,
        forall|k: int|
            0 <= k < n ==> exists|i: int|
                0 <= i < message.fields@.len() && (#[trigger] message.fields@[i].name@ == names[k]
                    || message.fields@[i].json_name@ == names[k]) && (
                #[trigger] source.oneof_fields::<E>(message, names, n)->Ok_0[k])
                    == source.descriptors.field_at(message.fields@[i]),
    decreases n,
{
    if n > 0 {
        law_oneofs_are_of_the_fields_they_name::<C, E>(source, message, names, (n - 1) as nat);
        let earlier = source.oneof_fields::<E>(message, names, (n - 1) as nat)->Ok_0;
        let all = source.oneof_fields::<E>(message, names, n)->Ok_0;
        lemma_named(message.fields@, names[n - 1], 0);
        assert forall|k: int| 0 <= k < n implies exists|i: int|
            0 <= i < message.fields@.len() && (#[trigger] message.fields@[i].name@ == names[k]
                || message.fields@[i].json_name@ == names[k]) && (#[trigger] all[k])
                == source.descriptors.field_at(message.fields@[i]) by {
            if k < n - 1 {
                assert(all[k] == earlier[k]);
                let i = choose|i: int|
                    0 <= i < message.fields@.len() && (#[trigger] message.fields@[i].name@
                        == names[k] || message.fields@[i].json_name@ == names[k]) && earlier[k]
                        == source.descriptors.field_at(message.fields@[i]);
                assert(message.fields@[i].name@ == names[k] || message.fields@[i].json_name@
                    == names[k]);
            } else {
                let i = field_named(message.fields@, names[n - 1], 0)->Some_0;
                assert(message.fields@[i].name@ == names[k] || message.fields@[i].json_name@
                    == names[k]);
            }
        }
    }
}

/// A name that is no field's, and a name that stands twice, are refused.
pub proof fn law_bad_oneof_names_are_refused<C: Engine, E>(
    source: Source<C>,
    message: MessageDescriptor,
    names: Seq<Seq<char>>,
    k: int,
)
    requires
        0 <= k < names.len(),
        (exists|i: int| 0 <= i < k && #[trigger] names[i] == names[k]) || forall|j: int|
            0 <= j < message.fields@.len() ==> (#[trigger] message.fields@[j]).name@ != names[k]
                && message.fields@[j].json_name@ != names[k],
    ensures
        source.oneof_fields::<E>(message, names, names.len()) is Err,
{
    lemma_bad_name::<C, E>(source, message, names, k, names.len());
}

proof fn lemma_bad_name<C: Engine, E>(
    source: Source<C>,
    message: MessageDescriptor,
    names: Seq<Seq<char>>,
    k: int,
    n: nat,
)
    requires
        0 <= k < n <= names.len(),
        (exists|i: int| 0 <= i < k && #[trigger] names[i] == names[k]) || forall|j: int|
            0 <= j < message.fields@.len() ==> (#[trigger] message.fields@[j]).name@ != names[k]
                && message.fields@[j].json_name@ != names[k],
    ensures
        source.oneof_fields::<E>(message, names, n) is Err,
    decreases n,
{
    if n - 1 > k {
        lemma_bad_name::<C, E>(source, message, names, k, (n - 1) as nat);
    } else {
        lemma_named(message.fields@, names[k], 0);
        if exists|i: int| 0 <= i < k && #[trigger] names[i] == names[k] {
            let i = choose|i: int| 0 <= i < k && #[trigger] names[i] == names[k];
            assert(names.take(k)[i] == names[k]);
            assert(names.take(k).contains(names[k]));
        }
    }
}

/// A message oneof rule prints its names as they stand, and requires a field
/// where it says so; one without names is refused.
pub proof fn law_message_oneofs_are_built<C: Engine, E>(
    source: Source<C>,
    message: MessageDescriptor,
    oneofs: Seq<MessageOneofRule>,
    n: nat,
)
    requires
        n <= oneofs.len(),
        source.message_oneofs::<E>(message, oneofs, n) is Ok,
    ensures
        source.message_oneofs::<E>(message, oneofs, n)->Ok_0.len() == n,
        forall|k: int|
            0 <= k < n ==> built_from::<C, E>(
                source,
                message,
                oneofs[k],
                #[trigger] source.message_oneofs::<E>(message, oneofs, n)->Ok_0[k],
            ),
    decreases n,
{
    if n > 0 {
        law_message_oneofs_are_built::<C, E>(source, message, oneofs, (n - 1) as nat);
        let names = texts(oneofs[n - 1].fields@);
        law_oneofs_are_of_the_fields_they_name::<C, E>(source, message, names, names.len());
        let earlier = source.message_oneofs::<E>(message, oneofs, (n - 1) as nat)->Ok_0;
        let all = source.message_oneofs::<E>(message, oneofs, n)->Ok_0;
        assert forall|k: int| 0 <= k < n implies built_from::<C, E>(
            source,
            message,
            oneofs[k],
            #[trigger] all[k],
        ) by {
            if k < n - 1 {
                assert(all[k] == earlier[k]);
            }
        }
    }
}

/// Whether a message oneof is what its rule says: its names are printed as
/// they stand, its fields are those that they name, and one is required where
/// the rule says so.
pub open spec fn built_from<C: Engine, E>(
    source: Source<C>,
    message: MessageDescriptor,
    rule: MessageOneofRule,
    built: MessageOneofV,
) -> bool {
    &&& rule.fields@.len() > 0
    &&& built.required <==> rule.required == Some(true)
    &&& built.names == joined(texts(rule.fields@))
    &&& built.fields.len() == rule.fields@.len()
    &&& source.oneof_fields::<E>(message, texts(rule.fields@), rule.fields@.len()) == Ok::<
        Seq<FieldV>,
        ErrorV<E>,
    >(built.fields)
}

/// Whether a oneof has to have a member set.
pub open spec fn has_to_be_set<C: Engine>(
    source: Source<C>,
    message: MessageDescriptor,
    oneof: OneofDescriptor,
) -> bool {
    source.descriptors.oneof_rules_of(message, oneof) matches Some(rules) && rules.required
        == Some(true)
}

/// The oneofs that have to have a member set are those whose rules say so,
/// each reported under its name.
pub proof fn law_required_oneofs_are_built<C: Engine>(
    source: Source<C>,
    message: MessageDescriptor,
    n: nat,
)
    requires
        n <= message.oneofs@.len(),
    ensures
        forall|i: int|
            0 <= i < n && has_to_be_set(source, message, #[trigger] message.oneofs@[i])
                ==> exists|k: int|
                0 <= k < source.required_oneofs(message, n).len() && made_for(
                    source,
                    message,
                    message.oneofs@[i],
                    #[trigger] source.required_oneofs(message, n)[k],
                ),
        forall|k: int|
            0 <= k < source.required_oneofs(message, n).len() ==> exists|i: int|
                0 <= i < n && has_to_be_set(source, message, #[trigger] message.oneofs@[i])
                    && made_for(
                    source,
                    message,
                    message.oneofs@[i],
                    #[trigger] source.required_oneofs(message, n)[k],
                ),
    decreases n,
{
    if n > 0 {
        law_required_oneofs_are_built(source, message, (n - 1) as nat);
        let earlier = source.required_oneofs(message, (n - 1) as nat);
        let all = source.required_oneofs(message, n);
        let oneof = message.oneofs@[n - 1];
        if has_to_be_set(source, message, oneof) {
            lemma_members(source, message, oneof.fields@, oneof.fields@.len());
            assert(made_for(source, message, oneof, all[earlier.len() as int]));
        }
        assert forall|i: int|
            0 <= i < n && has_to_be_set(source, message, #[trigger] message.oneofs@[i]) implies exists|
            k: int,
        |
            0 <= k < all.len() && made_for(
                source,
                message,
                message.oneofs@[i],
                #[trigger] all[k],
            ) by {
            if i < n - 1 {
                let k = choose|k: int|
                    0 <= k < earlier.len() && made_for(
                        source,
                        message,
                        message.oneofs@[i],
                        #[trigger] earlier[k],
                    );
                assert(all[k] == earlier[k]);
            } else {
                assert(made_for(source, message, oneof, all[earlier.len() as int]));
            }
        }
        assert forall|k: int| 0 <= k < all.len() implies exists|i: int|
            0 <= i < n && has_to_be_set(source, message, #[trigger] message.oneofs@[i]) && made_for(
                source,
                message,
                message.oneofs@[i],
                #[trigger] all[k],
            ) by {
            if k < earlier.len() {
                assert(all[k] == earlier[k]);
                let i = choose|i: int|
                    0 <= i < n - 1 && has_to_be_set(source, message, #[trigger] message.oneofs@[i])
                        && made_for(source, message, message.oneofs@[i], earlier[k]);
                assert(has_to_be_set(source, message, message.oneofs@[i]));
            } else {
                assert(has_to_be_set(source, message, message.oneofs@[n - 1]));
            }
        }
    }
}

/// Whether a required oneof is made for a oneof declaration: it has its name,
/// and its members are those that are declared.
pub open spec fn made_for<C: Engine>(
    source: Source<C>,
    message: MessageDescriptor,
    oneof: OneofDescriptor,
    made: OneofRequiredV,
) -> bool {
    &&& made.element.field_name == Some(oneof.name@)
    &&& made.element.field_number is None
    &&& made.element.subscript is None
    &&& members_of(source, message, oneof.fields@, oneof.fields@.len(), made.members)
}

/// Whether the members are the fields at the first `n` places.
pub open spec fn members_of<C: Engine>(
    source: Source<C>,
    message: MessageDescriptor,
    places: Seq<u16>,
    n: nat,
    members: Seq<FieldV>,
) -> bool {
    &&& forall|i: int|
        0 <= i < n && (#[trigger] places[i]) < message.fields@.len() ==> members.contains(
            source.descriptors.field_at(message.fields@[places[i] as int]),
        )
    &&& forall|k: int|
        0 <= k < members.len() ==> exists|i: int|
            0 <= i < n && (#[trigger] places[i]) < message.fields@.len() && #[trigger] members[k]
                == source.descriptors.field_at(message.fields@[places[i] as int])
}

proof fn lemma_members<C: Engine>(
    source: Source<C>,
    message: MessageDescriptor,
    places: Seq<u16>,
    n: nat,
)
    requires
        n <= places.len(),
    ensures
        members_of(source, message, places, n, source.members(message, places, n)),
    decreases n,
{
    if n > 0 {
        lemma_members(source, message, places, (n - 1) as nat);
        let earlier = source.members(message, places, (n - 1) as nat);
        let all = source.members(message, places, n);
        assert forall|i: int| 0 <= i < n && (#[trigger] places[i])
            < message.fields@.len() implies all.contains(
            source.descriptors.field_at(message.fields@[places[i] as int]),
        ) by {
            let member = source.descriptors.field_at(message.fields@[places[i] as int]);
            if i < n - 1 {
                let k = choose|k: int| 0 <= k < earlier.len() && earlier[k] == member;
                assert(all[k] == member);
            } else {
                assert(all[earlier.len() as int] == member);
            }
        }
        assert forall|k: int| 0 <= k < all.len() implies exists|i: int|
            0 <= i < n && (#[trigger] places[i]) < message.fields@.len() && #[trigger] all[k]
                == source.descriptors.field_at(message.fields@[places[i] as int]) by {
            if k < earlier.len() {
                assert(all[k] == earlier[k]);
                let i = choose|i: int|
                    0 <= i < n - 1 && (#[trigger] places[i]) < message.fields@.len() && earlier[k]
                        == source.descriptors.field_at(message.fields@[places[i] as int]);
                assert(places[i] < message.fields@.len());
            } else {
                assert(places[n - 1] < message.fields@.len());
            }
        }
    }
}

/// The messages of a field are told to be ignored where the field's rules are
/// always, or those of its elements or map values.
pub proof fn law_ignored_messages(rules: FieldRules)
    ensures
        !messages_ignored(None),
        rules.ignore == Some(Ignore::Always) ==> messages_ignored(Some(rules)),
        rules.standard is None ==> (messages_ignored(Some(rules)) <==> rules.ignore == Some(
            Ignore::Always,
        )),
        rules.standard matches Some(standard) ==> match standard.rules {
            RulesType::Repeated(r) => messages_ignored(Some(rules)) <==> rules.ignore == Some(
                Ignore::Always,
            ) || (r.items matches Some(items) && items.ignore == Some(Ignore::Always)),
            RulesType::Mapping(r) => messages_ignored(Some(rules)) <==> rules.ignore == Some(
                Ignore::Always,
            ) || (r.values matches Some(values) && values.ignore == Some(Ignore::Always)),
            _ => messages_ignored(Some(rules)) <==> rules.ignore == Some(Ignore::Always),
        },
{
}

/// The rules of a message type are made of its custom rules, its message
/// oneofs, the rules of its fields, its required oneofs and the messages of
/// its fields, all of them.
pub proof fn law_message_rules_are_made_of_all_parts<C: Engine, E>(
    source: Source<C>,
    message: MessageDescriptor,
)
    requires
        source.message::<E>(message) is Ok,
    ensures
        ({
            let made = source.message::<E>(message)->Ok_0;
            let rules = source.descriptors.message_rules_of(message);
            &&& source.programs::<E>(source.message_cel(message)) == Ok::<
                Option<ProgramSetV<C::Program>>,
                ErrorV<E>,
            >(made.cel)
            &&& source.fields::<E>(message, message.fields@.len()) == Ok::<
                Seq<FieldEvaluatorV<C::Program>>,
                ErrorV<E>,
            >(made.fields)
            &&& made.oneofs == source.required_oneofs(message, message.oneofs@.len())
            &&& made.nested == source.nested(message, message.fields@.len())
            &&& rules is None ==> made.message_oneofs.len() == 0
            &&& rules matches Some(rules) ==> source.message_oneofs::<E>(
                message,
                rules.oneof@,
                rules.oneof@.len(),
            ) == Ok::<Seq<MessageOneofV>, ErrorV<E>>(made.message_oneofs)
        }),
{
    reveal(Source::message);
}

/// The path of a custom rule: that of the list it stands in, with its
/// position, or none for a rule of a message.
pub open spec fn path_in_list(
    path: Seq<FieldPathElementV>,
    list: Option<FieldPathElementV>,
    i: int,
) -> bool {
    match list {
        None => path.len() == 0,
        Some(element) => path.len() == 1 && path[0].subscript == Some(SubscriptV::Index(i as u64))
            && path[0].field_name == element.field_name && path[0].field_number
            == element.field_number && path[0].field_type == element.field_type,
    }
}

/// One more rule leaves those before it.
proof fn lemma_pushed(earlier: CompiledV, all: CompiledV)
    requires
        earlier.metas.len() == earlier.expressions.len(),
        all.metas.len() == earlier.metas.len() + 1,
        all.expressions.len() == earlier.expressions.len() + 1,
        all.metas.drop_last() == earlier.metas,
        all.expressions.drop_last() == earlier.expressions,
    ensures
        forall|k: int|
            0 <= k < earlier.metas.len() ==> #[trigger] all.metas[k] == earlier.metas[k]
                && all.expressions[k] == earlier.expressions[k],
{
    assert forall|k: int| 0 <= k < earlier.metas.len() implies #[trigger] all.metas[k]
        == earlier.metas[k] && all.expressions[k] == earlier.expressions[k] by {
        assert(all.metas.drop_last()[k] == all.metas[k]);
        assert(all.expressions.drop_last()[k] == all.expressions[k]);
    }
}

/// The expressions of a list are compiled behind the rules before them, in
/// order; each is its own id, has no message, and is on the list's path at
/// its position.
pub proof fn law_expressions_are_compiled_in_order(
    compiled: CompiledV,
    expressions: Seq<String>,
    list: Option<FieldPathElementV>,
    n: nat,
)
    requires
        n <= expressions.len(),
        compiled.expressions.len() == compiled.metas.len(),
    ensures
        ({
            let all = with_expressions(compiled, expressions, list, n);
            let before = compiled.expressions.len() as int;
            &&& all.expressions.len() == before + n
            &&& all.metas.len() == before + n
            &&& all.rules == compiled.rules
            &&& forall|k: int|
                0 <= k < before ==> #[trigger] all.metas[k] == compiled.metas[k]
                    && all.expressions[k] == compiled.expressions[k]
            &&& forall|k: int|
                before <= k < before + n ==> {
                    let i = k - before;
                    let meta = #[trigger] all.metas[k];
                    &&& meta.id == expressions[i]@
                    &&& meta.expression == expressions[i]@
                    &&& meta.message.len() == 0
                    &&& path_in_list(meta.rule_path, list, i)
                    &&& all.expressions[k].expression == expressions[i]@
                    &&& all.expressions[k].rule_field_number == 0
                }
        }),
    decreases n,
{
    if n > 0 {
        law_expressions_are_compiled_in_order(compiled, expressions, list, (n - 1) as nat);
        let earlier = with_expressions(compiled, expressions, list, (n - 1) as nat);
        let all = with_expressions(compiled, expressions, list, n);
        let before = compiled.expressions.len() as int;
        assert(all.metas.drop_last() =~= earlier.metas);
        assert(all.expressions.drop_last() =~= earlier.expressions);
        lemma_pushed(earlier, all);
        assert forall|k: int| before <= k < before + n implies {
            let i = k - before;
            let meta = #[trigger] all.metas[k];
            &&& meta.id == expressions[i]@
            &&& meta.expression == expressions[i]@
            &&& meta.message.len() == 0
            &&& path_in_list(meta.rule_path, list, i)
            &&& all.expressions[k].expression == expressions[i]@
            &&& all.expressions[k].rule_field_number == 0
        } by {
            if k < before + n - 1 {
                assert(all.metas[k] == earlier.metas[k]);
            } else {
                assert(all.metas[k] == all.metas.last());
            }
        }
    }
}

/// A text that may be left out, which is then empty.
pub open spec fn says(text: Seq<char>, given: Option<String>) -> bool {
    match given {
        Some(given) => text == given@,
        None => text.len() == 0,
    }
}

/// The custom rules of a list are compiled behind the rules before them, in
/// order, each under its id, with its message and its expression, on the
/// list's path at its position.
pub proof fn law_custom_rules_are_compiled_in_order(
    compiled: CompiledV,
    rules: Seq<Rule>,
    list: Option<FieldPathElementV>,
    n: nat,
)
    requires
        n <= rules.len(),
        compiled.expressions.len() == compiled.metas.len(),
    ensures
        ({
            let all = with_cel_rules(compiled, rules, list, n);
            let before = compiled.expressions.len() as int;
            &&& all.expressions.len() == before + n
            &&& all.metas.len() == before + n
            &&& all.rules == compiled.rules
            &&& forall|k: int|
                0 <= k < before ==> #[trigger] all.metas[k] == compiled.metas[k]
                    && all.expressions[k] == compiled.expressions[k]
            &&& forall|k: int|
                before <= k < before + n ==> {
                    let i = k - before;
                    let meta = #[trigger] all.metas[k];
                    &&& says(meta.id, rules[i].id)
                    &&& says(meta.expression, rules[i].expression)
                    &&& says(meta.message, rules[i].message)
                    &&& path_in_list(meta.rule_path, list, i)
                    &&& says(all.expressions[k].expression, rules[i].expression)
                    &&& all.expressions[k].rule_field_number == 0
                }
        }),
    decreases n,
{
    if n > 0 {
        law_custom_rules_are_compiled_in_order(compiled, rules, list, (n - 1) as nat);
        let earlier = with_cel_rules(compiled, rules, list, (n - 1) as nat);
        let all = with_cel_rules(compiled, rules, list, n);
        let before = compiled.expressions.len() as int;
        assert(all.metas.drop_last() =~= earlier.metas);
        assert(all.expressions.drop_last() =~= earlier.expressions);
        lemma_pushed(earlier, all);
        assert forall|k: int| before <= k < before + n implies {
            let i = k - before;
            let meta = #[trigger] all.metas[k];
            &&& says(meta.id, rules[i].id)
            &&& says(meta.expression, rules[i].expression)
            &&& says(meta.message, rules[i].message)
            &&& path_in_list(meta.rule_path, list, i)
            &&& says(all.expressions[k].expression, rules[i].expression)
            &&& all.expressions[k].rule_field_number == 0
        } by {
            if k < before + n - 1 {
                assert(all.metas[k] == earlier.metas[k]);
            } else {
                assert(all.metas[k] == all.metas.last());
            }
        }
    }
}

/// The rules that an extension field is predefined as are compiled behind the
/// rules before them, in order, each under its id, with its message and its
/// expression, on the path of the extension, and with its number.
pub proof fn law_predefined_rules_are_compiled_in_order(
    compiled: CompiledV,
    rules: Seq<Rule>,
    number: i32,
    path: Seq<FieldPathElementV>,
    n: nat,
)
    requires
        n <= rules.len(),
        compiled.expressions.len() == compiled.metas.len(),
    ensures
        ({
            let all = with_predefined(compiled, rules, number, path, n);
            let before = compiled.expressions.len() as int;
            &&& all.expressions.len() == before + n
            &&& all.metas.len() == before + n
            &&& all.rules == compiled.rules
            &&& forall|k: int|
                0 <= k < before ==> #[trigger] all.metas[k] == compiled.metas[k]
                    && all.expressions[k] == compiled.expressions[k]
            &&& forall|k: int|
                before <= k < before + n ==> {
                    let i = k - before;
                    let meta = #[trigger] all.metas[k];
                    &&& says(meta.id, rules[i].id)
                    &&& says(meta.expression, rules[i].expression)
                    &&& says(meta.message, rules[i].message)
                    &&& meta.rule_path == path
                    &&& says(all.expressions[k].expression, rules[i].expression)
                    &&& all.expressions[k].rule_field_number == number
                }
        }),
    decreases n,
{
    if n > 0 {
        law_predefined_rules_are_compiled_in_order(compiled, rules, number, path, (n - 1) as nat);
        let earlier = with_predefined(compiled, rules, number, path, (n - 1) as nat);
        let all = with_predefined(compiled, rules, number, path, n);
        let before = compiled.expressions.len() as int;
        assert(all.metas.drop_last() =~= earlier.metas);
        assert(all.expressions.drop_last() =~= earlier.expressions);
        lemma_pushed(earlier, all);
        assert forall|k: int| before <= k < before + n implies {
            let i = k - before;
            let meta = #[trigger] all.metas[k];
            &&& says(meta.id, rules[i].id)
            &&& says(meta.expression, rules[i].expression)
            &&& says(meta.message, rules[i].message)
            &&& meta.rule_path == path
            &&& says(all.expressions[k].expression, rules[i].expression)
            &&& all.expressions[k].rule_field_number == number
        } by {
            if k < before + n - 1 {
                assert(all.metas[k] == earlier.metas[k]);
            } else {
                assert(all.metas[k] == all.metas.last());
            }
        }
    }
}

/// A value without rules for CEL has no program; any other has the program of
/// all its expressions, with what each reports.
pub proof fn law_programs_are_compiled_together<C: Engine, E>(
    source: Source<C>,
    compiled: CompiledV,
)
    ensures
        compiled.expressions.len() == 0 ==> source.programs::<E>(compiled) == Ok::<
            Option<ProgramSetV<C::Program>>,
            ErrorV<E>,
        >(None),
        compiled.expressions.len() > 0 ==> match source.engine.compiled(
            compiled.rules,
            compiled.expressions,
        ) {
            Ok(program) => source.programs::<E>(compiled) matches Ok(Some(set)) && set.program
                == program && set.rules == compiled.metas,
            Err(error) => source.programs::<E>(compiled) == Err::<
                Option<ProgramSetV<C::Program>>,
                ErrorV<E>,
            >(ErrorV::Compilation(error.text())),
        },
{
}

/// Whether a check is one that a rule makes, on the path of the rule.
pub open spec fn placed_at(
    check: CheckV,
    native: NativeV,
    rule: FieldPathElementV,
    of: FieldPathElementV,
) -> bool {
    &&& check.id == native.id
    &&& check.message == native.message
    &&& check.test == native.test
    &&& check.rule_path == seq![rule, of]
}

/// Whether a check of a rule is among the checks.
pub open spec fn one_among(
    checks: Seq<CheckV>,
    native: NativeV,
    rule: FieldPathElementV,
    of: FieldPathElementV,
) -> bool {
    exists|k: int| 0 <= k < checks.len() && placed_at(#[trigger] checks[k], native, rule, of)
}

/// Whether all checks of a rule are among the checks.
pub open spec fn among(
    checks: Seq<CheckV>,
    natives: Seq<NativeV>,
    rule: FieldPathElementV,
    of: FieldPathElementV,
) -> bool {
    forall|j: int|
        0 <= j < natives.len() ==> one_among(checks, #[trigger] natives[j], rule, of)
}

proof fn lemma_among_more(
    checks: Seq<CheckV>,
    more: Seq<CheckV>,
    natives: Seq<NativeV>,
    rule: FieldPathElementV,
    of: FieldPathElementV,
)
    requires
        among(checks, natives, rule, of),
    ensures
        among(checks + more, natives, rule, of),
{
    assert forall|j: int| 0 <= j < natives.len() implies one_among(
        checks + more,
        #[trigger] natives[j],
        rule,
        of,
    ) by {
        assert(one_among(checks, natives[j], rule, of));
        let k = choose|k: int|
            0 <= k < checks.len() && placed_at(#[trigger] checks[k], natives[j], rule, of);
        assert((checks + more)[k] == checks[k]);
    }
}

proof fn lemma_among_placed(
    checks: Seq<CheckV>,
    natives: Seq<NativeV>,
    rule: FieldPathElementV,
    of: FieldPathElementV,
)
    ensures
        among(checks + placed(natives, seq![rule, of]), natives, rule, of),
{
    let more = placed(natives, seq![rule, of]);
    assert forall|j: int| 0 <= j < natives.len() implies one_among(
        checks + more,
        #[trigger] natives[j],
        rule,
        of,
    ) by {
        assert((checks + more)[checks.len() + j] == more[j]);
        assert(placed_at((checks + more)[checks.len() + j], natives[j], rule, of));
    }
}

/// The checks of rule fields come in the order of the fields: those of a
/// later field stand behind those of the earlier ones.
pub proof fn law_checks_come_in_the_order_of_their_rules<C: Engine, E>(
    source: Source<C>,
    rules: RulesType,
    numbers: Seq<u32>,
    n: nat,
)
    requires
        0 < n <= numbers.len(),
        source.set_rules::<E>(rules, numbers, n) is Ok,
    ensures
        source.set_rules::<E>(rules, numbers, (n - 1) as nat) is Ok,
        exists|more: Seq<CheckV>|
            source.set_rules::<E>(rules, numbers, n)->Ok_0.0 == #[trigger] (
            source.set_rules::<E>(rules, numbers, (n - 1) as nat)->Ok_0.0 + more),
{
    let earlier = source.set_rules::<E>(rules, numbers, (n - 1) as nat)->Ok_0.0;
    assert(earlier + Seq::<CheckV>::empty() =~= earlier);
}

/// Every rule field that a rules message sets has its checks: all that the
/// rule makes, under the name of the rules, on the path of the rule field
/// within the rules.
pub proof fn law_every_set_rule_is_checked<C: Engine, E>(
    source: Source<C>,
    rules: RulesType,
    numbers: Seq<u32>,
    n: nat,
    i: int,
    field: FieldDescriptor,
)
    requires
        0 <= i < n <= numbers.len(),
        source.set_rules::<E>(rules, numbers, n) is Ok,
        source.descriptors.field_of(rules_message(rules), numbers[i]) == Some(field),
    ensures
        rule_checks::<E>(rules_field(rules), rules, numbers[i]) matches Ok(natives) && among(
            source.set_rules::<E>(rules, numbers, n)->Ok_0.0,
            natives,
            field_element(field),
            source.schema.type_element(rules_field(rules)),
        ),
    decreases n,
{
    let of = source.schema.type_element(rules_field(rules));
    let earlier = source.set_rules::<E>(rules, numbers, (n - 1) as nat)->Ok_0.0;
    let all = source.set_rules::<E>(rules, numbers, n)->Ok_0.0;
    law_checks_come_in_the_order_of_their_rules::<C, E>(source, rules, numbers, n);
    if i < n - 1 {
        law_every_set_rule_is_checked::<C, E>(source, rules, numbers, (n - 1) as nat, i, field);
        let natives = rule_checks::<E>(rules_field(rules), rules, numbers[i])->Ok_0;
        let more = choose|more: Seq<CheckV>| all == #[trigger] (earlier + more);
        lemma_among_more(earlier, more, natives, field_element(field), of);
    } else {
        let natives = rule_checks::<E>(rules_field(rules), rules, numbers[i])->Ok_0;
        lemma_among_placed(earlier, natives, field_element(field), of);
    }
}

/// A rules message that does not decode, or that holds rules which are not
/// known, is refused by name.
pub proof fn law_unknown_rules_are_refused<C: Engine, E>(
    source: Source<C>,
    standard: StandardRules,
    numbers: Seq<u32>,
    error: Seq<char>,
)
    ensures
        source.decoded::<E>(
            standard,
            Ok(DecodedV { unknown: true, numbers }),
        ) == Err::<(Seq<CheckV>, CompiledV), ErrorV<E>>(
            ErrorV::Compilation("unknown rules in "@ + rules_message(standard.rules)),
        ),
        source.decoded::<E>(standard, Err(error)) == Err::<(Seq<CheckV>, CompiledV), ErrorV<E>>(
            ErrorV::Compilation(
                "could not decode "@ + rules_message(standard.rules) + ": "@ + error,
            ),
        ),
{
}

/// The rules message that predefined rules see is the one that was read:
/// `rules` is bound to its bytes, under its name.
pub proof fn law_predefined_rules_see_the_rules_message<C: Engine, E>(
    source: Source<C>,
    standard: StandardRules,
    numbers: Seq<u32>,
)
    requires
        source.decoded::<E>(
            standard,
            Ok(DecodedV { unknown: false, numbers }),
        ) is Ok,
    ensures
        ({
            let built = source.decoded::<E>(
                standard,
                Ok(DecodedV { unknown: false, numbers }),
            )->Ok_0;
            &&& built.1.rules matches Some(binding) && binding.full_name == rules_message(
                standard.rules,
            ) && binding.bytes == standard.bytes@
            &&& source.set_rules::<E>(standard.rules, numbers, numbers.len()) is Ok
            &&& built.0 == source.set_rules::<E>(standard.rules, numbers, numbers.len())->Ok_0.0
        }),
{
}

/// A rule field that the rules message does not declare is an extension field:
/// the rules it is predefined as are compiled, on the extension's path within
/// the rules and with its number. One that is no rule, and one that is not
/// known, add nothing.
pub proof fn law_extension_fields_are_compiled<C: Engine>(
    source: Source<C>,
    compiled: CompiledV,
    extendee: Seq<char>,
    number: u32,
    of: FieldPathElementV,
)
    requires
        number <= i32::MAX,
        compiled.expressions.len() == compiled.metas.len(),
    ensures
        ({
            let all = source.with_extension(compiled, extendee, number, of);
            let before = compiled.metas.len() as int;
            match source.descriptors.extension_of(extendee, number) {
                None => all == compiled,
                Some(extension) => match extension.predefined {
                    None => all == compiled,
                    Some(cel) => {
                        &&& all.metas.len() == before + cel@.len()
                        &&& all.expressions.len() == before + cel@.len()
                        &&& forall|k: int|
                            0 <= k < before ==> #[trigger] all.metas[k] == compiled.metas[k]
                                && all.expressions[k] == compiled.expressions[k]
                        &&& forall|k: int|
                            before <= k < before + cel@.len() ==> {
                                let meta = #[trigger] all.metas[k];
                                &&& says(meta.id, cel@[k - before].id)
                                &&& says(meta.message, cel@[k - before].message)
                                &&& says(meta.expression, cel@[k - before].expression)
                                &&& meta.rule_path.len() == 2
                                &&& meta.rule_path[0].field_name == Some(
                                    seq!['['] + extension.full_name@ + seq![']'],
                                )
                                &&& meta.rule_path[0].field_number == Some(extension.number as i32)
                                &&& meta.rule_path[1] == of
                                &&& says(
                                    all.expressions[k].expression,
                                    cel@[k - before].expression,
                                )
                                &&& all.expressions[k].rule_field_number == number
                            }
                    },
                },
            }
        }),
{
    if let Some(extension) = source.descriptors.extension_of(extendee, number) {
        if let Some(cel) = extension.predefined {
            let path = seq![extension_element(extension), of];
            law_predefined_rules_are_compiled_in_order(
                compiled,
                cel@,
                number as i32,
                path,
                cel@.len(),
            );
            law_elements_of_extensions_and_oneofs(extension, extendee);
            law_extensions_are_found_by_number(source.descriptors, extendee, number);
        }
    }
}

/// Whether what is compiled for a value is what stands before, and behind it
/// its expressions, and behind those its custom rules.
pub open spec fn compiled_behind(
    before: CompiledV,
    expressions: Seq<String>,
    rules: Seq<Rule>,
    all: Seq<RuleMetaV>,
) -> bool {
    let n = before.metas.len() as int;
    let m = n + expressions.len();
    &&& all.len() == m + rules.len()
    &&& forall|k: int| 0 <= k < n ==> #[trigger] all[k] == before.metas[k]
    &&& forall|k: int|
        n <= k < m ==> (#[trigger] all[k]).id == expressions[k - n]@ && all[k].expression
            == expressions[k - n]@ && all[k].message.len() == 0
    &&& forall|k: int|
        m <= k < all.len() ==> says((#[trigger] all[k]).id, rules[k - m].id) && says(
            all[k].expression,
            rules[k - m].expression,
        ) && says(all[k].message, rules[k - m].message)
}

/// The rules of a value are its standard ones, with what they are predefined
/// as, and its custom ones behind them: first its expressions and then its
/// rules, each in order. A value without any of those for CEL has no program.
pub proof fn law_values_have_all_their_rules<C: Engine, E>(
    source: Source<C>,
    target: Target,
    rules: FieldRules,
    ignore: Option<Ignore>,
    before: CompiledV,
)
    requires
        source.value::<E>(target, rules, ignore) matches Ok(Some(_)),
        before.expressions.len() == before.metas.len(),
        match rules.standard {
            None => before == no_cel(),
            Some(standard) => source.standard::<E>(target, standard) matches Ok(s) && s.compiled
                == before,
        },
    ensures
        ({
            let made = source.value::<E>(target, rules, ignore)->Ok_0->Some_0;
            let count = before.metas.len() + rules.cel_expression@.len() + rules.cel@.len();
            &&& made.required <==> rules.required == Some(true)
            &&& made.rules.scalar == scalar_kind_of(target.kind)
            &&& made.rules.ignore_empty <==> ignores_empty(target, ignore)
            &&& made.rules.programs is None <==> count == 0
            &&& made.rules.programs matches Some(programs) ==> compiled_behind(
                before,
                rules.cel_expression@,
                rules.cel@,
                programs.rules,
            )
            &&& rules.standard is None ==> made.rules.checks.len() == 0 && made.rules.any is None
                && made.defined_only is None && made.items is None && made.keys is None
                && made.values is None && made.rules.wrapper is None
            &&& rules.standard matches Some(standard) ==> {
                let s = source.standard::<E>(target, standard)->Ok_0;
                &&& made.rules.checks == s.checks
                &&& made.rules.any == s.any
                &&& made.rules.wrapper == s.wrapper
                &&& made.defined_only == s.defined_only
                &&& made.items == s.items
                &&& made.keys == s.keys
                &&& made.values == s.values
            }
        }),
{
    let expressions = rules.cel_expression@;
    let list = Some(source.schema.cel_expression);
    let middle = with_expressions(before, expressions, list, expressions.len());
    law_expressions_are_compiled_in_order(before, expressions, list, expressions.len());
    law_custom_rules_are_compiled_in_order(
        middle,
        rules.cel@,
        Some(source.schema.cel),
        rules.cel@.len(),
    );
    let all = with_cel_rules(middle, rules.cel@, Some(source.schema.cel), rules.cel@.len());
    let n = before.metas.len() as int;
    let m = n + expressions.len();
    assert forall|k: int| 0 <= k < n implies #[trigger] all.metas[k] == before.metas[k] by {
        assert(all.metas[k] == middle.metas[k]);
    }
    assert forall|k: int| n <= k < m implies (#[trigger] all.metas[k]).id == expressions[k - n]@
        && all.metas[k].expression == expressions[k - n]@ && all.metas[k].message.len() == 0 by {
        assert(all.metas[k] == middle.metas[k]);
    }
}

/// The custom rules of a message type are its expressions and behind them its
/// rules, each in order, and on no path.
pub proof fn law_message_types_have_all_their_rules<C: Engine>(
    source: Source<C>,
    message: MessageDescriptor,
)
    ensures
        source.descriptors.message_rules_of(message) is None ==> source.message_cel(
            message,
        ).expressions.len() == 0,
        source.descriptors.message_rules_of(message) matches Some(rules) ==> {
            let all = source.message_cel(message);
            &&& compiled_behind(no_cel(), rules.cel_expression@, rules.cel@, all.metas)
            &&& all.expressions.len() == all.metas.len()
            &&& forall|k: int|
                0 <= k < all.metas.len() ==> (#[trigger] all.metas[k]).rule_path.len() == 0
            &&& all.rules is None
        },
{
    if let Some(rules) = source.descriptors.message_rules_of(message) {
        let expressions = rules.cel_expression@;
        let middle = with_expressions(no_cel(), expressions, None, expressions.len());
        law_expressions_are_compiled_in_order(no_cel(), expressions, None, expressions.len());
        law_custom_rules_are_compiled_in_order(middle, rules.cel@, None, rules.cel@.len());
        let all = with_cel_rules(middle, rules.cel@, None, rules.cel@.len());
        assert forall|k: int| 0 <= k < expressions.len() implies #[trigger] all.metas[k]
            == middle.metas[k] by {}
    }
}

/// The rules of a list's elements are made for what the list holds, and those
/// of a map's keys and values for its keys and values: they have to suit
/// those, and see them.
pub proof fn law_item_rules_are_made_for_the_items<C: Engine, E>(
    source: Source<C>,
    target: Target,
    rules: RulesType,
)
    requires
        source.items::<E>(target, rules) is Ok,
    ensures
        ({
            let (items, keys, values) = source.items::<E>(target, rules)->Ok_0;
            &&& items matches Some(made) ==> made.rules.scalar == scalar_kind_of(target.kind)
                && made.rule_prefix == source.rule_prefix(ItemKind::Items)
            &&& values matches Some(made) ==> made.rules.scalar == scalar_kind_of(target.kind)
                && made.rule_prefix == source.rule_prefix(ItemKind::Values)
            &&& keys matches Some(made) ==> target.shape matches Shape::Mapping { key }
                && made.rules.scalar == scalar_kind_of(SingularKind::Scalar(key))
                && made.rule_prefix == source.rule_prefix(ItemKind::Keys)
            &&& rules matches RulesType::Repeated(r) ==> {
                &&& r.items is None ==> items is None
                &&& r.items matches Some(inner) ==> (inner.ignore != Some(Ignore::Always)
                    ==> items is Some)
                &&& r.items matches Some(inner) ==> (inner.ignore != Some(Ignore::Always)
                    && inner.standard is Some ==> source.mismatch(
                    (Target { ty: type_of_kind(target.kind), ..target }),
                    inner.standard->Some_0.rules,
                ) is None)
            }
            &&& rules matches RulesType::Mapping(r) ==> {
                &&& r.keys is None ==> keys is None
                &&& r.keys matches Some(inner) ==> (inner.ignore != Some(Ignore::Always)
                    ==> keys is Some)
                &&& r.keys matches Some(inner) ==> (inner.ignore != Some(Ignore::Always)
                    && inner.standard is Some ==> source.mismatch(
                    entry_target(SingularKind::Scalar(target.shape->key)),
                    inner.standard->Some_0.rules,
                ) is None)
                &&& r.values is None ==> values is None
                &&& r.values matches Some(inner) ==> (inner.ignore != Some(Ignore::Always)
                    ==> values is Some)
                &&& r.values matches Some(inner) ==> (inner.ignore != Some(Ignore::Always)
                    && inner.standard is Some ==> source.mismatch(
                    entry_target(target.kind),
                    inner.standard->Some_0.rules,
                ) is None)
            }
        }),
{
}

/// Rules of a kind that is not registered cannot be read, which is not
/// expected.
pub proof fn law_unregistered_rules_are_unexpected<C: Engine, E>(
    source: Source<C>,
    standard: StandardRules,
)
    requires
        index_in(source.pool, rules_message(standard.rules)) is None,
    ensures
        source.predefined::<E>(standard) == Err::<(Seq<CheckV>, CompiledV), ErrorV<E>>(
            ErrorV::Unexpected(rules_message(standard.rules) + " is not registered"@),
        ),
{
}

/// The rules of a rules message are those of the fields that its bytes set,
/// in the order of their numbers.
pub proof fn law_rules_are_those_that_the_bytes_set<C: Engine, E>(
    source: Source<C>,
    standard: StandardRules,
    message: buffa_descriptor::reflect::DynamicMessage,
)
    requires
        index_in(source.pool, rules_message(standard.rules)) matches Some(index) && dynamic_in(
            source.pool,
            index,
            standard.bytes@,
        ) == Ok::<buffa_descriptor::reflect::DynamicMessage, Seq<char>>(message),
    ensures
        has_unknown(message) ==> source.predefined::<E>(standard) is Err,
        source.predefined::<E>(standard) matches Ok(built) ==> source.set_rules::<E>(
            standard.rules,
            set_numbers(message),
            set_numbers(message).len(),
        ) matches Ok(set) && set.0 == built.0 && set.1.metas == built.1.metas,
{
}

/// The rules of fields come in the order of the fields: those of one more
/// field stand behind the others, as do the required oneofs.
pub proof fn law_rules_come_in_the_order_of_their_fields<C: Engine, E>(
    source: Source<C>,
    message: MessageDescriptor,
    n: nat,
)
    ensures
        source.fields::<E>(message, n + 1) is Ok ==> source.fields::<E>(message, n) is Ok
            && source.fields::<E>(message, n)->Ok_0.is_prefix_of(
            source.fields::<E>(message, n + 1)->Ok_0,
        ),
        source.required_oneofs(message, n).is_prefix_of(source.required_oneofs(message, n + 1)),
{
}

/// A rule field that the rules message declares adds checks and no custom
/// rules; one that it does not declare adds custom rules and no checks.
pub proof fn law_rule_fields_add_checks_or_custom_rules<C: Engine, E>(
    source: Source<C>,
    rules: RulesType,
    numbers: Seq<u32>,
    n: nat,
)
    requires
        n < numbers.len(),
        source.set_rules::<E>(rules, numbers, n + 1) is Ok,
    ensures
        ({
            let earlier = source.set_rules::<E>(rules, numbers, n);
            let all = source.set_rules::<E>(rules, numbers, n + 1);
            &&& earlier is Ok
            &&& source.descriptors.field_of(rules_message(rules), numbers[n as int]) is Some
                ==> all->Ok_0.1 == earlier->Ok_0.1
            &&& source.descriptors.field_of(rules_message(rules), numbers[n as int]) is None
                ==> all->Ok_0.0 == earlier->Ok_0.0 && all->Ok_0.1 == source.with_extension(
                earlier->Ok_0.1,
                rules_message(rules),
                numbers[n as int],
                source.schema.type_element(rules_field(rules)),
            )
        }),
{
}

/// The first name of a message oneof that stands twice, or that is no field's,
/// is told, with the message.
pub proof fn law_bad_oneof_names_are_told<C: Engine, E>(
    source: Source<C>,
    message: MessageDescriptor,
    names: Seq<Seq<char>>,
    k: nat,
)
    requires
        k < names.len(),
        source.oneof_fields::<E>(message, names, k) is Ok,
    ensures
        (exists|i: int| 0 <= i < k && #[trigger] names[i] == names[k as int])
            ==> source.oneof_fields::<E>(message, names, k + 1) == Err::<Seq<FieldV>, ErrorV<E>>(
            ErrorV::Compilation(
                "duplicate \""@ + names[k as int] + "\" in oneof rule for the message "@
                    + message.full_name@,
            ),
        ),
        (forall|i: int| 0 <= i < k ==> #[trigger] names[i] != names[k as int]) && (forall|j: int|
            0 <= j < message.fields@.len() ==> (#[trigger] message.fields@[j]).name@
                != names[k as int] && message.fields@[j].json_name@ != names[k as int])
            ==> source.oneof_fields::<E>(message, names, k + 1) == Err::<Seq<FieldV>, ErrorV<E>>(
            ErrorV::Compilation(
                "field \""@ + names[k as int] + "\" not found in message "@ + message.full_name@,
            ),
        ),
{
    let earlier = names.take(k as int);
    lemma_named(message.fields@, names[k as int], 0);
    if exists|i: int| 0 <= i < k && #[trigger] names[i] == names[k as int] {
        let i = choose|i: int| 0 <= i < k && #[trigger] names[i] == names[k as int];
        assert(earlier[i] == names[k as int]);
    }
    if earlier.contains(names[k as int]) {
        let i = choose|i: int| 0 <= i < earlier.len() && earlier[i] == names[k as int];
        assert(names[i] == names[k as int]);
    }
}

/// A message oneof rule without names is refused, and the message told.
pub proof fn law_empty_oneofs_are_refused<C: Engine, E>(
    source: Source<C>,
    message: MessageDescriptor,
    oneofs: Seq<MessageOneofRule>,
    k: nat,
)
    requires
        k < oneofs.len(),
        oneofs[k as int].fields@.len() == 0,
        source.message_oneofs::<E>(message, oneofs, k) is Ok,
    ensures
        source.message_oneofs::<E>(message, oneofs, k + 1) == Err::<
            Seq<MessageOneofV>,
            ErrorV<E>,
        >(
            ErrorV::Compilation(
                "at least one field must be specified in oneof rule for the message "@
                    + message.full_name@,
            ),
        ),
{
}

} // verus!
