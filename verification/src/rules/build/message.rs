//! The rules of a message type.

use super::cel::Compiled;
use super::names::shape_of;
use super::Builder;
use crate::cel::Engine;
use crate::descriptors::{
    entry_element, message_type, oneof_path_element, path_element, proto_type, referred,
    values_kind, FieldDescriptor, FieldKind, MessageDescriptor,
};
use crate::error::{Error, ErrorV};
use crate::protobuf::{fields_of, Field, FieldV};
use crate::rules::plan::{
    always_ignored, field_named, in_oneofs, messages_ignored, place_of, Source, Target,
};
use crate::rules::{
    field_evaluators_of, message_oneofs_of, nested_of, oneofs_of, FieldEvaluator, FieldEvaluatorV,
    MessageEvaluator, MessageEvaluatorV, MessageOneof, MessageOneofV, Nested, OneofRequired,
};
use crate::strings::{has_text, same_text};
use crate::text::{concat, concat3, join, texts};
use crate::validate::rules::{FieldRules, Ignore, MessageOneofRule, RulesType};
use vstd::prelude::*;

verus! {

/// What building the rules of a field gives.
pub open spec fn fallible_field<P, E>(r: Result<Option<FieldEvaluator<P>>, Error<E>>) -> Result<
    Option<FieldEvaluatorV<P>>,
    ErrorV<E>,
> {
    match r {
        Ok(Some(field)) => Ok(Some(field@)),
        Ok(None) => Ok(None),
        Err(error) => Err(error@),
    }
}

/// What building the rules of fields gives.
pub open spec fn fallible_fields<P, E>(r: Result<Vec<FieldEvaluator<P>>, Error<E>>) -> Result<
    Seq<FieldEvaluatorV<P>>,
    ErrorV<E>,
> {
    match r {
        Ok(fields) => Ok(field_evaluators_of(fields@)),
        Err(error) => Err(error@),
    }
}

/// What building the rules of a message type gives.
pub open spec fn fallible_evaluator<P, E>(r: Result<MessageEvaluator<P>, Error<E>>) -> Result<
    MessageEvaluatorV<P>,
    ErrorV<E>,
> {
    match r {
        Ok(evaluator) => Ok(evaluator@),
        Err(error) => Err(error@),
    }
}

/// What resolving the fields of a oneof rule gives.
pub open spec fn fallible_members<E>(r: Result<Vec<Field>, Error<E>>) -> Result<
    Seq<FieldV>,
    ErrorV<E>,
> {
    match r {
        Ok(fields) => Ok(fields_of(fields@)),
        Err(error) => Err(error@),
    }
}

/// What building the oneof rules of a message gives.
pub open spec fn fallible_oneofs<E>(r: Result<Vec<MessageOneof>, Error<E>>) -> Result<
    Seq<MessageOneofV>,
    ErrorV<E>,
> {
    match r {
        Ok(oneofs) => Ok(message_oneofs_of(oneofs@)),
        Err(error) => Err(error@),
    }
}

/// A failure among the first fields is the failure of all.
proof fn lemma_fields_failure<C: Engine, E>(
    source: Source<C>,
    message: MessageDescriptor,
    i: nat,
    n: nat,
)
    requires
        i <= n,
        source.fields::<E>(message, i) is Err,
    ensures
        source.fields::<E>(message, n) == source.fields::<E>(message, i),
    decreases n,
{
    if i < n {
        lemma_fields_failure::<C, E>(source, message, i, (n - 1) as nat);
    }
}

/// A failure among the first names is the failure of all.
proof fn lemma_oneof_fields_failure<C: Engine, E>(
    source: Source<C>,
    message: MessageDescriptor,
    names: Seq<Seq<char>>,
    i: nat,
    n: nat,
)
    requires
        i <= n,
        source.oneof_fields::<E>(message, names, i) is Err,
    ensures
        source.oneof_fields::<E>(message, names, n) == source.oneof_fields::<E>(
            message,
            names,
            i,
        ),
    decreases n,
{
    if i < n {
        lemma_oneof_fields_failure::<C, E>(source, message, names, i, (n - 1) as nat);
    }
}

/// A failure among the first oneof rules is the failure of all.
proof fn lemma_oneofs_failure<C: Engine, E>(
    source: Source<C>,
    message: MessageDescriptor,
    oneofs: Seq<MessageOneofRule>,
    i: nat,
    n: nat,
)
    requires
        i <= n,
        source.message_oneofs::<E>(message, oneofs, i) is Err,
    ensures
        source.message_oneofs::<E>(message, oneofs, n) == source.message_oneofs::<E>(
            message,
            oneofs,
            i,
        ),
    decreases n,
{
    if i < n {
        lemma_oneofs_failure::<C, E>(source, message, oneofs, i, (n - 1) as nat);
    }
}

/// Whether rules say to ignore their value always.
fn ignore_always(rules: &Option<Box<FieldRules>>) -> (r: bool)
    ensures
        r == always_ignored(*rules),
{
    match rules {
        Some(rules) => match rules.ignore {
            Some(Ignore::Always) => true,
            _ => false,
        },
        None => false,
    }
}

/// Whether a field's rules say to ignore its messages.
fn items_ignored(rules: Option<&FieldRules>) -> (r: bool)
    ensures
        r == messages_ignored(referred(rules)),
{
    match rules {
        None => false,
        Some(rules) => {
            match rules.ignore {
                Some(Ignore::Always) => return true,
                _ => {},
            }
            match &rules.standard {
                Some(standard) => match &standard.rules {
                    RulesType::Repeated(repeated) => ignore_always(&repeated.items),
                    RulesType::Mapping(map) => ignore_always(&map.values),
                    _ => false,
                },
                None => false,
            }
        },
    }
}

/// Whether a message oneof names the field.
fn is_member(oneofs: &Vec<MessageOneofRule>, name: &str) -> (r: bool)
    ensures
        r == in_oneofs(oneofs@, name@),
{
    let mut i: usize = 0;
    while i < oneofs.len()
        invariant
            i <= oneofs@.len(),
            forall|j: int|
                0 <= j < i ==> !texts((#[trigger] oneofs@[j]).fields@).contains(name@),
        decreases oneofs@.len() - i,
    {
        if has_text(&oneofs[i].fields, name) {
            assert(texts(oneofs@[i as int].fields@).contains(name@));
            return true;
        }
        i += 1;
    }
    false
}

/// Whether a name stands among the first `n` names of a list.
fn named_before(names: &Vec<String>, n: usize, name: &str) -> (r: bool)
    requires
        n <= names@.len(),
    ensures
        r == texts(names@).take(n as int).contains(name@),
{
    let ghost earlier = texts(names@).take(n as int);
    let mut i: usize = 0;
    while i < n
        invariant
            i <= n <= names@.len(),
            earlier == texts(names@).take(n as int),
            forall|j: int| 0 <= j < i ==> earlier[j] != name@,
        decreases n - i,
    {
        assert(earlier[i as int] == names@[i as int]@);
        if same_text(names[i].as_str(), name) {
            return true;
        }
        i += 1;
    }
    false
}

/// The place of a message-typed field behind those of its number and below.
fn find_place(sorted: &Vec<Nested>, number: u32) -> (r: usize)
    ensures
        r == place_of(nested_of(sorted@), number),
        r <= sorted@.len(),
{
    let ghost all = nested_of(sorted@);
    let mut n: usize = sorted.len();
    assert(all.take(n as int) =~= all);
    while n > 0
        invariant
            n <= sorted@.len(),
            all == nested_of(sorted@),
            place_of(all, number) == place_of(all.take(n as int), number),
        decreases n,
    {
        assert(all.take(n as int).last() == sorted@[n - 1]@);
        assert(all.take(n as int).drop_last() =~= all.take(n - 1));
        if sorted[n - 1].field.number() <= number {
            return n;
        }
        n -= 1;
    }
    0
}

impl<'a, C: Engine> Builder<'a, C> {
    /// The rules of a field, which are left out as `ignore` says.
    pub(crate) fn build_field<E>(
        &self,
        field: &FieldDescriptor,
        rules: &FieldRules,
        ignore: Option<Ignore>,
    ) -> (r: Result<Option<FieldEvaluator<C::Program>>, Error<E>>)
        ensures
            fallible_field(r) == self.source().field::<E>(*field, *rules, ignore),
    {
        let shape = shape_of(field);
        let target = Target {
            kind: values_kind(field.kind),
            ty: proto_type(field),
            shape,
            presence: field.presence,
            map_entry: false,
        };
        match self.build_value(target, rules, ignore) {
            Ok(Some(built)) => Ok(
                Some(
                    FieldEvaluator {
                        field: self.descriptors().field(field),
                        element: path_element(field),
                        entry_element: match field.kind {
                            FieldKind::Mapping { .. } => Some(entry_element(field)),
                            _ => None,
                        },
                        shape,
                        required: built.required,
                        rules: built.rules,
                        defined_only: built.defined_only,
                        items: built.items,
                        keys: built.keys,
                        values: built.values,
                    },
                ),
            ),
            Ok(None) => Ok(None),
            Err(error) => Err(error),
        }
    }

    /// The rules of the fields of a message type.
    fn build_fields<E>(&self, message: &MessageDescriptor) -> (r: Result<
        Vec<FieldEvaluator<C::Program>>,
        Error<E>,
    >)
        ensures
            fallible_fields(r) == self.source().fields::<E>(*message, message.fields@.len()),
    {
        let ghost source = self.source();
        let mut fields: Vec<FieldEvaluator<C::Program>> = Vec::new();
        assert(field_evaluators_of(fields@) =~= Seq::empty());
        let message_rules = self.descriptors().message_rules(message);
        let mut i: usize = 0;
        while i < message.fields.len()
            invariant
                i <= message.fields@.len(),
                source == self.source(),
                referred(message_rules) == source.descriptors.message_rules_of(*message),
                source.fields::<E>(*message, i as nat) == Ok::<
                    Seq<FieldEvaluatorV<C::Program>>,
                    ErrorV<E>,
                >(field_evaluators_of(fields@)),
            decreases message.fields@.len() - i,
        {
            let field = &message.fields[i];
            match self.descriptors().field_rules(message, field) {
                Some(rules) => {
                    // A member of a message oneof is only validated when set,
                    // unless it says otherwise.
                    let ignore = match (rules.ignore, message_rules) {
                        (None, Some(message_rules)) => if is_member(
                            &message_rules.oneof,
                            field.name.as_str(),
                        ) {
                            Some(Ignore::IfZeroValue)
                        } else {
                            None
                        },
                        _ => rules.ignore,
                    };
                    let ghost before = fields@;
                    match self.build_field(field, rules, ignore) {
                        Ok(Some(evaluator)) => {
                            let ghost added = evaluator@;
                            fields.push(evaluator);
                            assert(field_evaluators_of(fields@) =~= field_evaluators_of(
                                before,
                            ).push(added));
                        },
                        Ok(None) => {},
                        Err(error) => {
                            proof {
                                lemma_fields_failure::<C, E>(
                                    source,
                                    *message,
                                    (i + 1) as nat,
                                    message.fields@.len(),
                                );
                            }
                            return Err(error);
                        },
                    }
                },
                None => {},
            }
            i += 1;
        }
        Ok(fields)
    }

    /// The field of a message type named `name`, in the `.proto` source or in
    /// JSON.
    fn field_by_name(&self, message: &MessageDescriptor, name: &str) -> (r: Option<Field>)
        ensures
            match (r, field_named(message.fields@, name@, 0)) {
                (Some(field), Some(i)) => 0 <= i < message.fields@.len() && field@
                    == self.source().descriptors.field_at(message.fields@[i]),
                (None, None) => true,
                _ => false,
            },
    {
        let mut i: usize = 0;
        while i < message.fields.len()
            invariant
                i <= message.fields@.len(),
                field_named(message.fields@, name@, 0) == field_named(
                    message.fields@,
                    name@,
                    i as int,
                ),
            decreases message.fields@.len() - i,
        {
            if same_text(message.fields[i].name.as_str(), name) || same_text(
                message.fields[i].json_name.as_str(),
                name,
            ) {
                return Some(self.descriptors().field(&message.fields[i]));
            }
            i += 1;
        }
        None
    }

    /// The fields that a oneof rule names.
    fn oneof_fields<E>(&self, message: &MessageDescriptor, names: &Vec<String>) -> (r: Result<
        Vec<Field>,
        Error<E>,
    >)
        ensures
            fallible_members(r) == self.source().oneof_fields::<E>(
                *message,
                texts(names@),
                names@.len(),
            ),
    {
        let ghost source = self.source();
        let ghost all = texts(names@);
        let mut fields: Vec<Field> = Vec::new();
        assert(fields_of(fields@) =~= Seq::empty());
        let mut i: usize = 0;
        while i < names.len()
            invariant
                i <= names@.len(),
                source == self.source(),
                all == texts(names@),
                source.oneof_fields::<E>(*message, all, i as nat) == Ok::<
                    Seq<FieldV>,
                    ErrorV<E>,
                >(fields_of(fields@)),
            decreases names@.len() - i,
        {
            let name = names[i].as_str();
            assert(all[i as int] == name@);
            if named_before(names, i, name) {
                let mut text = concat3("duplicate \"", name, "\" in oneof rule for the message ");
                text.append(message.full_name.as_str());
                proof {
                    lemma_oneof_fields_failure::<C, E>(
                        source,
                        *message,
                        all,
                        (i + 1) as nat,
                        names@.len(),
                    );
                }
                return Err(Error::Compilation(text));
            }
            match self.field_by_name(message, name) {
                Some(field) => {
                    let ghost before = fields@;
                    let ghost added = field@;
                    fields.push(field);
                    assert(fields_of(fields@) =~= fields_of(before).push(added));
                },
                None => {
                    let mut text = concat3("field \"", name, "\" not found in message ");
                    text.append(message.full_name.as_str());
                    proof {
                        lemma_oneof_fields_failure::<C, E>(
                            source,
                            *message,
                            all,
                            (i + 1) as nat,
                            names@.len(),
                        );
                    }
                    return Err(Error::Compilation(text));
                },
            }
            i += 1;
        }
        Ok(fields)
    }

    /// The `(buf.validate.message).oneof` rules.
    fn message_oneofs<E>(&self, message: &MessageDescriptor, oneofs: &Vec<MessageOneofRule>) -> (r:
        Result<Vec<MessageOneof>, Error<E>>)
        ensures
            fallible_oneofs(r) == self.source().message_oneofs::<E>(
                *message,
                oneofs@,
                oneofs@.len(),
            ),
    {
        let ghost source = self.source();
        let mut built: Vec<MessageOneof> = Vec::new();
        assert(message_oneofs_of(built@) =~= Seq::empty());
        let mut i: usize = 0;
        while i < oneofs.len()
            invariant
                i <= oneofs@.len(),
                source == self.source(),
                source.message_oneofs::<E>(*message, oneofs@, i as nat) == Ok::<
                    Seq<MessageOneofV>,
                    ErrorV<E>,
                >(message_oneofs_of(built@)),
            decreases oneofs@.len() - i,
        {
            let oneof = &oneofs[i];
            if oneof.fields.len() == 0 {
                proof {
                    lemma_oneofs_failure::<C, E>(
                        source,
                        *message,
                        oneofs@,
                        (i + 1) as nat,
                        oneofs@.len(),
                    );
                }
                return Err(
                    Error::Compilation(
                        concat(
                            "at least one field must be specified in oneof rule for the message ",
                            message.full_name.as_str(),
                        ),
                    ),
                );
            }
            assert(texts(oneof.fields@).len() == oneof.fields@.len());
            match self.oneof_fields(message, &oneof.fields) {
                Ok(fields) => {
                    let ghost before = built@;
                    let rule = MessageOneof {
                        fields,
                        names: join(&oneof.fields),
                        required: match oneof.required {
                            Some(true) => true,
                            _ => false,
                        },
                    };
                    let ghost added = rule@;
                    built.push(rule);
                    assert(message_oneofs_of(built@) =~= message_oneofs_of(before).push(added));
                },
                Err(error) => {
                    proof {
                        lemma_oneofs_failure::<C, E>(
                            source,
                            *message,
                            oneofs@,
                            (i + 1) as nat,
                            oneofs@.len(),
                        );
                    }
                    return Err(error);
                },
            }
            i += 1;
        }
        Ok(built)
    }

    /// The members of a oneof declaration.
    fn members(&self, message: &MessageDescriptor, places: &Vec<u16>) -> (r: Vec<Field>)
        ensures
            fields_of(r@) == self.source().members(*message, places@, places@.len()),
    {
        let ghost source = self.source();
        let mut members: Vec<Field> = Vec::new();
        assert(fields_of(members@) =~= Seq::empty());
        let mut i: usize = 0;
        while i < places.len()
            invariant
                i <= places@.len(),
                source == self.source(),
                fields_of(members@) == source.members(*message, places@, i as nat),
            decreases places@.len() - i,
        {
            let place: usize = places[i] as usize;
            if place < message.fields.len() {
                let ghost before = members@;
                let member = self.descriptors().field(&message.fields[place]);
                let ghost added = member@;
                members.push(member);
                assert(fields_of(members@) =~= fields_of(before).push(added));
            }
            i += 1;
        }
        members
    }

    /// The oneof declarations marked `required`.
    fn required_oneofs(&self, message: &MessageDescriptor) -> (r: Vec<OneofRequired>)
        ensures
            oneofs_of(r@) == self.source().required_oneofs(*message, message.oneofs@.len()),
    {
        let ghost source = self.source();
        let mut required: Vec<OneofRequired> = Vec::new();
        assert(oneofs_of(required@) =~= Seq::empty());
        let mut i: usize = 0;
        while i < message.oneofs.len()
            invariant
                i <= message.oneofs@.len(),
                source == self.source(),
                oneofs_of(required@) == source.required_oneofs(*message, i as nat),
            decreases message.oneofs@.len() - i,
        {
            let oneof = &message.oneofs[i];
            let is_required = match self.descriptors().oneof_rules(message, oneof) {
                Some(rules) => match rules.required {
                    Some(true) => true,
                    _ => false,
                },
                None => false,
            };
            if is_required {
                let ghost before = required@;
                let rule = OneofRequired {
                    element: oneof_path_element(oneof.name.as_str()),
                    members: self.members(message, &oneof.fields),
                };
                let ghost added = rule@;
                required.push(rule);
                assert(oneofs_of(required@) =~= oneofs_of(before).push(added));
            }
            i += 1;
        }
        required
    }

    /// The message-typed fields whose messages are validated in turn, in
    /// field-number order, less the ones told to ignore their messages.
    fn nested_fields(&self, message: &MessageDescriptor) -> (r: Vec<Nested>)
        ensures
            nested_of(r@) == self.source().nested(*message, message.fields@.len()),
    {
        let ghost source = self.source();
        let mut nested: Vec<Nested> = Vec::new();
        assert(nested_of(nested@) =~= Seq::empty());
        let mut i: usize = 0;
        while i < message.fields.len()
            invariant
                i <= message.fields@.len(),
                source == self.source(),
                nested_of(nested@) == source.nested(*message, i as nat),
            decreases message.fields@.len() - i,
        {
            let field = &message.fields[i];
            match message_type(field) {
                Some(index) => {
                    if !items_ignored(self.descriptors().field_rules(message, field)) {
                        let ghost before = nested@;
                        let place: usize = find_place(&nested, field.number);
                        let entry = Nested {
                            field: self.descriptors().field(field),
                            element: entry_element(field),
                            shape: shape_of(field),
                            message: index,
                        };
                        let ghost added = entry@;
                        nested.insert(place, entry);
                        assert(nested_of(nested@) =~= nested_of(before).insert(
                            place as int,
                            added,
                        ));
                    }
                },
                None => {},
            }
            i += 1;
        }
        nested
    }

    /// The rules of a message type.
    pub fn build_message<E>(&self, message: &MessageDescriptor) -> (r: Result<
        MessageEvaluator<C::Program>,
        Error<E>,
    >)
        ensures
            fallible_evaluator(r) == self.source().message::<E>(*message),
    {
        proof {
            reveal(Source::message);
        }
        let message_rules = self.descriptors().message_rules(message);
        let mut compiled = Compiled::new();
        match message_rules {
            Some(rules) => {
                compiled.push_expressions(&rules.cel_expression, None);
                compiled.push_rules(&rules.cel, None);
            },
            None => {},
        }
        let cel = match self.compile(compiled) {
            Ok(cel) => cel,
            Err(error) => return Err(error),
        };
        let message_oneofs = match message_rules {
            Some(rules) => match self.message_oneofs(message, &rules.oneof) {
                Ok(message_oneofs) => message_oneofs,
                Err(error) => return Err(error),
            },
            None => {
                let none: Vec<MessageOneof> = Vec::new();
                assert(message_oneofs_of(none@) =~= Seq::empty());
                none
            },
        };
        let fields = match self.build_fields(message) {
            Ok(fields) => fields,
            Err(error) => return Err(error),
        };
        Ok(
            MessageEvaluator {
                cel,
                message_oneofs,
                fields,
                oneofs: self.required_oneofs(message),
                nested: self.nested_fields(message),
            },
        )
    }
}

} // verus!
