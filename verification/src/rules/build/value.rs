//! The rules of one value.

use super::cel::Compiled;
use super::names::{field_name, message_name, scalar_kind, scalar_rules, type_label};
use super::Builder;
use crate::cel::{Binding, Engine};
use crate::descriptors::{
    extension_path_element, field_numbered, path_element, singular_type, FieldPresence,
    SingularKind,
};
use crate::error::{Error, ErrorV};
use crate::pool::{decode_dynamic, linked_index, set_fields, unknown_fields};
use crate::protobuf::Field;
use crate::rules::plan::{
    entry_target, placed, rules_field, rules_message, BuiltV, CompiledV, DecodedV, ItemKind,
    StandardV, Target,
};
use crate::rules::standard::build::{checks, natives_of, Native};
use crate::rules::standard::{checks_of, Check, CheckV};
use crate::rules::{
    any_of, field_view, item_of, AnyCheck, ItemEvaluator, ItemEvaluatorV, Shape, ValueRules,
};
use crate::strings::same_text;
use crate::text::{concat, concat3, copy_bytes, copy_texts};
use crate::validate::rules::{FieldRules, Ignore, RulesType, StandardRules};
use crate::validate::{copy_path, path_of, FieldPathElement, Type};
use vstd::prelude::*;

verus! {

/// The rules of one value, before they are placed as a field or item
/// evaluator: the value's own, and the ones only a field carries.
pub struct Built<P> {
    pub rules: ValueRules<P>,
    pub required: bool,
    pub defined_only: Option<u64>,
    pub items: Option<ItemEvaluator<P>>,
    pub keys: Option<ItemEvaluator<P>>,
    pub values: Option<ItemEvaluator<P>>,
}

impl<P> View for Built<P> {
    type V = BuiltV<P>;

    open spec fn view(&self) -> BuiltV<P> {
        BuiltV {
            rules: self.rules@,
            required: self.required,
            defined_only: self.defined_only,
            items: item_of(self.items),
            keys: item_of(self.keys),
            values: item_of(self.values),
        }
    }
}

/// What building the rules of a value gives.
pub open spec fn fallible_built<P, E>(r: Result<Option<Built<P>>, Error<E>>) -> Result<
    Option<BuiltV<P>>,
    ErrorV<E>,
> {
    match r {
        Ok(Some(built)) => Ok(Some(built@)),
        Ok(None) => Ok(None),
        Err(error) => Err(error@),
    }
}

/// What building the rules of an item gives.
pub open spec fn fallible_item<P, E>(r: Result<Option<ItemEvaluator<P>>, Error<E>>) -> Result<
    Option<ItemEvaluatorV<P>>,
    ErrorV<E>,
> {
    match r {
        Ok(item) => Ok(item_of(item)),
        Err(error) => Err(error@),
    }
}

/// The rules of the items of containers.
pub struct Items<P> {
    pub items: Option<ItemEvaluator<P>>,
    pub keys: Option<ItemEvaluator<P>>,
    pub values: Option<ItemEvaluator<P>>,
}

/// What building the rules of items gives.
pub open spec fn fallible_items<P, E>(r: Result<Items<P>, Error<E>>) -> Result<
    (Option<ItemEvaluatorV<P>>, Option<ItemEvaluatorV<P>>, Option<ItemEvaluatorV<P>>),
    ErrorV<E>,
> {
    match r {
        Ok(items) => Ok((item_of(items.items), item_of(items.keys), item_of(items.values))),
        Err(error) => Err(error@),
    }
}

/// What the standard rules of a value give.
pub struct Standard<P> {
    pub checks: Vec<Check>,
    pub any: Option<AnyCheck>,
    pub wrapper: Option<Field>,
    pub defined_only: Option<u64>,
    pub items: Option<ItemEvaluator<P>>,
    pub keys: Option<ItemEvaluator<P>>,
    pub values: Option<ItemEvaluator<P>>,
    pub compiled: Compiled,
}

impl<P> View for Standard<P> {
    type V = StandardV<P>;

    open spec fn view(&self) -> StandardV<P> {
        StandardV {
            checks: checks_of(self.checks@),
            any: any_of(self.any),
            wrapper: field_view(self.wrapper),
            defined_only: self.defined_only,
            items: item_of(self.items),
            keys: item_of(self.keys),
            values: item_of(self.values),
            compiled: self.compiled@,
        }
    }
}

/// What building the standard rules of a value gives.
pub open spec fn fallible_standard<P, E>(r: Result<Standard<P>, Error<E>>) -> Result<
    StandardV<P>,
    ErrorV<E>,
> {
    match r {
        Ok(standard) => Ok(standard@),
        Err(error) => Err(error@),
    }
}

/// What a rules message sets: whether anything unknown, and the numbers of
/// the rule fields, in ascending order.
#[derive(Debug)]
pub struct Decoded {
    pub unknown: bool,
    pub numbers: Vec<u32>,
}

/// What parsing a rules message gives.
pub open spec fn fallible_decoded(r: Result<Decoded, String>) -> Result<DecodedV, Seq<char>> {
    match r {
        Ok(decoded) => Ok(DecodedV { unknown: decoded.unknown, numbers: decoded.numbers@ }),
        Err(error) => Err(error@),
    }
}

/// What reading a rules message gives.
pub open spec fn fallible_rules<E>(r: Result<(Vec<Check>, Compiled), Error<E>>) -> Result<
    (Seq<CheckV>, CompiledV),
    ErrorV<E>,
> {
    match r {
        Ok((checks, compiled)) => Ok((checks_of(checks@), compiled@)),
        Err(error) => Err(error@),
    }
}

/// Puts checks behind others, with their rule path.
fn place(checks: &mut Vec<Check>, natives: Vec<Native>, rule_path: &Vec<FieldPathElement>)
    ensures
        checks_of(final(checks)@) == checks_of(old(checks)@) + placed(
            natives_of(natives@),
            path_of(rule_path@),
        ),
{
    let ghost start = checks_of(checks@);
    let ghost all = placed(natives_of(natives@), path_of(rule_path@));
    let mut left = natives;
    let ghost n = natives@.len();
    let ghost mut i = 0int;
    assert(start + all.take(0) =~= start);
    while left.len() > 0
        invariant
            0 <= i <= n,
            n == natives@.len(),
            left@ =~= natives@.skip(i),
            all == placed(natives_of(natives@), path_of(rule_path@)),
            checks_of(checks@) == start + all.take(i),
        decreases left@.len(),
    {
        let ghost before = checks@;
        let native = left.remove(0);
        assert(native == natives@[i]);
        let check = Check {
            id: native.id,
            message: native.message,
            rule_path: copy_path(rule_path),
            test: native.test,
        };
        let ghost added = check@;
        checks.push(check);
        proof {
            assert(checks_of(checks@) =~= checks_of(before).push(added));
            assert(natives_of(natives@)[i] == natives@[i]@);
            assert(all[i] == added);
            assert(all.take(i + 1) =~= all.take(i).push(all[i]));
            assert(start + all.take(i + 1) =~= (start + all.take(i)).push(added));
            i = i + 1;
        }
    }
    assert(all.take(n as int) =~= all);
}

/// A failure among the first rule fields is the failure of all.
proof fn lemma_set_rules_failure<C: Engine, E>(
    source: crate::rules::plan::Source<C>,
    rules: RulesType,
    numbers: Seq<u32>,
    i: nat,
    n: nat,
)
    requires
        i <= n,
        source.set_rules::<E>(rules, numbers, i) is Err,
    ensures
        source.set_rules::<E>(rules, numbers, n) == source.set_rules::<E>(rules, numbers, i),
    decreases n,
{
    if i < n {
        lemma_set_rules_failure::<C, E>(source, rules, numbers, i, (n - 1) as nat);
    }
}

/// A path of two elements.
fn path_of_two(leaf: &FieldPathElement, parent: &FieldPathElement) -> (r: Vec<FieldPathElement>)
    ensures
        path_of(r@) == seq![leaf@, parent@],
{
    let mut path: Vec<FieldPathElement> = Vec::new();
    path.push(leaf.copy());
    path.push(parent.copy());
    assert(path_of(path@) =~= seq![leaf@, parent@]);
    path
}

impl<'a, C: Engine> Builder<'a, C> {
    /// Whether a value is a message of type `name`.
    fn is_message(&self, kind: SingularKind, name: &str) -> (r: bool)
        ensures
            r == (self.source().message_name(kind) == Some(name@)),
    {
        match kind {
            SingularKind::Message(index) => same_text(
                self.descriptors().full_name(index).as_str(),
                name,
            ),
            _ => false,
        }
    }

    /// The field must have the rules' type, or be the wrapper message of that
    /// type.
    fn check_scalar_type<E>(&self, target: &Target, expected: Type, wrapper: &str) -> (r: Result<
        (),
        Error<E>,
    >)
        ensures
            match r {
                Ok(_) => self.source().has_type(*target, expected, wrapper@),
                Err(error) => !self.source().has_type(*target, expected, wrapper@) && error@
                    == ErrorV::<E>::Compilation(
                    "field type does not match rule type: "@ + crate::rules::plan::type_text(
                        target.ty,
                    ) + " != "@ + crate::rules::plan::type_text(expected),
                ),
            },
    {
        if target.ty == expected {
            return Ok(());
        }
        if target.ty == Type::Message && self.is_message(target.kind, wrapper) {
            return Ok(());
        }
        let mut message = concat3(
            "field type does not match rule type: ",
            type_label(target.ty),
            " != ",
        );
        message.append(type_label(expected));
        Err(Error::Compilation(message))
    }

    /// The `value` field of the wrapper message a target holds, if it is one.
    fn wrapper_value(&self, target: &Target) -> (r: Option<Field>)
        ensures
            field_view(r) == self.source().wrapper_field(*target),
    {
        if target.ty != Type::Message {
            return None;
        }
        let descriptors = self.descriptors();
        match target.kind {
            SingularKind::Message(index) => {
                if index >= descriptors.messages.len() as u64 {
                    return None;
                }
                let fields = &descriptors.messages[index as usize].fields;
                let mut i: usize = 0;
                while i < fields.len()
                    invariant
                        i <= fields@.len(),
                        *descriptors == self.source().descriptors,
                        index < descriptors.messages@.len(),
                        fields@ == descriptors.messages@[index as int].fields@,
                        target.kind == SingularKind::Message(index),
                        target.ty == Type::Message,
                        field_numbered(fields@, 1, 0) == field_numbered(fields@, 1, i as int),
                    decreases fields@.len() - i,
                {
                    if fields[i].number == 1 {
                        return Some(descriptors.field(&fields[i]));
                    }
                    i += 1;
                }
                None
            },
            _ => None,
        }
    }

    /// Adds the rules that an extension field of a rules message is
    /// predefined as.
    fn push_extension(
        &self,
        compiled: &mut Compiled,
        extendee: &str,
        number: u32,
        type_element: &FieldPathElement,
    )
        ensures
            final(compiled)@ == self.source().with_extension(
                old(compiled)@,
                extendee@,
                number,
                type_element@,
            ),
    {
        match self.descriptors().extension(extendee, number) {
            Some(extension) => match &extension.predefined {
                Some(cel) => {
                    let path = path_of_two(&extension_path_element(extension), type_element);
                    let rule_number: i32 = if number <= 0x7fff_ffff {
                        number as i32
                    } else {
                        0
                    };
                    compiled.push_predefined(cel, rule_number, &path);
                },
                None => {},
            },
            None => {},
        }
    }

    /// The checks and custom CEL of the rule fields that a rules message
    /// sets, by their numbers.
    pub fn set_rules<E>(&self, rules: &RulesType, numbers: &Vec<u32>) -> (r: Result<
        (Vec<Check>, Compiled),
        Error<E>,
    >)
        ensures
            fallible_rules(r) == self.source().set_rules::<E>(
                *rules,
                numbers@,
                numbers@.len(),
            ),
    {
        let ghost source = self.source();
        let type_field = field_name(rules);
        let full_name = message_name(rules);
        let type_element = self.schema().type_element(type_field);
        let mut all: Vec<Check> = Vec::new();
        let mut compiled = Compiled::new();
        let mut i: usize = 0;
        assert(checks_of(all@) =~= Seq::empty());
        while i < numbers.len()
            invariant
                i <= numbers@.len(),
                source == self.source(),
                type_field@ == rules_field(*rules),
                full_name@ == rules_message(*rules),
                type_element@ == source.schema.type_element(type_field@),
                source.set_rules::<E>(*rules, numbers@, i as nat) == Ok::<
                    (Seq<CheckV>, CompiledV),
                    ErrorV<E>,
                >((checks_of(all@), compiled@)),
            decreases numbers@.len() - i,
        {
            let number: u32 = numbers[i];
            match self.descriptors().numbered_field(full_name, number) {
                Some(field) => {
                    let path = path_of_two(&path_element(field), &type_element);
                    match checks(type_field, rules, number) {
                        Ok(natives) => {
                            place(&mut all, natives, &path);
                        },
                        Err(error) => {
                            proof {
                                lemma_set_rules_failure::<C, E>(
                                    source,
                                    *rules,
                                    numbers@,
                                    (i + 1) as nat,
                                    numbers@.len(),
                                );
                            }
                            return Err(error);
                        },
                    }
                },
                None => self.push_extension(&mut compiled, full_name, number, &type_element),
            }
            i += 1;
        }
        Ok((all, compiled))
    }

    /// The rules that reading a rules message gives.
    pub fn decoded_rules<E>(
        &self,
        standard: &StandardRules,
        decoded: Result<Decoded, String>,
    ) -> (r: Result<(Vec<Check>, Compiled), Error<E>>)
        ensures
            fallible_rules(r) == self.source().decoded::<E>(*standard, fallible_decoded(decoded)),
    {
        let full_name = message_name(&standard.rules);
        let decoded = match decoded {
            Ok(decoded) => decoded,
            Err(error) => {
                let mut message = concat3("could not decode ", full_name, ": ");
                message.append(error.as_str());
                return Err(Error::Compilation(message));
            },
        };
        if decoded.unknown {
            return Err(Error::Compilation(concat("unknown rules in ", full_name)));
        }
        match self.set_rules(&standard.rules, &decoded.numbers) {
            Ok((all, compiled)) => {
                let mut compiled = compiled;
                compiled.rules = Some(
                    Binding {
                        full_name: full_name.to_owned(),
                        bytes: copy_bytes(&standard.bytes),
                    },
                );
                Ok((all, compiled))
            },
            Err(error) => Err(error),
        }
    }

    /// The rules of every rule field the rules message sets, in field-number
    /// order.
    fn predefined_rules<E>(&self, standard: &StandardRules) -> (r: Result<
        (Vec<Check>, Compiled),
        Error<E>,
    >)
        ensures
            fallible_rules(r) == self.source().predefined::<E>(*standard),
    {
        let full_name = message_name(&standard.rules);
        let pool = self.pool();
        let index = match linked_index(pool, full_name) {
            Some(index) => index,
            None => return Err(Error::Unexpected(concat(full_name, " is not registered"))),
        };
        let decoded = match decode_dynamic(pool, index, standard.bytes.as_slice()) {
            Ok(message) => Ok(
                Decoded { unknown: unknown_fields(&message), numbers: set_fields(&message) },
            ),
            Err(error) => Err(error),
        };
        self.decoded_rules(standard, decoded)
    }

    /// The rule path elements between item rules and `FieldRules`.
    fn rule_prefix(&self, kind: ItemKind) -> (r: Vec<FieldPathElement>)
        ensures
            path_of(r@) == self.source().rule_prefix(kind),
    {
        let schema = self.schema();
        match kind {
            ItemKind::Items => path_of_two(&schema.repeated_items, &schema.repeated),
            ItemKind::Keys => path_of_two(&schema.map_keys, &schema.mapping),
            ItemKind::Values => path_of_two(&schema.map_values, &schema.mapping),
        }
    }

    /// The rules of a container's items.
    fn item_evaluator<E>(
        &self,
        target: Target,
        rules: &Option<Box<FieldRules>>,
        kind: ItemKind,
    ) -> (r: Result<Option<ItemEvaluator<C::Program>>, Error<E>>)
        ensures
            fallible_item(r) == self.source().item::<E>(target, *rules, kind),
        decreases *rules, 1nat,
    {
        match rules {
            None => Ok(None),
            Some(rules) => match self.build_value(target, rules, rules.ignore) {
                Ok(Some(built)) => Ok(
                    Some(
                        ItemEvaluator { rules: built.rules, rule_prefix: self.rule_prefix(kind) },
                    ),
                ),
                Ok(None) => Ok(None),
                Err(error) => Err(error),
            },
        }
    }

    /// The rules of a repeated field's elements, and of a map field's keys
    /// and values. Each element is validated as a value of the element type
    /// that still belongs to a repeated field.
    fn item_rules<E>(&self, target: Target, rules: &RulesType) -> (r: Result<
        Items<C::Program>,
        Error<E>,
    >)
        ensures
            fallible_items(r) == self.source().items::<E>(target, *rules),
        decreases *rules, 0nat,
    {
        match rules {
            RulesType::Repeated(r) => match target.shape {
                Shape::List => {
                    let mut item_target = target;
                    item_target.ty = singular_type(target.kind);
                    match self.item_evaluator(item_target, &r.items, ItemKind::Items) {
                        Ok(items) => Ok(Items { items, keys: None, values: None }),
                        Err(error) => Err(error),
                    }
                },
                Shape::Mapping { .. } => Err(
                    Error::Compilation("repeated field validator on map field".to_owned()),
                ),
                Shape::Singular => Err(
                    Error::Compilation(
                        "repeated field validator on non-repeated field".to_owned(),
                    ),
                ),
            },
            RulesType::Mapping(r) => match target.shape {
                Shape::Mapping { key } => {
                    let keys = match self.item_evaluator(
                        entry(SingularKind::Scalar(key)),
                        &r.keys,
                        ItemKind::Keys,
                    ) {
                        Ok(keys) => keys,
                        Err(error) => return Err(error),
                    };
                    match self.item_evaluator(entry(target.kind), &r.values, ItemKind::Values) {
                        Ok(values) => Ok(Items { items: None, keys, values }),
                        Err(error) => Err(error),
                    }
                },
                _ => Err(Error::Compilation("map field validator on non-map field".to_owned())),
            },
            _ => Ok(Items { items: None, keys: None, values: None }),
        }
    }

    /// Checks that the standard rules suit the value's type.
    fn check_type<E>(&self, target: &Target, rules: &RulesType) -> (r: Result<(), Error<E>>)
        ensures
            match r {
                Ok(_) => self.source().mismatch(*target, *rules) is None,
                Err(error) => self.source().mismatch(*target, *rules) is Some && error@
                    == ErrorV::<E>::Compilation(self.source().mismatch(*target, *rules)->Some_0),
            },
    {
        match scalar_rules(rules) {
            Some((expected, wrapper)) => return self.check_scalar_type(target, expected, wrapper),
            None => {},
        }
        match rules {
            RulesType::Duration(_) => {
                if !self.is_message(target.kind, "google.protobuf.Duration") {
                    return Err(
                        Error::Compilation(
                            "duration field validator on non-duration field".to_owned(),
                        ),
                    );
                }
            },
            RulesType::FieldMask(_) => {
                if !self.is_message(target.kind, "google.protobuf.FieldMask") {
                    return Err(
                        Error::Compilation(
                            "field_mask field validator on non-field_mask field".to_owned(),
                        ),
                    );
                }
            },
            RulesType::Timestamp(_) => {
                if !self.is_message(target.kind, "google.protobuf.Timestamp") {
                    return Err(
                        Error::Compilation(
                            "timestamp field validator on non-timestamp field".to_owned(),
                        ),
                    );
                }
            },
            RulesType::Any(_) => {
                if !self.is_message(target.kind, "google.protobuf.Any") {
                    return Err(
                        Error::Compilation("any field validator on non-any field".to_owned()),
                    );
                }
            },
            _ => {},
        }
        Ok(())
    }

    /// The standard rules a `FieldRules` sets, checked against the value's
    /// type.
    fn standard_rules<E>(&self, target: Target, standard: &StandardRules) -> (r: Result<
        Standard<C::Program>,
        Error<E>,
    >)
        ensures
            fallible_standard(r) == self.source().standard::<E>(target, *standard),
        decreases *standard, 0nat,
    {
        match self.check_type(&target, &standard.rules) {
            Ok(()) => {},
            Err(error) => return Err(error),
        }
        let items = match self.item_rules(target, &standard.rules) {
            Ok(items) => items,
            Err(error) => return Err(error),
        };
        let (all, compiled) = match self.predefined_rules(standard) {
            Ok(rules) => rules,
            Err(error) => return Err(error),
        };
        let any = match &standard.rules {
            RulesType::Any(r) => Some(
                AnyCheck { in_list: copy_texts(&r.in_list), not_in: copy_texts(&r.not_in) },
            ),
            _ => None,
        };
        let wrapper = if scalar_rules(&standard.rules).is_some() {
            self.wrapper_value(&target)
        } else {
            None
        };
        let defined_only: Option<u64> = match (&standard.rules, target.kind) {
            (RulesType::Enum(r), SingularKind::Enum(index)) => match (r.defined_only, target.shape) {
                (Some(true), Shape::Singular) => Some(index),
                _ => None,
            },
            _ => None,
        };
        Ok(
            Standard {
                checks: all,
                any,
                wrapper,
                defined_only,
                items: items.items,
                keys: items.keys,
                values: items.values,
                compiled,
            },
        )
    }

    /// The rules of one value, which are left out as `ignore` says.
    pub(crate) fn build_value<E>(
        &self,
        target: Target,
        rules: &FieldRules,
        ignore: Option<Ignore>,
    ) -> (r: Result<Option<Built<C::Program>>, Error<E>>)
        ensures
            fallible_built(r) == self.source().value::<E>(target, *rules, ignore),
        decreases *rules, 0nat,
    {
        let zero = match ignore {
            Some(Ignore::Always) => return Ok(None),
            Some(Ignore::IfZeroValue) => true,
            _ => false,
        };
        let singular = match target.shape {
            Shape::Singular => true,
            _ => false,
        };
        let ignore_empty = zero || (singular && target.presence != FieldPresence::Implicit
            && !target.map_entry);
        let standard = match &rules.standard {
            Some(standard) => match self.standard_rules(target, standard) {
                Ok(standard) => standard,
                Err(error) => return Err(error),
            },
            None => {
                let none: Vec<Check> = Vec::new();
                assert(checks_of(none@) =~= Seq::empty());
                Standard {
                    checks: none,
                    any: None,
                    wrapper: None,
                    defined_only: None,
                    items: None,
                    keys: None,
                    values: None,
                    compiled: Compiled::new(),
                }
            },
        };
        let schema = self.schema();
        let mut compiled = standard.compiled;
        compiled.push_expressions(&rules.cel_expression, Some(&schema.cel_expression));
        compiled.push_rules(&rules.cel, Some(&schema.cel));
        let programs = match self.compile(compiled) {
            Ok(programs) => programs,
            Err(error) => return Err(error),
        };
        Ok(
            Some(
                Built {
                    rules: ValueRules {
                        scalar: scalar_kind(target.kind),
                        ignore_empty,
                        any: standard.any,
                        checks: standard.checks,
                        wrapper: standard.wrapper,
                        programs,
                    },
                    required: match rules.required {
                        Some(true) => true,
                        _ => false,
                    },
                    defined_only: standard.defined_only,
                    items: standard.items,
                    keys: standard.keys,
                    values: standard.values,
                },
            ),
        )
    }
}

/// A map entry's key or value as a target of rules.
fn entry(kind: SingularKind) -> (r: Target)
    ensures
        r == entry_target(kind),
{
    Target {
        kind,
        ty: singular_type(kind),
        shape: Shape::Singular,
        presence: FieldPresence::Explicit,
        map_entry: true,
    }
}

} // verus!
