//! What custom rules are handed, and what comes of their answers.

use super::outcome::{key_scalar, key_value, value_scalar, Out, Setting};
use super::standard::wellknown::Formats;
use super::{FieldEvaluatorV, ItemEvaluatorV, ProgramSetV, ScalarKind, ValueRulesV};
use crate::cel::{Engine, ScalarV, ThisV, ValueV};
use crate::double::Double;
use crate::error::{from_cel, ErrorV};
use crate::protobuf::{FieldV, KeyV, ValV};
use crate::validate::ViolationV;
use vstd::prelude::*;

verus! {

/// Whether a value is one that CEL takes as it is: a truth value, a number,
/// a string or bytes.
pub open spec fn plain<E>(v: ValV<E>) -> bool {
    v is Bool || v is Int || v is Uint || v is Double || v is String || v is Bytes
}

/// Whether a CEL scalar holds what the value holds: the same truth value,
/// number, text or bytes. The number of an enum value is a signed number.
pub open spec fn carries<E>(scalar: ScalarV, v: ValV<E>) -> bool {
    match scalar {
        ScalarV::Bool(b) => v == ValV::<E>::Bool(b),
        ScalarV::Int(i) => v == ValV::<E>::Int(i) || (v matches ValV::Enum(e) && e == i),
        ScalarV::Uint(u) => v == ValV::<E>::Uint(u),
        ScalarV::Double(f) => v == ValV::<E>::Double(f),
        ScalarV::String(s) => v == ValV::<E>::String(s),
        ScalarV::Bytes(b) => v == ValV::<E>::Bytes(b),
    }
}

/// The zero of a kind of CEL scalars.
pub open spec fn zero_scalar(scalar: ScalarV, kind: ScalarKind) -> bool {
    match kind {
        ScalarKind::Bool => scalar == ScalarV::Bool(false),
        ScalarKind::Int => scalar == ScalarV::Int(0),
        ScalarKind::Uint => scalar == ScalarV::Uint(0),
        ScalarKind::Double => scalar == ScalarV::Double(Double { bits: 0 }),
        ScalarKind::String => scalar == ScalarV::String(Seq::empty()),
        ScalarKind::Bytes => scalar == ScalarV::Bytes(Seq::empty()),
    }
}

/// `this` carries the value that was read: what the scalar holds is what the
/// value holds, and values that are bound to the same scalar are equal. The
/// zero of the kind stands in only where there is no such value.
pub proof fn law_this_carries_the_value<E>(a: ValV<E>, b: ValV<E>, kind: ScalarKind)
    ensures
        plain(a) || a is Enum ==> carries(value_scalar(Some(a), kind), a),
        plain(a) && plain(b) && value_scalar(Some(a), kind) == value_scalar(Some(b), kind) ==> a
            == b,
        !plain(a) && !(a is Enum) ==> zero_scalar(value_scalar(Some(a), kind), kind),
        zero_scalar(value_scalar::<E>(None, kind), kind),
{
}

/// The rules of a field that holds one scalar are evaluated with `this`
/// bound to a scalar that carries the field's value.
pub proof fn law_field_rules_see_the_value<F: Formats, C: Engine, E>(
    s: Setting<F, C>,
    m: ValV<E>,
    name: Seq<char>,
    field: FieldEvaluatorV<C::Program>,
    v: ValV<E>,
    programs: ProgramSetV<C::Program>,
)
    requires
        field.shape is Singular,
        field.rules.scalar is Some,
        field.rules.programs == Some(programs),
        plain(v) || v is Enum,
    ensures
        exists|scalar: ScalarV|
            carries(scalar, v) && s.field_cel(m, name, field, Some(v))
                == #[trigger] s.programs_from::<E>(programs, ThisV::Scalar(scalar), 0),
{
    let kind = field.rules.scalar->Some_0;
    law_this_carries_the_value(v, v, kind);
    let scalar = value_scalar(Some(v), kind);
    assert(carries(scalar, v));
    assert(s.field_cel(m, name, field, Some(v)) == s.programs_from::<E>(
        programs,
        ThisV::Scalar(scalar),
        0,
    ));
}

/// The rules of a list, a map or a message are evaluated with `this` bound to
/// the field of the message that holds it, by the field's number, the message
/// being parsed from its serialized form as the type it is.
pub proof fn law_other_fields_are_bound_by_number<F: Formats, C: Engine, E>(
    s: Setting<F, C>,
    m: ValV<E>,
    name: Seq<char>,
    field: FieldEvaluatorV<C::Program>,
    value: Option<ValV<E>>,
    programs: ProgramSetV<C::Program>,
    bytes: Seq<u8>,
    frame: C::Frame,
)
    requires
        !(field.shape is Singular) || field.rules.scalar is None,
        field.rules.programs == Some(programs),
        m->encode == Ok::<Seq<u8>, E>(bytes),
        s.engine.parsed(name, bytes) == Ok::<C::Frame, crate::cel::ErrorV>(frame),
        field.field.number <= i32::MAX,
    ensures
        exists|number: i32|
            number == field.field.number && s.field_cel(m, name, field, value)
                == #[trigger] s.programs_from::<E>(programs, ThisV::Field(frame, number), 0),
{
    let number = field.field.number as i32;
    assert(s.field_cel(m, name, field, value) == s.programs_from::<E>(
        programs,
        ThisV::Field(frame, number),
        0,
    ));
}

/// The rules of a message are evaluated with `this` bound to the message,
/// parsed from its serialized form as the type it is.
pub proof fn law_message_rules_see_the_message<F: Formats, C: Engine, E>(
    s: Setting<F, C>,
    m: ValV<E>,
    name: Seq<char>,
    programs: ProgramSetV<C::Program>,
    bytes: Seq<u8>,
    frame: C::Frame,
)
    requires
        m->encode == Ok::<Seq<u8>, E>(bytes),
        s.engine.parsed(name, bytes) == Ok::<C::Frame, crate::cel::ErrorV>(frame),
    ensures
        s.message_cel(m, name, Some(programs)) == s.programs_from::<E>(
            programs,
            ThisV::Message(frame),
            0,
        ),
{
}

/// The rules of the elements of a list, and of the values of a map, are
/// evaluated with `this` bound to the element: a scalar that carries it, or
/// the message, parsed as the type of the field's messages.
pub proof fn law_item_rules_see_the_item<F: Formats, C: Engine, E>(
    s: Setting<F, C>,
    rules: ValueRulesV<C::Program>,
    field: FieldV,
    v: ValV<E>,
    programs: ProgramSetV<C::Program>,
    name: Seq<char>,
    bytes: Seq<u8>,
    frame: C::Frame,
)
    requires
        rules.programs == Some(programs),
    ensures
        rules.scalar is Some && (plain(v) || v is Enum) ==> exists|scalar: ScalarV|
            carries(scalar, v) && s.item_cel(rules, field, v)
                == #[trigger] s.programs_from::<E>(programs, ThisV::Scalar(scalar), 0),
        rules.scalar is None && v is Message && field.message_type == Some(name) && v->encode
            == Ok::<Seq<u8>, E>(bytes) && s.engine.parsed(name, bytes) == Ok::<
            C::Frame,
            crate::cel::ErrorV,
        >(frame) ==> s.item_cel(rules, field, v) == s.programs_from::<E>(
            programs,
            ThisV::Message(frame),
            0,
        ),
{
    if rules.scalar is Some && (plain(v) || v is Enum) {
        let kind = rules.scalar->Some_0;
        law_this_carries_the_value(v, v, kind);
        let scalar = value_scalar(Some(v), kind);
        assert(carries(scalar, v));
        assert(s.item_cel(rules, field, v) == s.programs_from::<E>(
            programs,
            ThisV::Scalar(scalar),
            0,
        ));
    }
}

/// Whether a value is what a map key is: the same truth value, number or
/// text.
pub open spec fn spells_key<E>(v: ValV<E>, key: KeyV) -> bool {
    match key {
        KeyV::Bool(b) => v == ValV::<E>::Bool(b),
        KeyV::Int(i) => v == ValV::<E>::Int(i),
        KeyV::Uint(u) => v == ValV::<E>::Uint(u),
        KeyV::String(s) => v == ValV::<E>::String(s),
    }
}

/// The key rules are tried on the key: the standard ones on a value that
/// spells it, and the custom ones with `this` bound to a scalar that carries
/// that value. Different keys are different values and different scalars.
pub proof fn law_key_rules_see_the_key<E>(a: KeyV, b: KeyV)
    ensures
        spells_key(key_value::<E>(a), a),
        carries(key_scalar(a), key_value::<E>(a)),
        key_value::<E>(a) == key_value::<E>(b) ==> a == b,
        key_scalar(a) == key_scalar(b) ==> a == b,
{
}

/// The key of a map entry breaks the standard rules for keys exactly as the
/// value that spells it does, and nothing else does of a key without custom
/// rules.
pub proof fn law_keys_are_checked_as_values<F: Formats, C: Engine, E>(
    s: Setting<F, C>,
    keys: ItemEvaluatorV<C::Program>,
    key: KeyV,
    v: ValV<E>,
)
    requires
        spells_key(v, key),
        !keys.rules.ignore_empty,
        keys.rules.programs is None,
    ensures
        match (s.entry_key::<E>(Some(keys), key), s.checks_from(keys.rules.checks, Some(v), 0)) {
            (Ok(found), Ok(broken)) => found.len() == broken.len() && forall|i: int|
                0 <= i < found.len() ==> (#[trigger] found[i]).rule_id == broken[i].rule_id
                    && found[i].message == broken[i].message && found[i].for_key == Some(true),
            (Err(a), Err(b)) => a == b,
            _ => false,
        },
{
    let broken = s.checks_from(keys.rules.checks, Some(v), 0);
    assert(v == key_value::<E>(key));
    if let Ok(found) = broken {
        assert(found + Seq::<ViolationV>::empty() =~= found);
    }
}

/// What the answer of a custom rule comes to: `true` and the empty text pass,
/// `false` is reported with the rule's message, or one made of its expression
/// where it has none, and any other text is reported as it is. What is
/// reported is the rule's id and path. Anything else is a failure.
pub proof fn law_answers_of_custom_rules<F: Formats, C: Engine, E>(
    s: Setting<F, C>,
    programs: ProgramSetV<C::Program>,
    this: ThisV<C::Frame>,
    i: int,
)
    requires
        0 <= i < programs.rules.len(),
    ensures
        ({
            let meta = programs.rules[i];
            let answer = s.engine.evaluated(programs.program, i, this);
            let out: Out<E> = s.program(programs, this, i);
            let passes = answer == Ok::<ValueV, crate::cel::ErrorV>(ValueV::Bool(true)) || answer
                == Ok::<ValueV, crate::cel::ErrorV>(ValueV::String(Seq::empty()));
            let found = out->Ok_0;
            let fails = answer is Ok && !(answer->Ok_0 is Other) && !passes;
            &&& passes <==> out is Ok && found.len() == 0
            &&& answer is Err ==> out == Err::<Seq<ViolationV>, ErrorV<E>>(
                from_cel(answer->Err_0),
            )
            &&& answer == Ok::<ValueV, crate::cel::ErrorV>(ValueV::Other) ==> out == Err::<
                Seq<ViolationV>,
                ErrorV<E>,
            >(ErrorV::Evaluation("invalid result type"@))
            &&& fails ==> {
                &&& out is Ok
                &&& found.len() == 1
                &&& found[0].rule_id == Some(meta.id)
                &&& found[0].field is None
                &&& found[0].for_key is None
                &&& meta.rule_path.len() == 0 ==> found[0].rule is None
                &&& meta.rule_path.len() > 0 ==> found[0].rule == Some(meta.rule_path)
                &&& answer->Ok_0 matches ValueV::String(text) ==> found[0].message == Some(text)
                &&& answer->Ok_0 is Bool && meta.message.len() > 0 ==> found[0].message == Some(
                    meta.message,
                )
                &&& answer->Ok_0 is Bool && meta.message.len() == 0 ==> found[0].message == Some(
                    "\""@ + meta.expression + "\" returned false"@,
                )
            }
        }),
{
    if let Ok(ValueV::String(text)) = s.engine.evaluated(programs.program, i, this) {
        if text.len() == 0 {
            assert(text =~= Seq::empty());
        }
    }
}

/// The custom rules for map keys are evaluated with `this` bound to a scalar
/// that carries the key, and what they report is marked as of the key.
pub proof fn law_custom_key_rules_see_the_key<F: Formats, C: Engine, E>(
    s: Setting<F, C>,
    keys: ItemEvaluatorV<C::Program>,
    key: KeyV,
    v: ValV<E>,
    programs: ProgramSetV<C::Program>,
)
    requires
        spells_key(v, key),
        !keys.rules.ignore_empty,
        keys.rules.checks.len() == 0,
        keys.rules.programs == Some(programs),
    ensures
        exists|scalar: ScalarV|
            carries(scalar, v) && #[trigger] reported_of_key(
                s.programs_from::<E>(programs, ThisV::Scalar(scalar), 0),
                s.entry_key::<E>(Some(keys), key),
            ),
{
    let scalar = key_scalar(key);
    let answers: Out<E> = s.programs_from(programs, ThisV::Scalar(scalar), 0);
    if let Ok(found) = answers {
        assert(Seq::<ViolationV>::empty() + found =~= found);
    }
    assert(carries(scalar, v));
    assert(reported_of_key(answers, s.entry_key::<E>(Some(keys), key)));
}

/// Whether what is found of a key is what its rules report, marked as of the
/// key.
pub open spec fn reported_of_key<E>(answers: Out<E>, found: Out<E>) -> bool {
    match (answers, found) {
        (Ok(inner), Ok(found)) => found.len() == inner.len() && forall|i: int|
            0 <= i < found.len() ==> (#[trigger] found[i]).rule_id == inner[i].rule_id
                && found[i].message == inner[i].message && found[i].for_key == Some(true),
        (Err(a), Err(b)) => a == b,
        _ => false,
    }
}

} // verus!
