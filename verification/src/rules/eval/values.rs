//! Values as the walk reads them.

use crate::rules::outcome::{
    field_set, key_scalar, key_subscript, key_value, subscripted, value_scalar, value_set,
    zero_item, zero_key,
};
use crate::rules::standard::values::chars;
use crate::rules::ScalarKind;
use crate::cel::Scalar;
use crate::double::Double;
use crate::error::{Error, ErrorV};
use crate::protobuf::reads::{fallible, get_field, has_field, list_len, map_len};
use crate::protobuf::{
    message_of, optional, optional_ref, shapes, val, Entries, Field, Key, List, Message, Runtime,
    Val,
};
use crate::text::concat;
use crate::validate::{FieldPathElement, Subscript};
use vstd::prelude::*;

verus! {

/// The field number as CEL takes it.
pub(crate) fn field_number(number: u32) -> (r: i32)
    ensures
        r == (if number <= i32::MAX {
            number as int
        } else {
            i32::MAX as int
        }),
{
    if number <= 0x7fff_ffff {
        number as i32
    } else {
        i32::MAX
    }
}

/// The type of the messages a field holds, which a frame of one of them is
/// parsed as.
pub(crate) fn message_type<E>(field: &Field) -> (r: Result<&str, Error<E>>)
    ensures
        match r {
            Ok(name) => field@.message_type == Some(name@),
            Err(error) => field@.message_type is None && error@ == ErrorV::<E>::Unexpected(
                field@.name + " does not hold messages"@,
            ),
        },
{
    match field.message_type() {
        Some(name) => Ok(name),
        None => Err(Error::Unexpected(concat(field.name(), " does not hold messages"))),
    }
}

/// Whether a string is empty.
pub(crate) fn is_empty_text(s: &str) -> (r: bool)
    ensures
        r == (s@.len() == 0),
{
    chars(s) == 0
}

/// Whether a repeated element or map value is the zero of its type, as
/// `IGNORE_IF_ZERO_VALUE` reads it.
pub fn is_empty_item<R: Runtime>(value: &Val<R>) -> (r: bool)
    ensures
        r == zero_item(val::<R>(*value)),
{
    proof {
        shapes::<R>();
    }
    match value {
        Val::Bool(b) => !*b,
        Val::Int(i) => *i == 0,
        Val::Uint(u) => *u == 0,
        Val::Double(f) => f.is_zero(),
        Val::Enum(e) => *e == 0,
        Val::String(s) => is_empty_text(s.as_str()),
        Val::Bytes(b) => b.len() == 0,
        Val::Message(_) | Val::List(_) | Val::Mapping(_) => false,
    }
}

/// Whether a field that does not track presence is set: not its type's
/// default. A double goes by its bits, so a negative zero, which
/// serializes, is set. `None` is a field the message does not have at all.
pub fn is_set<R: Runtime>(value: &Option<Val<R>>) -> (r: Result<bool, Error<R::Error>>) where
    R::List: List<R>,
    R::Entries: Entries<R>,

    ensures
        fallible(r) == value_set(optional::<R>(*value)),
{
    proof {
        shapes::<R>();
    }
    match value {
        None => Ok(false),
        Some(Val::Bool(b)) => Ok(*b),
        Some(Val::Int(i)) => Ok(*i != 0),
        Some(Val::Uint(u)) => Ok(*u != 0),
        Some(Val::Double(f)) => Ok(f.bits != 0),
        Some(Val::Enum(e)) => Ok(*e != 0),
        Some(Val::String(s)) => Ok(!is_empty_text(s.as_str())),
        Some(Val::Bytes(b)) => Ok(b.len() != 0),
        Some(Val::Message(_)) => Ok(true),
        Some(Val::List(list)) => match list_len::<R>(list) {
            Ok(len) => Ok(len != 0),
            Err(error) => Err(error),
        },
        Some(Val::Mapping(map)) => match map_len::<R>(map) {
            Ok(len) => Ok(len != 0),
            Err(error) => Err(error),
        },
    }
}

/// Whether a field is set: the runtime says for one that tracks presence,
/// its value for the rest.
pub fn has<R: Runtime>(message: &R::Message, field: &Field) -> (r: Result<
    bool,
    Error<R::Error>,
>) where R::Message: Message<R>, R::List: List<R>, R::Entries: Entries<R>
    ensures
        fallible(r) == field_set(message_of::<R>(*message), field@),
{
    if field.has_presence() {
        return has_field::<R>(message, field);
    }
    match get_field::<R>(message, field) {
        Ok(value) => is_set::<R>(&value),
        Err(error) => Err(error),
    }
}

impl Key {
    /// Whether the key is the zero of its type.
    pub fn is_empty(&self) -> (r: bool)
        ensures
            r == zero_key(self@),
    {
        match self {
            Key::Bool(b) => !*b,
            Key::Int(i) => *i == 0,
            Key::Uint(u) => *u == 0,
            Key::String(s) => is_empty_text(s.as_str()),
        }
    }

    /// The key as CEL sees it.
    pub(crate) fn scalar(&self) -> (r: Scalar<'_>)
        ensures
            r@ == key_scalar(self@),
    {
        match self {
            Key::Bool(b) => Scalar::Bool(*b),
            Key::Int(i) => Scalar::Int(*i),
            Key::Uint(u) => Scalar::Uint(*u),
            Key::String(s) => Scalar::String(s.as_str()),
        }
    }

    /// The key as the subscript of a path element.
    pub(crate) fn subscript(&self) -> (r: Subscript)
        ensures
            r@ == key_subscript(self@),
    {
        match self {
            Key::Bool(b) => Subscript::BoolKey(*b),
            Key::Int(i) => Subscript::IntKey(*i),
            Key::Uint(u) => Subscript::UintKey(*u),
            Key::String(s) => Subscript::StringKey(s.clone()),
        }
    }

    /// The key as a value, for the key rules.
    pub(crate) fn to_val<R: Runtime>(&self) -> (r: Val<R>)
        ensures
            val::<R>(r) == key_value::<R::Error>(self@),
    {
        match self {
            Key::Bool(b) => Val::Bool(*b),
            Key::Int(i) => Val::Int(*i),
            Key::Uint(u) => Val::Uint(*u),
            Key::String(s) => Val::String(s.clone()),
        }
    }
}

/// The CEL scalar for a field's value, or the type's zero when the message
/// does not have the field at all.
pub(crate) fn scalar_of<'v, R: Runtime>(value: Option<&'v Val<R>>, kind: ScalarKind) -> (r: Scalar<'v>)
    ensures
        r@ == value_scalar(optional_ref::<R>(value), kind),
{
    proof {
        shapes::<R>();
        reveal_strlit("");
        assert(""@ =~= Seq::<char>::empty());
    }
    match value {
        Some(Val::Bool(b)) => Scalar::Bool(*b),
        Some(Val::Int(i)) => Scalar::Int(*i),
        Some(Val::Uint(u)) => Scalar::Uint(*u),
        Some(Val::Double(f)) => Scalar::Double(*f),
        Some(Val::Enum(e)) => Scalar::Int(*e as i64),
        Some(Val::String(s)) => Scalar::String(s.as_str()),
        Some(Val::Bytes(b)) => Scalar::Bytes(b.as_slice()),
        Some(Val::Message(_) | Val::List(_) | Val::Mapping(_)) | None => match kind {
            ScalarKind::Bool => Scalar::Bool(false),
            ScalarKind::Int => Scalar::Int(0),
            ScalarKind::Uint => Scalar::Uint(0),
            ScalarKind::Double => Scalar::Double(Double { bits: 0 }),
            ScalarKind::String => Scalar::String(""),
            ScalarKind::Bytes => {
                assert(Seq::<u8>::empty() =~= (&[])@);
                Scalar::Bytes(&[])
            },
        },
    }
}

/// The path element with a subscript.
pub(crate) fn with_subscript(element: FieldPathElement, subscript: Subscript) -> (r: FieldPathElement)
    ensures
        r@ == subscripted(element@, subscript@),
{
    let mut element = element;
    element.subscript = Some(subscript);
    element
}


} // verus!
