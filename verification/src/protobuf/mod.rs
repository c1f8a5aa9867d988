//! How the validator reads messages, independently of the runtime that
//! holds them.
//!
//! A [`Runtime`] names the views a runtime gives out for a message, a
//! repeated field and a map, and those views implement [`Message`],
//! [`List`] and [`Entries`]. Validation is generic over the runtime, so a
//! message is read in place: sub-messages are further views. Only when a CEL
//! rule binds a message, list or map to `this` is the message it is read
//! from encoded, through [`Message::encode`], for the CEL runtime to parse.
//!
//! Each field the validator asks for comes described as a [`Field`],
//! resolved from the descriptors registered with it, so a runtime needs no
//! descriptors of its own: how a field is stored is all that is left to it.
//! A read that fails -- a runtime over another language raising, say -- is
//! a [`ReadError`]; it ends the validation and reaches the caller as
//! [`Error::Read`](crate::Error::Read).
//!
//! What there is to read in a message is described by a [`ValV`]: what every
//! read of it gives. A read of one view gives the same every time, and a
//! message holds no message without end.

use crate::double::Double;
use vstd::prelude::*;

mod field;

pub mod type_info;

pub mod memory;

pub mod reads;

pub use field::{fields_of, well_known_field, Field, FieldV, Kind, Scalar, Singular};

verus! {

/// Why a runtime could not read a message: its own error. The handle is one
/// word, so that a fallible read of a small value stays cheap.
#[derive(Debug)]
pub struct ReadError<E>(Box<E>);

impl<E> View for ReadError<E> {
    type V = E;

    closed spec fn view(&self) -> E {
        *self.0
    }
}

impl<E> ReadError<E> {
    /// Wraps a runtime's error.
    pub fn new(error: E) -> (r: ReadError<E>)
        ensures
            r@ == error,
    {
        ReadError(Box::new(error))
    }

    /// The runtime's error.
    pub fn inner(&self) -> (r: &E)
        ensures
            *r == self@,
    {
        &self.0
    }

    /// The runtime's error, taken out.
    pub fn into_inner(self) -> (r: E)
        ensures
            r == self@,
    {
        *self.0
    }
}

/// A map key.
#[derive(Debug)]
pub enum Key {
    Bool(bool),
    Int(i64),
    Uint(u64),
    String(String),
}

/// What a [`Key`] holds.
pub enum KeyV {
    Bool(bool),
    Int(i64),
    Uint(u64),
    String(Seq<char>),
}

impl View for Key {
    type V = KeyV;

    open spec fn view(&self) -> KeyV {
        match self {
            Key::Bool(b) => KeyV::Bool(*b),
            Key::Int(i) => KeyV::Int(*i),
            Key::Uint(u) => KeyV::Uint(*u),
            Key::String(s) => KeyV::String(s@),
        }
    }
}

/// A value as reads give it: for a message, list or map, what every read of
/// it gives. `E` is the error of the runtime that holds the value.
pub enum ValV<E> {
    Bool(bool),
    Int(i64),
    Uint(u64),
    Double(Double),
    Enum(i32),
    String(Seq<char>),
    Bytes(Seq<u8>),
    Message {
        has: spec_fn(FieldV) -> Result<bool, E>,
        get: spec_fn(FieldV) -> Option<ValV<E>>,
        encode: Result<Seq<u8>, E>,
    },
    List { len: Result<usize, E>, item: spec_fn(int) -> Option<ValV<E>> },
    Mapping {
        size: Result<usize, E>,
        key: spec_fn(int) -> KeyV,
        value: spec_fn(int) -> Option<ValV<E>>,
    },
    /// The read failed.
    Failed(E),
}

/// A Protobuf runtime, through the views it gives out.
///
/// What there is to read in each view is named by the functions without
/// executable code, which a runtime in verified code defines. A runtime in
/// ordinary Rust leaves them out: they stand for what its reads give.
pub trait Runtime: Sized {
    /// Why a read fails.
    type Error;

    /// A message, read in place.
    type Message;

    /// A repeated field's elements.
    type List;

    /// A map field's entries.
    type Entries;

    /// What asking a message whether a field is set gives.
    closed spec fn has_in(m: Self::Message, f: FieldV) -> Result<bool, Self::Error> {
        arbitrary()
    }

    /// What reading a field of a message gives.
    closed spec fn value_in(m: Self::Message, f: FieldV) -> Option<ValV<Self::Error>> {
        arbitrary()
    }

    /// What serializing a message gives.
    closed spec fn encoding_of(m: Self::Message) -> Result<Seq<u8>, Self::Error> {
        arbitrary()
    }

    /// How many elements there are.
    closed spec fn length_of(l: Self::List) -> Result<usize, Self::Error> {
        arbitrary()
    }

    /// What reading an element gives.
    closed spec fn item_in(l: Self::List, i: int) -> Option<ValV<Self::Error>> {
        arbitrary()
    }

    /// How many entries there are.
    closed spec fn size_of(p: Self::Entries) -> Result<usize, Self::Error> {
        arbitrary()
    }

    /// The key of an entry.
    closed spec fn key_in(p: Self::Entries, i: int) -> KeyV {
        arbitrary()
    }

    /// What reading the value of an entry gives.
    closed spec fn entry_in(p: Self::Entries, i: int) -> Option<ValV<Self::Error>> {
        arbitrary()
    }
}

/// What reads of a message give.
#[verifier::opaque]
pub open spec fn message_of<R: Runtime>(m: R::Message) -> ValV<R::Error> {
    ValV::Message {
        has: |f: FieldV| R::has_in(m, f),
        get: |f: FieldV| R::value_in(m, f),
        encode: R::encoding_of(m),
    }
}

/// What reads of a repeated field give.
#[verifier::opaque]
pub open spec fn list_of<R: Runtime>(l: R::List) -> ValV<R::Error> {
    ValV::List { len: R::length_of(l), item: |i: int| R::item_in(l, i) }
}

/// What reads of a map give.
#[verifier::opaque]
pub open spec fn entries_of<R: Runtime>(p: R::Entries) -> ValV<R::Error> {
    ValV::Mapping {
        size: R::size_of(p),
        key: |i: int| R::key_in(p, i),
        value: |i: int| R::entry_in(p, i),
    }
}

/// A message reads as a message, a list as a list, a map as a map.
pub proof fn shapes<R: Runtime>()
    ensures
        forall|m: R::Message| #[trigger] message_of::<R>(m) is Message,
        forall|l: R::List| #[trigger] list_of::<R>(l) is List,
        forall|p: R::Entries| #[trigger] entries_of::<R>(p) is Mapping,
{
    reveal(message_of);
    reveal(list_of);
    reveal(entries_of);
}

/// A field's value.
///
/// Integers are widened to the CEL types they become, and floats to
/// `double`; that is all the rules distinguish.
pub enum Val<R: Runtime> {
    Bool(bool),
    Int(i64),
    Uint(u64),
    Double(Double),
    Enum(i32),
    String(String),
    Bytes(Vec<u8>),
    Message(R::Message),
    List(R::List),
    Mapping(R::Entries),
}

/// What a value holds.
pub open spec fn val<R: Runtime>(v: Val<R>) -> ValV<R::Error> {
    match v {
        Val::Bool(b) => ValV::Bool(b),
        Val::Int(i) => ValV::Int(i),
        Val::Uint(u) => ValV::Uint(u),
        Val::Double(f) => ValV::Double(f),
        Val::Enum(e) => ValV::Enum(e),
        Val::String(s) => ValV::String(s@),
        Val::Bytes(b) => ValV::Bytes(b@),
        Val::Message(m) => message_of::<R>(m),
        Val::List(l) => list_of::<R>(l),
        Val::Mapping(p) => entries_of::<R>(p),
    }
}

/// What a read of a value gave.
pub open spec fn read<R: Runtime>(r: Result<Option<Val<R>>, ReadError<R::Error>>) -> Option<
    ValV<R::Error>,
> {
    match r {
        Ok(Some(v)) => Some(val::<R>(v)),
        Ok(None) => None,
        Err(e) => Some(ValV::Failed(e@)),
    }
}

/// What an optional value holds.
pub open spec fn optional<R: Runtime>(v: Option<Val<R>>) -> Option<ValV<R::Error>> {
    match v {
        Some(v) => Some(val::<R>(v)),
        None => None,
    }
}

/// What an optional value behind references holds.
pub open spec fn optional_ref<R: Runtime>(v: Option<&Val<R>>) -> Option<ValV<R::Error>> {
    match v {
        Some(v) => Some(val::<R>(*v)),
        None => None,
    }
}

/// What a read of anything else gave.
pub open spec fn read_plain<T, E>(r: Result<T, ReadError<E>>) -> Result<T, E> {
    match r {
        Ok(v) => Ok(v),
        Err(e) => Err(e@),
    }
}

/// What a read of bytes gave.
pub open spec fn read_bytes<E>(r: Result<Vec<u8>, ReadError<E>>) -> Result<Seq<u8>, E> {
    match r {
        Ok(v) => Ok(v@),
        Err(e) => Err(e@),
    }
}

/// A message being validated.
pub trait Message<R: Runtime<Message = Self>>: Sized {
    /// Whether the field is set. Asked only of a field that
    /// [tracks presence](Field::has_presence), or holds a message; whether
    /// any other field is set follows from its value, which the validator
    /// decides for itself.
    fn has(&self, field: &Field) -> (r: Result<bool, ReadError<R::Error>>)
        ensures
            read_plain(r) == R::has_in(*self, field@),
    ;

    /// The field's value, or its type's default when it is not set. `None`
    /// when the message has no such field, as when its runtime knows an
    /// older schema than the validator.
    fn get(&self, field: &Field) -> (r: Result<Option<Val<R>>, ReadError<R::Error>>)
        ensures
            read::<R>(r) == R::value_in(*self, field@),
    ;

    /// The message serialized, for the CEL runtime to parse when a rule binds
    /// it, or one of its repeated or map fields, to `this`.
    fn encode(&self) -> (r: Result<Vec<u8>, ReadError<R::Error>>)
        ensures
            read_bytes(r) == R::encoding_of(*self),
    ;
}

/// A repeated field.
pub trait List<R: Runtime<List = Self>>: Sized {
    /// The number of elements.
    fn len(&self) -> (r: Result<usize, ReadError<R::Error>>)
        ensures
            read_plain(r) == R::length_of(*self),
    ;

    /// The element at `index`, `None` past the end.
    fn get(&self, index: usize) -> (r: Result<Option<Val<R>>, ReadError<R::Error>>)
        ensures
            read::<R>(r) == R::item_in(*self, index as int),
    ;
}

/// A map field. The order of the entries is the runtime's.
pub trait Entries<R: Runtime<Entries = Self>>: Sized {
    /// The number of entries.
    fn len(&self) -> (r: Result<usize, ReadError<R::Error>>)
        ensures
            read_plain(r) == R::size_of(*self),
    ;

    /// The entry at `index`, `None` past the end.
    fn entry(&self, index: usize) -> (r: Result<Option<(Key, Val<R>)>, ReadError<R::Error>>)
        ensures
            match r {
                Ok(Some((k, v))) => {
                    &&& R::key_in(*self, index as int) == k@
                    &&& R::entry_in(*self, index as int) == Some(val::<R>(v))
                },
                Ok(None) => R::entry_in(*self, index as int) is None,
                Err(e) => R::entry_in(*self, index as int) == Some(
                    ValV::<R::Error>::Failed(e@),
                ),
            },
    ;
}

/// A field of a message is smaller than the message.
pub proof fn lemma_get_smaller<E>(m: ValV<E>, f: FieldV)
    requires
        m is Message,
    ensures
        (m->get)(f) matches Some(v) ==> decreases_to!(m => v),
{
    let o = (m->get)(f);
    assert(decreases_to!(m => o));
    if o is Some {
        assert(decreases_to!(o => o->Some_0));
    }
}

/// An item of a list is smaller than the list.
pub proof fn lemma_item_smaller<E>(l: ValV<E>, i: int)
    requires
        l is List,
    ensures
        (l->item)(i) matches Some(v) ==> decreases_to!(l => v),
{
    let o = (l->item)(i);
    assert(decreases_to!(l => o));
    if o is Some {
        assert(decreases_to!(o => o->Some_0));
    }
}

/// A value of a map is smaller than the map.
pub proof fn lemma_value_smaller<E>(p: ValV<E>, i: int)
    requires
        p is Mapping,
    ensures
        (p->value)(i) matches Some(v) ==> decreases_to!(p => v),
{
    let o = (p->value)(i);
    assert(decreases_to!(p => o));
    if o is Some {
        assert(decreases_to!(o => o->Some_0));
    }
}

/// What is known of a value is what it holds: the same truth value, number,
/// text or bytes, and what reads of the message, list or map give.
pub proof fn law_values_hold_what_is_known<R: Runtime>(v: Val<R>)
    ensures
        v matches Val::Bool(b) ==> val::<R>(v) == ValV::<R::Error>::Bool(b),
        v matches Val::Int(i) ==> val::<R>(v) == ValV::<R::Error>::Int(i),
        v matches Val::Uint(u) ==> val::<R>(v) == ValV::<R::Error>::Uint(u),
        v matches Val::Double(f) ==> val::<R>(v) == ValV::<R::Error>::Double(f),
        v matches Val::Enum(e) ==> val::<R>(v) == ValV::<R::Error>::Enum(e),
        v matches Val::String(s) ==> val::<R>(v) == ValV::<R::Error>::String(s@),
        v matches Val::Bytes(b) ==> val::<R>(v) == ValV::<R::Error>::Bytes(b@),
        v matches Val::Message(m) ==> val::<R>(v) is Message,
        v matches Val::List(l) ==> val::<R>(v) is List,
        v matches Val::Mapping(p) ==> val::<R>(v) is Mapping,
        optional::<R>(Some(v)) == Some(val::<R>(v)),
        optional::<R>(None) is None,
        read::<R>(Ok(Some(v))) == Some(val::<R>(v)),
        read::<R>(Ok(None)) is None,
{
    shapes::<R>();
}

/// What is known of a message, a list and a map is what the runtime answers:
/// for each field, element and entry, and for their numbers.
pub proof fn law_reads_are_those_of_the_runtime<R: Runtime>(
    m: R::Message,
    l: R::List,
    p: R::Entries,
    f: FieldV,
    i: int,
)
    ensures
        (message_of::<R>(m)->has)(f) == R::has_in(m, f),
        (message_of::<R>(m)->get)(f) == R::value_in(m, f),
        message_of::<R>(m)->encode == R::encoding_of(m),
        list_of::<R>(l)->len == R::length_of(l),
        (list_of::<R>(l)->item)(i) == R::item_in(l, i),
        entries_of::<R>(p)->size == R::size_of(p),
        (entries_of::<R>(p)->key)(i) == R::key_in(p, i),
        (entries_of::<R>(p)->value)(i) == R::entry_in(p, i),
{
    reveal(message_of);
    reveal(list_of);
    reveal(entries_of);
}

} // verus!
