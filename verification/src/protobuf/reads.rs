//! Reads of messages, with failures as the validator reports them.

use super::{
    entries_of, list_of, message_of, optional, shapes, val, Entries, Field, FieldV, Key, KeyV, List,
    Message, Runtime, Val, ValV,
};
use crate::error::{Error, ErrorV};
use vstd::prelude::*;

verus! {

/// What a fallible computation gives.
pub open spec fn fallible<T, E>(r: Result<T, Error<E>>) -> Result<T, ErrorV<E>> {
    match r {
        Ok(v) => Ok(v),
        Err(e) => Err(e@),
    }
}

/// What a read that may give a value gives.
pub open spec fn fallible_value<R: Runtime>(
    r: Result<Option<Val<R>>, Error<R::Error>>,
) -> Result<Option<ValV<R::Error>>, ErrorV<R::Error>> {
    match r {
        Ok(v) => Ok(optional::<R>(v)),
        Err(e) => Err(e@),
    }
}

/// A read of a value, with its failure set apart.
pub open spec fn settled<E>(o: Option<ValV<E>>) -> Result<Option<ValV<E>>, ErrorV<E>> {
    match o {
        Some(ValV::Failed(e)) => Err(ErrorV::Read(e)),
        o => Ok(o),
    }
}

/// A read of anything else, with its failure as the validator reports it.
pub open spec fn reported<T, E>(r: Result<T, E>) -> Result<T, ErrorV<E>> {
    match r {
        Ok(v) => Ok(v),
        Err(e) => Err(ErrorV::Read(e)),
    }
}

/// The field's value in a message.
pub open spec fn field_of<E>(m: ValV<E>, f: FieldV) -> Result<Option<ValV<E>>, ErrorV<E>> {
    settled((m->get)(f))
}

/// Whether the message says that the field is set.
pub open spec fn presence_of<E>(m: ValV<E>, f: FieldV) -> Result<bool, ErrorV<E>> {
    reported((m->has)(f))
}

/// The number of elements of a list.
pub open spec fn len_of<E>(l: ValV<E>) -> Result<usize, ErrorV<E>> {
    reported(l->len)
}

/// An element of a list.
pub open spec fn item_of<E>(l: ValV<E>, i: int) -> Result<Option<ValV<E>>, ErrorV<E>> {
    settled((l->item)(i))
}

/// The number of entries of a map.
pub open spec fn size_of<E>(p: ValV<E>) -> Result<usize, ErrorV<E>> {
    reported(p->size)
}

/// An entry of a map.
pub open spec fn entry_of<E>(p: ValV<E>, i: int) -> Result<Option<(KeyV, ValV<E>)>, ErrorV<E>> {
    match (p->value)(i) {
        Some(ValV::Failed(e)) => Err(ErrorV::Read(e)),
        Some(v) => Ok(Some(((p->key)(i), v))),
        None => Ok(None),
    }
}

/// What reading an entry gives.
pub open spec fn fallible_entry<R: Runtime>(
    r: Result<Option<(Key, Val<R>)>, Error<R::Error>>,
) -> Result<Option<(KeyV, ValV<R::Error>)>, ErrorV<R::Error>> {
    match r {
        Ok(Some((k, v))) => Ok(Some((k@, val::<R>(v)))),
        Ok(None) => Ok(None),
        Err(e) => Err(e@),
    }
}

/// Reads a field.
pub fn get_field<R: Runtime>(m: &R::Message, f: &Field) -> (r: Result<
    Option<Val<R>>,
    Error<R::Error>,
>) where R::Message: Message<R>
    ensures
        fallible_value::<R>(r) == field_of(message_of::<R>(*m), f@),
{
    proof {
        shapes::<R>();
        reveal(message_of);
    }
    match m.get(f) {
        Ok(v) => Ok(v),
        Err(e) => Err(Error::Read(e)),
    }
}

/// Asks whether a field is set.
pub fn has_field<R: Runtime>(m: &R::Message, f: &Field) -> (r: Result<
    bool,
    Error<R::Error>,
>) where R::Message: Message<R>
    ensures
        fallible(r) == presence_of(message_of::<R>(*m), f@),
{
    proof {
        reveal(message_of);
    }
    match m.has(f) {
        Ok(v) => Ok(v),
        Err(e) => Err(Error::Read(e)),
    }
}

/// Reads the number of elements of a list.
pub fn list_len<R: Runtime>(l: &R::List) -> (r: Result<usize, Error<R::Error>>) where
    R::List: List<R>,

    ensures
        fallible(r) == len_of(list_of::<R>(*l)),
{
    proof {
        reveal(list_of);
    }
    match l.len() {
        Ok(v) => Ok(v),
        Err(e) => Err(Error::Read(e)),
    }
}

/// Reads an element of a list.
pub fn list_item<R: Runtime>(l: &R::List, index: usize) -> (r: Result<
    Option<Val<R>>,
    Error<R::Error>,
>) where R::List: List<R>
    ensures
        fallible_value::<R>(r) == item_of(list_of::<R>(*l), index as int),
{
    proof {
        shapes::<R>();
        reveal(list_of);
    }
    match l.get(index) {
        Ok(v) => Ok(v),
        Err(e) => Err(Error::Read(e)),
    }
}

/// Reads the number of entries of a map.
pub fn map_len<R: Runtime>(p: &R::Entries) -> (r: Result<usize, Error<R::Error>>) where
    R::Entries: Entries<R>,

    ensures
        fallible(r) == size_of(entries_of::<R>(*p)),
{
    proof {
        reveal(entries_of);
    }
    match p.len() {
        Ok(v) => Ok(v),
        Err(e) => Err(Error::Read(e)),
    }
}

/// Reads an entry of a map.
pub fn map_entry<R: Runtime>(p: &R::Entries, index: usize) -> (r: Result<
    Option<(Key, Val<R>)>,
    Error<R::Error>,
>) where R::Entries: Entries<R>
    ensures
        fallible_entry::<R>(r) == entry_of(entries_of::<R>(*p), index as int),
{
    proof {
        shapes::<R>();
        reveal(entries_of);
    }
    match p.entry(index) {
        Ok(v) => Ok(v),
        Err(e) => Err(Error::Read(e)),
    }
}

} // verus!
