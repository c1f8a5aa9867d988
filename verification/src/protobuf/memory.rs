//! Messages held in memory, as plain values.

use super::{
    entries_of, list_of, message_of, read, Entries, Field, FieldV, Key, KeyV, List, Message,
    ReadError, Runtime, Val, ValV,
};
use crate::double::Double;
use crate::text::copy_bytes;
use std::rc::Rc;
use vstd::prelude::*;

verus! {

/// A value of a message.
pub enum Value {
    Bool(bool),
    Int(i64),
    Uint(u64),
    Double(Double),
    Enum(i32),
    String(String),
    Bytes(Vec<u8>),
    Message(Rc<Record>),
    List(Rc<Vec<Value>>),
    Mapping(Rc<Vec<(Key, Value)>>),
    /// A value that cannot be read, and why.
    Broken(String),
}

/// A field of a message.
pub struct Slot {
    pub number: u32,
    /// Whether the field is set, for one that tracks presence.
    pub set: bool,
    pub value: Value,
}

/// A message.
pub struct Record {
    pub fields: Vec<Slot>,
    pub encoded: Vec<u8>,
}

/// The runtime of messages held in memory.
pub struct Memory;

/// What reads of a value give.
pub open spec fn value_model(v: Value) -> ValV<String>
    decreases v,
{
    match v {
        Value::Bool(b) => ValV::Bool(b),
        Value::Int(i) => ValV::Int(i),
        Value::Uint(u) => ValV::Uint(u),
        Value::Double(f) => ValV::Double(f),
        Value::Enum(e) => ValV::Enum(e),
        Value::String(s) => ValV::String(s@),
        Value::Bytes(b) => ValV::Bytes(b@),
        Value::Message(m) => record_model(*m),
        Value::List(l) => list_model(*l),
        Value::Mapping(p) => map_model(*p),
        Value::Broken(e) => ValV::Failed(e),
    }
}

/// The position of the field numbered `number` among the first `n` fields,
/// or `n` when it is not there.
pub open spec fn find_slot(fields: Seq<Slot>, number: u32, n: nat) -> nat
    decreases n,
{
    if n == 0 || n > fields.len() {
        n
    } else {
        let earlier = find_slot(fields, number, (n - 1) as nat);
        if earlier < n - 1 {
            earlier
        } else if fields[n - 1].number == number {
            (n - 1) as nat
        } else {
            n
        }
    }
}

/// What reads of a message give: the value of the first field with the
/// number asked for.
pub open spec fn record_model(m: Record) -> ValV<String>
    decreases m,
{
    ValV::Message {
        has: |f: FieldV|
            {
                let i = find_slot(m.fields@, f.number, m.fields@.len());
                Ok::<bool, String>(i < m.fields@.len() && m.fields@[i as int].set)
            },
        get: |f: FieldV|
            {
                let i = find_slot(m.fields@, f.number, m.fields@.len());
                if i < m.fields@.len() {
                    Some(value_model(m.fields@[i as int].value))
                } else {
                    None
                }
            },
        encode: Ok::<Seq<u8>, String>(m.encoded@),
    }
}

/// What reads of a repeated field give.
pub open spec fn list_model(l: Vec<Value>) -> ValV<String>
    decreases l,
{
    ValV::List {
        len: Ok::<usize, String>(l@.len() as usize),
        item: |i: int|
            if 0 <= i < l@.len() {
                Some(value_model(l@[i]))
            } else {
                None
            },
    }
}

/// What reads of a map give.
pub open spec fn map_model(p: Vec<(Key, Value)>) -> ValV<String>
    decreases p,
{
    ValV::Mapping {
        size: Ok::<usize, String>(p@.len() as usize),
        key: |i: int| p@[i].0@,
        value: |i: int|
            if 0 <= i < p@.len() {
                Some(value_model(p@[i].1))
            } else {
                None
            },
    }
}

impl Runtime for Memory {
    type Error = String;

    type Message = Rc<Record>;

    type List = Rc<Vec<Value>>;

    type Entries = Rc<Vec<(Key, Value)>>;

    open spec fn has_in(m: Rc<Record>, f: FieldV) -> Result<bool, String> {
        let i = find_slot(m.fields@, f.number, m.fields@.len());
        Ok(i < m.fields@.len() && m.fields@[i as int].set)
    }

    open spec fn value_in(m: Rc<Record>, f: FieldV) -> Option<ValV<String>> {
        (record_model(*m)->get)(f)
    }

    open spec fn encoding_of(m: Rc<Record>) -> Result<Seq<u8>, String> {
        Ok(m.encoded@)
    }

    open spec fn length_of(l: Rc<Vec<Value>>) -> Result<usize, String> {
        Ok(l@.len() as usize)
    }

    open spec fn item_in(l: Rc<Vec<Value>>, i: int) -> Option<ValV<String>> {
        (list_model(*l)->item)(i)
    }

    open spec fn size_of(p: Rc<Vec<(Key, Value)>>) -> Result<usize, String> {
        Ok(p@.len() as usize)
    }

    open spec fn key_in(p: Rc<Vec<(Key, Value)>>, i: int) -> KeyV {
        p@[i].0@
    }

    open spec fn entry_in(p: Rc<Vec<(Key, Value)>>, i: int) -> Option<ValV<String>> {
        (map_model(*p)->value)(i)
    }
}

/// What reads of a message in memory give is what is in it.
pub proof fn lemma_models(m: Rc<Record>, l: Rc<Vec<Value>>, p: Rc<Vec<(Key, Value)>>)
    ensures
        message_of::<Memory>(m) == record_model(*m),
        list_of::<Memory>(l) == list_model(*l),
        entries_of::<Memory>(p) == map_model(*p),
{
    reveal(message_of);
    reveal(list_of);
    reveal(entries_of);
    assert(message_of::<Memory>(m)->has =~= record_model(*m)->has);
    assert(message_of::<Memory>(m)->get =~= record_model(*m)->get);
    assert(list_of::<Memory>(l)->item =~= list_model(*l)->item);
    assert(entries_of::<Memory>(p)->key =~= map_model(*p)->key);
    assert(entries_of::<Memory>(p)->value =~= map_model(*p)->value);
}

/// What reads of a value in memory give is what is in it.
proof fn lemma_held(v: Value)
    ensures
        match v {
            Value::Message(m) => message_of::<Memory>(m) == record_model(*m),
            Value::List(l) => list_of::<Memory>(l) == list_model(*l),
            Value::Mapping(p) => entries_of::<Memory>(p) == map_model(*p),
            _ => true,
        },
{
    match v {
        Value::Message(m) => lemma_models(m, arbitrary(), arbitrary()),
        Value::List(l) => lemma_models(arbitrary(), l, arbitrary()),
        Value::Mapping(p) => lemma_models(arbitrary(), arbitrary(), p),
        _ => {},
    }
}

/// Reads a value.
fn read_value(v: &Value) -> (r: Result<Option<Val<Memory>>, ReadError<String>>)
    ensures
        read::<Memory>(r) == Some(value_model(*v)),
{
    proof {
        lemma_held(*v);
    }
    match v {
        Value::Bool(b) => Ok(Some(Val::Bool(*b))),
        Value::Int(i) => Ok(Some(Val::Int(*i))),
        Value::Uint(u) => Ok(Some(Val::Uint(*u))),
        Value::Double(f) => Ok(Some(Val::Double(*f))),
        Value::Enum(e) => Ok(Some(Val::Enum(*e))),
        Value::String(s) => Ok(Some(Val::String(s.clone()))),
        Value::Bytes(b) => Ok(Some(Val::Bytes(copy_bytes(b)))),
        Value::Message(m) => Ok(Some(Val::Message(Rc::clone(m)))),
        Value::List(l) => Ok(Some(Val::List(Rc::clone(l)))),
        Value::Mapping(p) => Ok(Some(Val::Mapping(Rc::clone(p)))),
        Value::Broken(e) => Err(ReadError::new(e.clone())),
    }
}

/// A copy of a key.
fn copy_key(k: &Key) -> (r: Key)
    ensures
        r@ == k@,
{
    match k {
        Key::Bool(b) => Key::Bool(*b),
        Key::Int(i) => Key::Int(*i),
        Key::Uint(u) => Key::Uint(*u),
        Key::String(s) => Key::String(s.clone()),
    }
}

impl Record {
    /// The position of the field numbered `number`, or the number of fields
    /// when it is not there.
    fn find(&self, number: u32) -> (r: usize)
        ensures
            r == find_slot(self.fields@, number, self.fields@.len()),
            r <= self.fields@.len(),
    {
        let mut found: usize = self.fields.len();
        let mut i: usize = 0;
        let mut missing = true;
        while i < self.fields.len()
            invariant
                i <= self.fields@.len(),
                missing ==> find_slot(self.fields@, number, i as nat) == i,
                missing ==> found == self.fields@.len(),
                !missing ==> found == find_slot(self.fields@, number, i as nat) && found < i,
            decreases self.fields@.len() - i,
        {
            if missing && self.fields[i].number == number {
                found = i;
                missing = false;
            }
            i += 1;
        }
        found
    }
}

impl Message<Memory> for Rc<Record> {
    fn has(&self, field: &Field) -> (r: Result<bool, ReadError<String>>) {
        let i: usize = self.find(field.number());
        Ok(i < self.fields.len() && self.fields[i].set)
    }

    fn get(&self, field: &Field) -> (r: Result<Option<Val<Memory>>, ReadError<String>>) {
        let i: usize = self.find(field.number());
        if i < self.fields.len() {
            read_value(&self.fields[i].value)
        } else {
            Ok(None)
        }
    }

    fn encode(&self) -> (r: Result<Vec<u8>, ReadError<String>>) {
        Ok(copy_bytes(&self.encoded))
    }
}

impl List<Memory> for Rc<Vec<Value>> {
    fn len(&self) -> (r: Result<usize, ReadError<String>>) {
        Ok((**self).len())
    }

    fn get(&self, index: usize) -> (r: Result<Option<Val<Memory>>, ReadError<String>>) {
        if index < (**self).len() {
            read_value(&(**self)[index])
        } else {
            Ok(None)
        }
    }
}

impl Entries<Memory> for Rc<Vec<(Key, Value)>> {
    fn len(&self) -> (r: Result<usize, ReadError<String>>) {
        Ok((**self).len())
    }

    fn entry(&self, index: usize) -> (r: Result<Option<(Key, Val<Memory>)>, ReadError<String>>) {
        if index < (**self).len() {
            let pair = &(**self)[index];
            match read_value(&pair.1) {
                Ok(Some(v)) => Ok(Some((copy_key(&pair.0), v))),
                Ok(None) => Ok(None),
                Err(e) => Err(e),
            }
        } else {
            Ok(None)
        }
    }
}

proof fn lemma_find_slot(fields: Seq<Slot>, number: u32, n: nat)
    requires
        n <= fields.len(),
    ensures
        ({
            let i = find_slot(fields, number, n);
            &&& i <= n
            &&& i < n ==> fields[i as int].number == number
            &&& forall|j: int| 0 <= j < i ==> (#[trigger] fields[j]).number != number
        }),
    decreases n,
{
    if n > 0 {
        lemma_find_slot(fields, number, (n - 1) as nat);
    }
}

/// A record has what its slots hold: a field is found by its number, in the
/// first slot that has it, and one without a slot is neither set nor there.
pub proof fn law_records_hold_their_slots(m: Record, f: FieldV, i: int)
    requires
        0 <= i <= m.fields@.len(),
        i < m.fields@.len() ==> m.fields@[i].number == f.number,
        forall|j: int| 0 <= j < i ==> (#[trigger] m.fields@[j]).number != f.number,
    ensures
        i < m.fields@.len() ==> (record_model(m)->has)(f) == Ok::<bool, String>(m.fields@[i].set)
            && (record_model(m)->get)(f) == Some(value_model(m.fields@[i].value)),
        i == m.fields@.len() ==> (record_model(m)->has)(f) == Ok::<bool, String>(false)
            && (record_model(m)->get)(f) is None,
        record_model(m)->encode == Ok::<Seq<u8>, String>(m.encoded@),
{
    lemma_find_slot(m.fields@, f.number, m.fields@.len());
    let found = find_slot(m.fields@, f.number, m.fields@.len());
    if found < i {
        assert(m.fields@[found as int].number != f.number);
    } else if found > i {
        assert(m.fields@[i].number != f.number);
    }
}

} // verus!
