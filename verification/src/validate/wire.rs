//! Violations in the Protobuf wire format.

use super::{
    path_of, violations_of, FieldPath, FieldPathElement, FieldPathElementV, Subscript, SubscriptV,
    Type, Violation, ViolationV,
};
use vstd::prelude::*;
use vstd::string::*;
use vstd::utf8::*;

verus! {

/// A number in groups of seven bits, the lowest first, each but the last
/// with its high bit set.
pub open spec fn varint(n: nat) -> Seq<u8>
    decreases n,
{
    if n < 128 {
        seq![n as u8]
    } else {
        seq![(n % 128 + 128) as u8] + varint(n / 128)
    }
}

/// A field of a serialized message.
pub enum Record {
    Number { field: nat, value: nat },
    Bytes { field: nat, payload: Seq<u8> },
}

/// A field as bytes: its number and form, then its value.
pub open spec fn record_bytes(record: Record) -> Seq<u8> {
    match record {
        Record::Number { field, value } => varint(field * 8) + varint(value),
        Record::Bytes { field, payload } => varint(field * 8 + 2) + varint(payload.len())
            + payload,
    }
}

/// The fields of a message as bytes, one after the other.
pub open spec fn all_bytes(records: Seq<Record>) -> Seq<u8>
    decreases records.len(),
{
    if records.len() == 0 {
        Seq::empty()
    } else {
        record_bytes(records[0]) + all_bytes(records.skip(1))
    }
}

/// A signed number as it is serialized: a negative one as its two's
/// complement of 64 bits.
pub open spec fn complement(i: int) -> nat {
    if i < 0 {
        (i + 0x1_0000_0000_0000_0000) as nat
    } else {
        i as nat
    }
}

/// The number of a type.
pub open spec fn type_number(ty: Type) -> nat {
    match ty {
        Type::Double => 1,
        Type::Float => 2,
        Type::Int64 => 3,
        Type::Uint64 => 4,
        Type::Int32 => 5,
        Type::Fixed64 => 6,
        Type::Fixed32 => 7,
        Type::Bool => 8,
        Type::String => 9,
        Type::Group => 10,
        Type::Message => 11,
        Type::Bytes => 12,
        Type::Uint32 => 13,
        Type::Enum => 14,
        Type::Sfixed32 => 15,
        Type::Sfixed64 => 16,
        Type::Sint32 => 17,
        Type::Sint64 => 18,
    }
}

/// A truth value as a number.
pub open spec fn bit(b: bool) -> nat {
    if b {
        1
    } else {
        0
    }
}

/// A field that is there, or none.
pub open spec fn optional_record(record: Option<Record>) -> Seq<Record> {
    match record {
        Some(record) => seq![record],
        None => Seq::empty(),
    }
}

/// A number that is set.
pub open spec fn signed_field(field: nat, value: Option<i32>) -> Option<Record> {
    match value {
        Some(i) => Some(Record::Number { field, value: complement(i as int) }),
        None => None,
    }
}

/// A type that is set.
pub open spec fn type_field(field: nat, ty: Option<Type>) -> Option<Record> {
    match ty {
        Some(ty) => Some(Record::Number { field, value: type_number(ty) }),
        None => None,
    }
}

/// A string that is set.
pub open spec fn text_field(field: nat, text: Option<Seq<char>>) -> Option<Record> {
    match text {
        Some(text) => Some(Record::Bytes { field, payload: encode_utf8(text) }),
        None => None,
    }
}

/// A truth value that is set.
pub open spec fn bit_field(field: nat, b: Option<bool>) -> Option<Record> {
    match b {
        Some(b) => Some(Record::Number { field, value: bit(b) }),
        None => None,
    }
}

/// A subscript that is set.
pub open spec fn subscript_field(subscript: Option<SubscriptV>) -> Option<Record> {
    match subscript {
        Some(SubscriptV::Index(i)) => Some(Record::Number { field: 6, value: i as nat }),
        Some(SubscriptV::BoolKey(b)) => Some(Record::Number { field: 7, value: bit(b) }),
        Some(SubscriptV::IntKey(i)) => Some(
            Record::Number { field: 8, value: complement(i as int) },
        ),
        Some(SubscriptV::UintKey(u)) => Some(Record::Number { field: 9, value: u as nat }),
        Some(SubscriptV::StringKey(s)) => Some(
            Record::Bytes { field: 10, payload: encode_utf8(s) },
        ),
        None => None,
    }
}

/// The fields of a `FieldPathElement`.
pub open spec fn element_records(e: FieldPathElementV) -> Seq<Record> {
    optional_record(signed_field(1, e.field_number)) + optional_record(text_field(2, e.field_name))
        + optional_record(type_field(3, e.field_type)) + optional_record(type_field(4, e.key_type))
        + optional_record(type_field(5, e.value_type)) + optional_record(
        subscript_field(e.subscript),
    )
}

/// A `FieldPathElement` as a field of its path.
pub open spec fn element_record(e: FieldPathElementV) -> Record {
    Record::Bytes { field: 1, payload: all_bytes(element_records(e)) }
}

/// The fields of a `FieldPath`.
pub open spec fn path_records(path: Seq<FieldPathElementV>) -> Seq<Record> {
    path.map_values(|e: FieldPathElementV| element_record(e))
}

/// A path that is set.
pub open spec fn path_field(field: nat, path: Option<Seq<FieldPathElementV>>) -> Option<Record> {
    match path {
        Some(path) => Some(Record::Bytes { field, payload: all_bytes(path_records(path)) }),
        None => None,
    }
}

/// The fields of a `Violation`.
pub open spec fn violation_records(v: ViolationV) -> Seq<Record> {
    optional_record(text_field(2, v.rule_id)) + optional_record(text_field(3, v.message))
        + optional_record(bit_field(4, v.for_key)) + optional_record(path_field(5, v.field))
        + optional_record(path_field(6, v.rule))
}

/// A `Violation` as a field of its list.
pub open spec fn violation_record(v: ViolationV) -> Record {
    Record::Bytes { field: 1, payload: all_bytes(violation_records(v)) }
}

/// Violations as a serialized `buf.validate.Violations`.
pub open spec fn serialized(violations: Seq<ViolationV>) -> Seq<u8> {
    all_bytes(violations.map_values(|v: ViolationV| violation_record(v)))
}

/// Calls `buffa::encoding::encode_varint`, which appends the number in
/// groups of seven bits, the lowest first, each but the last with its high
/// bit set.
#[verifier::external_body]
fn put_varint(buf: &mut Vec<u8>, value: u64)
    ensures
        final(buf)@ == old(buf)@ + varint(value as nat),
{
    buffa::encoding::encode_varint(value, buf);
}

/// One more field comes behind the others.
proof fn lemma_all_push(records: Seq<Record>, record: Record)
    ensures
        all_bytes(records.push(record)) == all_bytes(records) + record_bytes(record),
    decreases records.len(),
{
    let more = records.push(record);
    if records.len() == 0 {
        assert(more.skip(1) =~= Seq::empty());
        assert(all_bytes(more.skip(1)) =~= Seq::empty());
        assert(more[0] == record);
        assert(record_bytes(record) + Seq::<u8>::empty() =~= Seq::<u8>::empty() + record_bytes(
            record,
        ));
    } else {
        lemma_all_push(records.skip(1), record);
        assert(more.skip(1) =~= records.skip(1).push(record));
        assert(more[0] == records[0]);
        assert(record_bytes(records[0]) + (all_bytes(records.skip(1)) + record_bytes(record)) =~= (
        record_bytes(records[0]) + all_bytes(records.skip(1))) + record_bytes(record));
    }
}

/// Appends a number field.
fn put_number(buf: &mut Vec<u8>, field: u32, value: u64)
    ensures
        final(buf)@ == old(buf)@ + record_bytes(
            Record::Number { field: field as nat, value: value as nat },
        ),
{
    let ghost start = buf@;
    put_varint(buf, field as u64 * 8);
    put_varint(buf, value);
    assert(buf@ =~= start + (varint((field * 8) as nat) + varint(value as nat)));
}

/// Appends a field of bytes.
fn put_bytes(buf: &mut Vec<u8>, field: u32, payload: &[u8])
    ensures
        final(buf)@ == old(buf)@ + record_bytes(
            Record::Bytes { field: field as nat, payload: payload@ },
        ),
{
    let ghost start = buf@;
    put_varint(buf, field as u64 * 8 + 2);
    put_varint(buf, payload.len() as u64);
    buf.extend_from_slice(payload);
    assert(buf@ =~= start + (varint((field * 8 + 2) as nat) + varint(payload@.len()) + payload@));
}

/// The number of a type.
fn number_of(ty: Type) -> (r: u64)
    ensures
        r == type_number(ty),
{
    match ty {
        Type::Double => 1,
        Type::Float => 2,
        Type::Int64 => 3,
        Type::Uint64 => 4,
        Type::Int32 => 5,
        Type::Fixed64 => 6,
        Type::Fixed32 => 7,
        Type::Bool => 8,
        Type::String => 9,
        Type::Group => 10,
        Type::Message => 11,
        Type::Bytes => 12,
        Type::Uint32 => 13,
        Type::Enum => 14,
        Type::Sfixed32 => 15,
        Type::Sfixed64 => 16,
        Type::Sint32 => 17,
        Type::Sint64 => 18,
    }
}

/// A truth value as a number.
fn bit_of(b: bool) -> (r: u64)
    ensures
        r == bit(b),
{
    if b {
        1
    } else {
        0
    }
}

/// A signed number as it is serialized.
fn complement_of(i: i64) -> (r: u64)
    ensures
        r == complement(i as int),
{
    if i < 0 {
        let distance: u64 = (-(i + 1)) as u64;
        0xffff_ffff_ffff_ffff - distance
    } else {
        i as u64
    }
}

/// Appends a number that is set.
fn put_signed(buf: &mut Vec<u8>, field: u32, value: Option<i32>, Ghost(records): Ghost<Seq<Record>>)
    requires
        old(buf)@ == all_bytes(records),
    ensures
        final(buf)@ == all_bytes(
            records + optional_record(signed_field(field as nat, value)),
        ),
{
    assert(records + Seq::<Record>::empty() =~= records);
    match value {
        Some(i) => {
            put_number(buf, field, complement_of(i as i64));
            proof {
                let record = signed_field(field as nat, value)->Some_0;
                lemma_all_push(records, record);
                assert(records + seq![record] =~= records.push(record));
            }
        },
        None => {},
    }
}

/// Appends a type that is set.
fn put_type(buf: &mut Vec<u8>, field: u32, ty: Option<Type>, Ghost(records): Ghost<Seq<Record>>)
    requires
        old(buf)@ == all_bytes(records),
    ensures
        final(buf)@ == all_bytes(records + optional_record(type_field(field as nat, ty))),
{
    assert(records + Seq::<Record>::empty() =~= records);
    match ty {
        Some(t) => {
            put_number(buf, field, number_of(t));
            proof {
                let record = type_field(field as nat, ty)->Some_0;
                lemma_all_push(records, record);
                assert(records + seq![record] =~= records.push(record));
            }
        },
        None => {},
    }
}

/// Appends a string that is set.
fn put_text(
    buf: &mut Vec<u8>,
    field: u32,
    text: &Option<String>,
    Ghost(records): Ghost<Seq<Record>>,
)
    requires
        old(buf)@ == all_bytes(records),
    ensures
        final(buf)@ == all_bytes(
            records + optional_record(text_field(field as nat, super::text_of(*text))),
        ),
{
    assert(records + Seq::<Record>::empty() =~= records);
    match text {
        Some(s) => {
            put_bytes(buf, field, s.as_str().as_bytes());
            proof {
                let record = text_field(field as nat, super::text_of(*text))->Some_0;
                lemma_all_push(records, record);
                assert(records + seq![record] =~= records.push(record));
            }
        },
        None => {},
    }
}

/// Appends a truth value that is set.
fn put_bit(buf: &mut Vec<u8>, field: u32, b: Option<bool>, Ghost(records): Ghost<Seq<Record>>)
    requires
        old(buf)@ == all_bytes(records),
    ensures
        final(buf)@ == all_bytes(records + optional_record(bit_field(field as nat, b))),
{
    assert(records + Seq::<Record>::empty() =~= records);
    match b {
        Some(set) => {
            put_number(buf, field, bit_of(set));
            proof {
                let record = bit_field(field as nat, b)->Some_0;
                lemma_all_push(records, record);
                assert(records + seq![record] =~= records.push(record));
            }
        },
        None => {},
    }
}

/// A `FieldPathElement`, serialized.
fn encode_element(element: &FieldPathElement) -> (r: Vec<u8>)
    ensures
        r@ == all_bytes(element_records(element@)),
{
    let ghost e = element@;
    let mut buf: Vec<u8> = Vec::new();
    let ghost mut records = Seq::<Record>::empty();
    put_signed(&mut buf, 1, element.field_number, Ghost(records));
    proof {
        records = records + optional_record(signed_field(1, e.field_number));
    }
    put_text(&mut buf, 2, &element.field_name, Ghost(records));
    proof {
        records = records + optional_record(text_field(2, e.field_name));
    }
    put_type(&mut buf, 3, element.field_type, Ghost(records));
    proof {
        records = records + optional_record(type_field(3, e.field_type));
    }
    put_type(&mut buf, 4, element.key_type, Ghost(records));
    proof {
        records = records + optional_record(type_field(4, e.key_type));
    }
    put_type(&mut buf, 5, element.value_type, Ghost(records));
    proof {
        records = records + optional_record(type_field(5, e.value_type));
    }
    match &element.subscript {
        Some(Subscript::Index(i)) => put_number(&mut buf, 6, *i),
        Some(Subscript::BoolKey(b)) => put_number(&mut buf, 7, bit_of(*b)),
        Some(Subscript::IntKey(i)) => put_number(&mut buf, 8, complement_of(*i)),
        Some(Subscript::UintKey(u)) => put_number(&mut buf, 9, *u),
        Some(Subscript::StringKey(s)) => put_bytes(&mut buf, 10, s.as_str().as_bytes()),
        None => {},
    }
    proof {
        let last = subscript_field(e.subscript);
        if let Some(record) = last {
            lemma_all_push(records, record);
            assert(records + seq![record] =~= records.push(record));
        }
        assert(records + optional_record(last) =~= element_records(e));
        assert(records + Seq::<Record>::empty() =~= records);
    }
    buf
}

/// A `FieldPath`, serialized.
fn encode_path(path: &FieldPath) -> (r: Vec<u8>)
    ensures
        r@ == all_bytes(path_records(path_of(path.elements@))),
{
    let ghost all = path_records(path_of(path.elements@));
    let mut buf: Vec<u8> = Vec::new();
    let mut i: usize = 0;
    assert(all.take(0) =~= Seq::empty());
    while i < path.elements.len()
        invariant
            i <= path.elements@.len(),
            all == path_records(path_of(path.elements@)),
            buf@ == all_bytes(all.take(i as int)),
        decreases path.elements@.len() - i,
    {
        let element = encode_element(&path.elements[i]);
        put_bytes(&mut buf, 1, element.as_slice());
        proof {
            assert(path_of(path.elements@)[i as int] == path.elements@[i as int]@);
            lemma_all_push(all.take(i as int), all[i as int]);
            assert(all.take(i + 1) =~= all.take(i as int).push(all[i as int]));
        }
        i += 1;
    }
    assert(all.take(i as int) =~= all);
    buf
}

/// Appends a path that is set.
fn put_path(
    buf: &mut Vec<u8>,
    field: u32,
    path: &Option<FieldPath>,
    Ghost(records): Ghost<Seq<Record>>,
)
    requires
        old(buf)@ == all_bytes(records),
    ensures
        final(buf)@ == all_bytes(
            records + optional_record(path_field(field as nat, super::optional_path(*path))),
        ),
{
    assert(records + Seq::<Record>::empty() =~= records);
    match path {
        Some(p) => {
            let payload = encode_path(p);
            put_bytes(buf, field, payload.as_slice());
            proof {
                let record = path_field(field as nat, super::optional_path(*path))->Some_0;
                lemma_all_push(records, record);
                assert(records + seq![record] =~= records.push(record));
            }
        },
        None => {},
    }
}

/// A `Violation`, serialized.
fn encode_violation(violation: &Violation) -> (r: Vec<u8>)
    ensures
        r@ == all_bytes(violation_records(violation@)),
{
    let ghost v = violation@;
    let mut buf: Vec<u8> = Vec::new();
    let ghost mut records = Seq::<Record>::empty();
    put_text(&mut buf, 2, &violation.rule_id, Ghost(records));
    proof {
        records = records + optional_record(text_field(2, v.rule_id));
    }
    put_text(&mut buf, 3, &violation.message, Ghost(records));
    proof {
        records = records + optional_record(text_field(3, v.message));
    }
    put_bit(&mut buf, 4, violation.for_key, Ghost(records));
    proof {
        records = records + optional_record(bit_field(4, v.for_key));
    }
    put_path(&mut buf, 5, &violation.field, Ghost(records));
    proof {
        records = records + optional_record(path_field(5, v.field));
    }
    put_path(&mut buf, 6, &violation.rule, Ghost(records));
    proof {
        records = records + optional_record(path_field(6, v.rule));
        assert(records =~= violation_records(v));
    }
    buf
}

/// The violations as a serialized `buf.validate.Violations`.
pub fn encode_violations(violations: &Vec<Violation>) -> (r: Vec<u8>)
    ensures
        r@ == serialized(violations_of(violations@)),
{
    let ghost all = violations_of(violations@).map_values(|v: ViolationV| violation_record(v));
    let mut buf: Vec<u8> = Vec::new();
    let mut i: usize = 0;
    assert(all.take(0) =~= Seq::empty());
    while i < violations.len()
        invariant
            i <= violations@.len(),
            all == violations_of(violations@).map_values(|v: ViolationV| violation_record(v)),
            buf@ == all_bytes(all.take(i as int)),
        decreases violations@.len() - i,
    {
        let payload = encode_violation(&violations[i]);
        put_bytes(&mut buf, 1, payload.as_slice());
        proof {
            assert(violations_of(violations@)[i as int] == violations@[i as int]@);
            lemma_all_push(all.take(i as int), all[i as int]);
            assert(all.take(i + 1) =~= all.take(i as int).push(all[i as int]));
        }
        i += 1;
    }
    assert(all.take(i as int) =~= all);
    buf
}

/// A number can be told from what follows it.
proof fn lemma_varint_prefix(a: nat, b: nat, s: Seq<u8>, t: Seq<u8>)
    requires
        varint(a) + s == varint(b) + t,
    ensures
        a == b,
        s == t,
    decreases a,
{
    let x = varint(a) + s;
    let y = varint(b) + t;
    assert(x[0] == varint(a)[0]);
    assert(y[0] == varint(b)[0]);
    if a < 128 {
        assert(x[0] == a);
        if b >= 128 {
            assert(y[0] == b % 128 + 128);
        }
        assert(s =~= x.skip(1));
        assert(t =~= y.skip(1));
    } else {
        assert(x[0] == a % 128 + 128);
        if b < 128 {
            assert(y[0] == b);
        }
        assert(x.skip(1) =~= varint(a / 128) + s);
        assert(y.skip(1) =~= varint(b / 128) + t);
        lemma_varint_prefix(a / 128, b / 128, s, t);
    }
}

/// A number has at least one byte.
proof fn lemma_varint_some(n: nat)
    ensures
        varint(n).len() > 0,
{
}

/// A field can be told from what follows it.
#[verifier::spinoff_prover]
#[verifier::rlimit(40)]
proof fn lemma_record_prefix(a: Record, b: Record, s: Seq<u8>, t: Seq<u8>)
    requires
        record_bytes(a) + s == record_bytes(b) + t,
    ensures
        a == b,
        s == t,
{
    let (tag_a, rest_a) = match a {
        Record::Number { field, value } => (field * 8, varint(value)),
        Record::Bytes { field, payload } => (field * 8 + 2, varint(payload.len()) + payload),
    };
    let (tag_b, rest_b) = match b {
        Record::Number { field, value } => (field * 8, varint(value)),
        Record::Bytes { field, payload } => (field * 8 + 2, varint(payload.len()) + payload),
    };
    assert(record_bytes(a) + s =~= varint(tag_a) + (rest_a + s));
    assert(record_bytes(b) + t =~= varint(tag_b) + (rest_b + t));
    lemma_varint_prefix(tag_a, tag_b, rest_a + s, rest_b + t);
    match (a, b) {
        (Record::Number { value: x, .. }, Record::Number { value: y, .. }) => {
            lemma_varint_prefix(x, y, s, t);
        },
        (Record::Bytes { payload: x, .. }, Record::Bytes { payload: y, .. }) => {
            assert(rest_a + s =~= varint(x.len()) + (x + s));
            assert(rest_b + t =~= varint(y.len()) + (y + t));
            lemma_varint_prefix(x.len(), y.len(), x + s, y + t);
            assert(x =~= (x + s).take(x.len() as int));
            assert(y =~= (y + t).take(y.len() as int));
            assert(s =~= (x + s).skip(x.len() as int));
            assert(t =~= (y + t).skip(y.len() as int));
        },
        _ => {},
    }
}

/// The bytes of a message determine its fields.
proof fn lemma_all_determines(a: Seq<Record>, b: Seq<Record>)
    requires
        all_bytes(a) == all_bytes(b),
    ensures
        a == b,
    decreases a.len(),
{
    if a.len() == 0 || b.len() == 0 {
        if a.len() > 0 {
            lemma_record_some(a[0]);
        }
        if b.len() > 0 {
            lemma_record_some(b[0]);
        }
        assert(a =~= b);
    } else {
        lemma_record_prefix(a[0], b[0], all_bytes(a.skip(1)), all_bytes(b.skip(1)));
        lemma_all_determines(a.skip(1), b.skip(1));
        assert(a =~= seq![a[0]] + a.skip(1));
        assert(b =~= seq![b[0]] + b.skip(1));
    }
}

/// A field has at least one byte.
proof fn lemma_record_some(record: Record)
    ensures
        record_bytes(record).len() > 0,
{
    match record {
        Record::Number { field, .. } => lemma_varint_some(field * 8),
        Record::Bytes { field, .. } => lemma_varint_some(field * 8 + 2),
    }
}

/// The number of a field.
pub open spec fn field_of(record: Record) -> nat {
    match record {
        Record::Number { field, .. } => field,
        Record::Bytes { field, .. } => field,
    }
}

/// The first field with a number among `low` to `high`.
spec fn lookup(records: Seq<Record>, low: nat, high: nat) -> Option<Record>
    decreases records.len(),
{
    if records.len() == 0 {
        None
    } else if low <= field_of(records[0]) <= high {
        Some(records[0])
    } else {
        lookup(records.skip(1), low, high)
    }
}

/// A field is looked up in front, and then behind.
proof fn lemma_lookup_concat(a: Seq<Record>, b: Seq<Record>, low: nat, high: nat)
    ensures
        lookup(a + b, low, high) == (if lookup(a, low, high) is Some {
            lookup(a, low, high)
        } else {
            lookup(b, low, high)
        }),
    decreases a.len(),
{
    if a.len() == 0 {
        assert(a + b =~= b);
    } else {
        assert((a + b).skip(1) =~= a.skip(1) + b);
        lemma_lookup_concat(a.skip(1), b, low, high);
    }
}

/// A field that may be there is looked up by its number.
proof fn lemma_lookup_optional(record: Option<Record>, low: nat, high: nat)
    ensures
        lookup(optional_record(record), low, high) == (match record {
            Some(r) => if low <= field_of(r) <= high {
                Some(r)
            } else {
                None
            },
            None => None,
        }),
{
    if let Some(r) = record {
        assert(seq![r].skip(1) =~= Seq::empty());
        reveal_with_fuel(lookup, 2);
    }
}

/// Fields of different numbers, one after the other, are each found.
proof fn lemma_lookup_five(
    r1: Option<Record>,
    r2: Option<Record>,
    r3: Option<Record>,
    r4: Option<Record>,
    r5: Option<Record>,
    low: nat,
    high: nat,
)
    ensures
        ({
            let a = optional_record(r1);
            let b = optional_record(r2);
            let c = optional_record(r3);
            let d = optional_record(r4);
            let e = optional_record(r5);
            let found = |r: Option<Record>|
                r is Some && low <= field_of(r->Some_0) <= high;
            lookup(a + b + c + d + e, low, high) == (if found(r1) {
                r1
            } else if found(r2) {
                r2
            } else if found(r3) {
                r3
            } else if found(r4) {
                r4
            } else if found(r5) {
                r5
            } else {
                None
            })
        }),
{
    let a = optional_record(r1);
    let b = optional_record(r2);
    let c = optional_record(r3);
    let d = optional_record(r4);
    let e = optional_record(r5);
    lemma_lookup_optional(r1, low, high);
    lemma_lookup_optional(r2, low, high);
    lemma_lookup_optional(r3, low, high);
    lemma_lookup_optional(r4, low, high);
    lemma_lookup_optional(r5, low, high);
    lemma_lookup_concat(a, b, low, high);
    lemma_lookup_concat(a + b, c, low, high);
    lemma_lookup_concat(a + b + c, d, low, high);
    lemma_lookup_concat(a + b + c + d, e, low, high);
}

/// A string is determined by its UTF-8 form.
proof fn lemma_utf8_determines(a: Seq<char>, b: Seq<char>)
    requires
        encode_utf8(a) == encode_utf8(b),
    ensures
        a == b,
{
    encode_utf8_decode_utf8(a);
    encode_utf8_decode_utf8(b);
}

/// A string field determines its string.
proof fn lemma_text_field(field: nat, a: Option<Seq<char>>, b: Option<Seq<char>>)
    requires
        text_field(field, a) == text_field(field, b),
    ensures
        a == b,
{
    if a is Some && b is Some {
        lemma_utf8_determines(a->Some_0, b->Some_0);
    }
}

/// The fields of a path element determine it.
proof fn lemma_element_determines(a: FieldPathElementV, b: FieldPathElementV)
    requires
        element_records(a) == element_records(b),
    ensures
        a == b,
{
    lemma_element_lookup(a, 1, 1);
    lemma_element_lookup(b, 1, 1);
    lemma_element_lookup(a, 2, 2);
    lemma_element_lookup(b, 2, 2);
    lemma_element_lookup(a, 3, 3);
    lemma_element_lookup(b, 3, 3);
    lemma_element_lookup(a, 4, 4);
    lemma_element_lookup(b, 4, 4);
    lemma_element_lookup(a, 5, 5);
    lemma_element_lookup(b, 5, 5);
    lemma_element_lookup(a, 6, 10);
    lemma_element_lookup(b, 6, 10);
    lemma_text_field(2, a.field_name, b.field_name);
    assert(a.field_number == b.field_number);
    assert(a.field_type == b.field_type);
    assert(a.key_type == b.key_type);
    assert(a.value_type == b.value_type);
    assert(a.subscript == b.subscript) by {
        match (a.subscript, b.subscript) {
            (Some(SubscriptV::StringKey(s)), Some(SubscriptV::StringKey(t))) => {
                lemma_utf8_determines(s, t);
            },
            _ => {},
        }
    }
}

/// Each field of a path element is found by its number.
proof fn lemma_element_lookup(e: FieldPathElementV, low: nat, high: nat)
    ensures
        ({
            let found = lookup(element_records(e), low, high);
            &&& low == 1 && high == 1 ==> found == signed_field(1, e.field_number)
            &&& low == 2 && high == 2 ==> found == text_field(2, e.field_name)
            &&& low == 3 && high == 3 ==> found == type_field(3, e.field_type)
            &&& low == 4 && high == 4 ==> found == type_field(4, e.key_type)
            &&& low == 5 && high == 5 ==> found == type_field(5, e.value_type)
            &&& low == 6 && high == 10 ==> found == subscript_field(e.subscript)
        }),
{
    let r1 = signed_field(1, e.field_number);
    let r2 = text_field(2, e.field_name);
    let r3 = type_field(3, e.field_type);
    let r4 = type_field(4, e.key_type);
    let r5 = type_field(5, e.value_type);
    let r6 = subscript_field(e.subscript);
    lemma_lookup_five(r1, r2, r3, r4, r5, low, high);
    lemma_lookup_concat(
        optional_record(r1) + optional_record(r2) + optional_record(r3) + optional_record(r4)
            + optional_record(r5),
        optional_record(r6),
        low,
        high,
    );
    lemma_lookup_optional(r6, low, high);
}

/// The fields of a path determine it.
proof fn lemma_path_determines(a: Seq<FieldPathElementV>, b: Seq<FieldPathElementV>)
    requires
        path_records(a) == path_records(b),
    ensures
        a == b,
{
    assert(path_records(a).len() == a.len());
    assert(path_records(b).len() == b.len());
    assert forall|i: int| 0 <= i < a.len() implies a[i] == b[i] by {
        assert(path_records(a)[i] == element_record(a[i]));
        assert(path_records(b)[i] == element_record(b[i]));
        lemma_all_determines(element_records(a[i]), element_records(b[i]));
        lemma_element_determines(a[i], b[i]);
    }
    assert(a =~= b);
}

/// A path field determines its path.
proof fn lemma_path_field(
    field: nat,
    a: Option<Seq<FieldPathElementV>>,
    b: Option<Seq<FieldPathElementV>>,
)
    requires
        path_field(field, a) == path_field(field, b),
    ensures
        a == b,
{
    if a is Some && b is Some {
        lemma_all_determines(path_records(a->Some_0), path_records(b->Some_0));
        lemma_path_determines(a->Some_0, b->Some_0);
    }
}

/// The fields of a violation determine it.
proof fn lemma_violation_determines(a: ViolationV, b: ViolationV)
    requires
        violation_records(a) == violation_records(b),
    ensures
        a == b,
{
    lemma_violation_lookup(a, 2);
    lemma_violation_lookup(b, 2);
    lemma_violation_lookup(a, 3);
    lemma_violation_lookup(b, 3);
    lemma_violation_lookup(a, 4);
    lemma_violation_lookup(b, 4);
    lemma_violation_lookup(a, 5);
    lemma_violation_lookup(b, 5);
    lemma_violation_lookup(a, 6);
    lemma_violation_lookup(b, 6);
    lemma_text_field(2, a.rule_id, b.rule_id);
    lemma_text_field(3, a.message, b.message);
    assert(a.for_key == b.for_key);
    lemma_path_field(5, a.field, b.field);
    lemma_path_field(6, a.rule, b.rule);
}

/// Each field of a violation is found by its number.
proof fn lemma_violation_lookup(v: ViolationV, number: nat)
    ensures
        ({
            let found = lookup(violation_records(v), number, number);
            &&& number == 2 ==> found == text_field(2, v.rule_id)
            &&& number == 3 ==> found == text_field(3, v.message)
            &&& number == 4 ==> found == bit_field(4, v.for_key)
            &&& number == 5 ==> found == path_field(5, v.field)
            &&& number == 6 ==> found == path_field(6, v.rule)
        }),
{
    lemma_lookup_five(
        text_field(2, v.rule_id),
        text_field(3, v.message),
        bit_field(4, v.for_key),
        path_field(5, v.field),
        path_field(6, v.rule),
        number,
        number,
    );
}

/// The serialized form determines the violations: no two lists of them have
/// the same bytes.
pub proof fn law_serialized_determines_violations(a: Seq<ViolationV>, b: Seq<ViolationV>)
    requires
        serialized(a) == serialized(b),
    ensures
        a == b,
{
    let x = a.map_values(|v: ViolationV| violation_record(v));
    let y = b.map_values(|v: ViolationV| violation_record(v));
    lemma_all_determines(x, y);
    assert(x.len() == a.len() && y.len() == b.len());
    assert forall|i: int| 0 <= i < a.len() implies a[i] == b[i] by {
        assert(x[i] == violation_record(a[i]));
        assert(y[i] == violation_record(b[i]));
        lemma_all_determines(violation_records(a[i]), violation_records(b[i]));
        lemma_violation_determines(a[i], b[i]);
    }
    assert(a =~= b);
}

/// No violations are serialized as no bytes, and any violations as some.
pub proof fn law_no_violations_no_bytes(violations: Seq<ViolationV>)
    ensures
        serialized(violations).len() == 0 <==> violations.len() == 0,
{
    let records = violations.map_values(|v: ViolationV| violation_record(v));
    if violations.len() > 0 {
        lemma_record_some(records[0]);
    }
}

/// The number that the groups of seven bits spell, the lowest first.
pub open spec fn number_spelled(bytes: Seq<u8>) -> int
    decreases bytes.len(),
{
    if bytes.len() == 0 {
        0
    } else {
        bytes[0] % 128 + 128 * number_spelled(bytes.skip(1))
    }
}

/// A number reads back from its bytes: all of them but the last have their
/// high bit set.
pub proof fn law_varints_read_back(n: nat)
    ensures
        number_spelled(varint(n)) == n,
        varint(n).len() > 0,
        varint(n).last() < 128,
        forall|i: int| 0 <= i < varint(n).len() - 1 ==> #[trigger] varint(n)[i] >= 128,
    decreases n,
{
    let all = varint(n);
    if n < 128 {
        assert(all.skip(1) =~= Seq::empty());
        assert(number_spelled(all.skip(1)) == 0);
        assert(all[0] == n);
    } else {
        law_varints_read_back(n / 128);
        let rest = varint(n / 128);
        assert(all.skip(1) =~= rest);
        assert(all[0] == n % 128 + 128);
        assert(all[0] % 128 == n % 128);
        assert(all.last() == rest.last());
        assert forall|i: int| 0 <= i < all.len() - 1 implies #[trigger] all[i] >= 128 by {
            if i > 0 {
                assert(all[i] == rest[i - 1]);
            }
        }
    }
}

/// Whether the fields of a message hold a number under a field number.
pub open spec fn holds_number(records: Seq<Record>, field: nat, value: nat) -> bool {
    exists|i: int| 0 <= i < records.len() && #[trigger] records[i] == (Record::Number { field, value })
}

/// Whether the fields of a message hold bytes under a field number.
pub open spec fn holds_bytes(records: Seq<Record>, field: nat, payload: Seq<u8>) -> bool {
    exists|i: int|
        0 <= i < records.len() && #[trigger] records[i] == (Record::Bytes { field, payload })
}

/// Whether the fields of a message hold none of a number.
pub open spec fn lacks(records: Seq<Record>, number: nat) -> bool {
    forall|i: int| 0 <= i < records.len() ==> field_of(#[trigger] records[i]) != number
}

proof fn lemma_found_is_held(records: Seq<Record>, low: nat, high: nat)
    ensures
        match lookup(records, low, high) {
            Some(r) => low <= field_of(r) <= high && exists|i: int|
                0 <= i < records.len() && #[trigger] records[i] == r,
            None => forall|i: int|
                0 <= i < records.len() ==> !(low <= field_of(#[trigger] records[i]) <= high),
        },
    decreases records.len(),
{
    if records.len() > 0 {
        let rest = records.skip(1);
        lemma_found_is_held(rest, low, high);
        if !(low <= field_of(records[0]) <= high) {
            match lookup(rest, low, high) {
                Some(r) => {
                    let i = choose|i: int| 0 <= i < rest.len() && #[trigger] rest[i] == r;
                    assert(records[i + 1] == r);
                },
                None => {
                    assert forall|i: int| 0 <= i < records.len() implies !(low <= field_of(
                        #[trigger] records[i],
                    ) <= high) by {
                        if i > 0 {
                            assert(rest[i - 1] == records[i]);
                        }
                    }
                },
            }
        } else {
            assert(records[0] == records[0]);
        }
    }
}

/// The fields of a serialized violation have the numbers of `Violation`: its
/// rule id, its message, whether it is one of a key, its field path and its
/// rule path. What is not set is not there.
pub proof fn law_violations_are_serialized_by_number(v: ViolationV)
    ensures
        ({
            let records = violation_records(v);
            &&& v.rule_id matches Some(id) ==> holds_bytes(records, 2, encode_utf8(id))
            &&& v.rule_id is None ==> lacks(records, 2)
            &&& v.message matches Some(message) ==> holds_bytes(records, 3, encode_utf8(message))
            &&& v.message is None ==> lacks(records, 3)
            &&& v.for_key == Some(true) ==> holds_number(records, 4, 1)
            &&& v.for_key == Some(false) ==> holds_number(records, 4, 0)
            &&& v.for_key is None ==> lacks(records, 4)
            &&& v.field matches Some(path) ==> holds_bytes(
                records,
                5,
                all_bytes(path_records(path)),
            )
            &&& v.field is None ==> lacks(records, 5)
            &&& v.rule matches Some(path) ==> holds_bytes(
                records,
                6,
                all_bytes(path_records(path)),
            )
            &&& v.rule is None ==> lacks(records, 6)
        }),
{
    let records = violation_records(v);
    lemma_violation_lookup(v, 2);
    lemma_violation_lookup(v, 3);
    lemma_violation_lookup(v, 4);
    lemma_violation_lookup(v, 5);
    lemma_violation_lookup(v, 6);
    lemma_found_is_held(records, 2, 2);
    lemma_found_is_held(records, 3, 3);
    lemma_found_is_held(records, 4, 4);
    lemma_found_is_held(records, 5, 5);
    lemma_found_is_held(records, 6, 6);
}

/// The fields of a serialized path element have the numbers of
/// `FieldPathElement`: its field number, name and type, the types of a map's
/// keys and values, and its subscript, under the number of its kind. Negative
/// numbers are written as their two's complement of 64 bits.
pub proof fn law_elements_are_serialized_by_number(e: FieldPathElementV)
    ensures
        ({
            let records = element_records(e);
            &&& e.field_number matches Some(n) ==> holds_number(
                records,
                1,
                if n >= 0 {
                    n as nat
                } else {
                    (n + 0x1_0000_0000_0000_0000) as nat
                },
            )
            &&& e.field_number is None ==> lacks(records, 1)
            &&& e.field_name matches Some(name) ==> holds_bytes(records, 2, encode_utf8(name))
            &&& e.field_name is None ==> lacks(records, 2)
            &&& e.field_type matches Some(ty) ==> holds_number(records, 3, type_number(ty))
            &&& e.field_type is None ==> lacks(records, 3)
            &&& e.key_type matches Some(ty) ==> holds_number(records, 4, type_number(ty))
            &&& e.key_type is None ==> lacks(records, 4)
            &&& e.value_type matches Some(ty) ==> holds_number(records, 5, type_number(ty))
            &&& e.value_type is None ==> lacks(records, 5)
            &&& e.subscript matches Some(SubscriptV::Index(i)) ==> holds_number(
                records,
                6,
                i as nat,
            )
            &&& e.subscript == Some(SubscriptV::BoolKey(true)) ==> holds_number(records, 7, 1)
            &&& e.subscript == Some(SubscriptV::BoolKey(false)) ==> holds_number(records, 7, 0)
            &&& e.subscript matches Some(SubscriptV::IntKey(i)) ==> holds_number(
                records,
                8,
                if i >= 0 {
                    i as nat
                } else {
                    (i + 0x1_0000_0000_0000_0000) as nat
                },
            )
            &&& e.subscript matches Some(SubscriptV::UintKey(u)) ==> holds_number(
                records,
                9,
                u as nat,
            )
            &&& e.subscript matches Some(SubscriptV::StringKey(s)) ==> holds_bytes(
                records,
                10,
                encode_utf8(s),
            )
            &&& e.subscript is None ==> lacks(records, 6) && lacks(records, 7) && lacks(records, 8)
                && lacks(records, 9) && lacks(records, 10)
        }),
{
    let records = element_records(e);
    lemma_element_lookup(e, 1, 1);
    lemma_element_lookup(e, 2, 2);
    lemma_element_lookup(e, 3, 3);
    lemma_element_lookup(e, 4, 4);
    lemma_element_lookup(e, 5, 5);
    lemma_element_lookup(e, 6, 10);
    lemma_found_is_held(records, 1, 1);
    lemma_found_is_held(records, 2, 2);
    lemma_found_is_held(records, 3, 3);
    lemma_found_is_held(records, 4, 4);
    lemma_found_is_held(records, 5, 5);
    lemma_found_is_held(records, 6, 10);
}

/// The numbers of the types are those of `FieldDescriptorProto.Type`.
pub proof fn law_types_have_their_numbers(ty: Type)
    ensures
        ty is Double <==> type_number(ty) == 1,
        ty is Float <==> type_number(ty) == 2,
        ty is Int64 <==> type_number(ty) == 3,
        ty is Uint64 <==> type_number(ty) == 4,
        ty is Int32 <==> type_number(ty) == 5,
        ty is Fixed64 <==> type_number(ty) == 6,
        ty is Fixed32 <==> type_number(ty) == 7,
        ty is Bool <==> type_number(ty) == 8,
        ty is String <==> type_number(ty) == 9,
        ty is Group <==> type_number(ty) == 10,
        ty is Message <==> type_number(ty) == 11,
        ty is Bytes <==> type_number(ty) == 12,
        ty is Uint32 <==> type_number(ty) == 13,
        ty is Enum <==> type_number(ty) == 14,
        ty is Sfixed32 <==> type_number(ty) == 15,
        ty is Sfixed64 <==> type_number(ty) == 16,
        ty is Sint32 <==> type_number(ty) == 17,
        ty is Sint64 <==> type_number(ty) == 18,
{
}

/// A field is written as its number and form, eight to one, and then its
/// value, bytes behind their length; fields are written one behind the
/// other, the elements of a path and the violations of a list each under the
/// number 1.
pub proof fn law_fields_are_written_in_order(
    records: Seq<Record>,
    record: Record,
    path: Seq<FieldPathElementV>,
    violations: Seq<ViolationV>,
)
    ensures
        all_bytes(records.push(record)) == all_bytes(records) + record_bytes(record),
        all_bytes(Seq::empty()).len() == 0,
        record matches Record::Number { field, value } ==> record_bytes(record) == varint(field * 8)
            + varint(value),
        record matches Record::Bytes { field, payload } ==> record_bytes(record) == varint(
            field * 8 + 2,
        ) + varint(payload.len()) + payload,
        path_records(path).len() == path.len(),
        forall|i: int|
            0 <= i < path.len() ==> #[trigger] path_records(path)[i] == (Record::Bytes {
                field: 1,
                payload: all_bytes(element_records(path[i])),
            }),
        serialized(violations) == all_bytes(
            Seq::new(
                violations.len(),
                |i: int|
                    Record::Bytes { field: 1, payload: all_bytes(violation_records(violations[i])) },
            ),
        ),
{
    lemma_all_push(records, record);
    assert(violations.map_values(|v: ViolationV| violation_record(v)) =~= Seq::new(
        violations.len(),
        |i: int|
            Record::Bytes { field: 1, payload: all_bytes(violation_records(violations[i])) },
    ));
}

} // verus!
