//! How a runtime that keeps fields by name, or by attribute, finds them and
//! gives their values.
//!
//! A [`TypeInfo`] says once per message class where its fields are kept;
//! fields are then found by number. What a stored value becomes, and what
//! stands for one that is not there, follows from the field's type.

use super::{shapes, Key, KeyV, Kind, Runtime, Scalar, Singular, Val, ValV};
use crate::double::Double;
use crate::strings::same_text;
use vstd::prelude::*;

verus! {

/// Where a field is kept: `T` is the runtime's own.
#[derive(Debug)]
pub struct FieldInfo<T> {
    pub number: u32,
    pub place: T,
}

/// Where a message class keeps its fields.
#[derive(Debug)]
pub struct TypeInfo<T> {
    fields: Vec<FieldInfo<T>>,
}

/// Whether fields are in the order of their numbers.
pub open spec fn by_number<T>(fields: Seq<FieldInfo<T>>) -> bool {
    forall|i: int, j: int|
        0 <= i <= j < fields.len() ==> (#[trigger] fields[i]).number <= (
        #[trigger] fields[j]).number
}

/// How many fields at the front have numbers up to `number`.
pub open spec fn end_of<T>(fields: Seq<FieldInfo<T>>, number: u32) -> nat
    decreases fields.len(),
{
    if fields.len() == 0 {
        0
    } else if fields.last().number <= number {
        fields.len()
    } else {
        end_of(fields.drop_last(), number)
    }
}

/// The first `n` fields in the order of their numbers; those of one number
/// stay in the order they came in.
pub open spec fn sorted<T>(fields: Seq<FieldInfo<T>>, n: nat) -> Seq<FieldInfo<T>>
    decreases n,
{
    if n == 0 {
        Seq::empty()
    } else {
        let earlier = sorted(fields, (n - 1) as nat);
        let field = fields[n - 1];
        earlier.insert(end_of(earlier, field.number) as int, field)
    }
}

/// Where a field of a number goes, fields in order stay in order.
proof fn lemma_end<T>(fields: Seq<FieldInfo<T>>, number: u32)
    requires
        by_number(fields),
    ensures
        end_of(fields, number) <= fields.len(),
        forall|i: int|
            0 <= i < end_of(fields, number) ==> (#[trigger] fields[i]).number <= number,
        forall|i: int|
            end_of(fields, number) <= i < fields.len() ==> (#[trigger] fields[i]).number > number,
    decreases fields.len(),
{
    if fields.len() > 0 {
        let front = fields.drop_last();
        assert forall|i: int, j: int| 0 <= i <= j < front.len() implies (
        #[trigger] front[i]).number <= (#[trigger] front[j]).number by {
            assert(front[i] == fields[i] && front[j] == fields[j]);
        }
        lemma_end(front, number);
        if fields.last().number <= number {
            assert forall|i: int| 0 <= i < fields.len() implies (
            #[trigger] fields[i]).number <= number by {
                assert(fields[i].number <= fields[fields.len() - 1].number);
            }
        } else {
            assert forall|i: int| 0 <= i < end_of(front, number) implies (
            #[trigger] fields[i]).number <= number by {
                assert(front[i] == fields[i]);
            }
            assert forall|i: int| end_of(front, number) <= i < fields.len() implies (
            #[trigger] fields[i]).number > number by {
                if i < front.len() {
                    assert(front[i] == fields[i]);
                }
            }
        }
    }
}

/// Sorted fields are in the order of their numbers, and are the fields there
/// were.
pub proof fn law_sorted_fields_are_by_number<T>(fields: Seq<FieldInfo<T>>, n: nat)
    requires
        n <= fields.len(),
    ensures
        by_number(sorted(fields, n)),
        sorted(fields, n).to_multiset() == fields.take(n as int).to_multiset(),
    decreases n,
{
    broadcast use vstd::seq_lib::group_to_multiset_ensures;

    if n == 0 {
        assert(fields.take(0) =~= Seq::empty());
    } else {
        let earlier = sorted(fields, (n - 1) as nat);
        let field = fields[n - 1];
        law_sorted_fields_are_by_number(fields, (n - 1) as nat);
        lemma_end(earlier, field.number);
        let at = end_of(earlier, field.number) as int;
        let all = earlier.insert(at, field);
        assert forall|i: int, j: int| 0 <= i <= j < all.len() implies (
        #[trigger] all[i]).number <= (#[trigger] all[j]).number by {
            let x = if i < at { i } else { i - 1 };
            let y = if j < at { j } else { j - 1 };
            assert(i == at || all[i] == earlier[x]);
            assert(j == at || all[j] == earlier[y]);
        }
        assert(fields.take(n as int) =~= fields.take(n - 1).push(field));
        assert(all.to_multiset() =~= earlier.to_multiset().insert(field));
    }
}

/// The place of a field behind those of its number and below.
fn find_end<T>(fields: &Vec<FieldInfo<T>>, number: u32) -> (r: usize)
    ensures
        r == end_of(fields@, number),
        r <= fields@.len(),
{
    let mut n: usize = fields.len();
    assert(fields@.take(n as int) =~= fields@);
    while n > 0
        invariant
            n <= fields@.len(),
            end_of(fields@, number) == end_of(fields@.take(n as int), number),
        decreases n,
    {
        assert(fields@.take(n as int).last() == fields@[n - 1]);
        assert(fields@.take(n as int).drop_last() =~= fields@.take(n - 1));
        if fields[n - 1].number <= number {
            return n;
        }
        n -= 1;
    }
    0
}

impl<T> TypeInfo<T> {
    /// Fields are kept in the order of their numbers.
    #[verifier::type_invariant]
    spec fn ordered(self) -> bool {
        by_number(self.fields@)
    }

    /// The fields, in the order of their numbers.
    pub closed spec fn fields(self) -> Seq<FieldInfo<T>> {
        self.fields@
    }

    /// Where a message class keeps its fields.
    pub fn build(fields: Vec<FieldInfo<T>>) -> (r: TypeInfo<T>)
        ensures
            r.fields() == sorted(fields@, fields@.len()),
            by_number(r.fields()),
    {
        let mut left = fields;
        let mut ordered: Vec<FieldInfo<T>> = Vec::new();
        let ghost mut i = 0int;
        while left.len() > 0
            invariant
                0 <= i <= fields@.len(),
                left@ =~= fields@.skip(i),
                ordered@ == sorted(fields@, i as nat),
            decreases left@.len(),
        {
            let field = left.remove(0);
            assert(field == fields@[i]);
            let at: usize = find_end(&ordered, field.number);
            ordered.insert(at, field);
            proof {
                i = i + 1;
            }
        }
        proof {
            law_sorted_fields_are_by_number(fields@, fields@.len());
        }
        TypeInfo { fields: ordered }
    }

    /// How many fields there are.
    pub fn len(&self) -> (r: usize)
        ensures
            r == self.fields().len(),
    {
        self.fields.len()
    }

    /// The field of a number, and its place.
    pub fn find(&self, number: u32) -> (r: Option<(usize, &FieldInfo<T>)>)
        ensures
            match r {
                Some((slot, field)) => slot < self.fields().len() && self.fields()[slot as int]
                    == *field && field.number == number,
                None => forall|i: int|
                    0 <= i < self.fields().len() ==> (#[trigger] self.fields()[i]).number
                        != number,
            },
    {
        proof {
            use_type_invariant(self);
        }
        let mut low: usize = 0;
        let mut high: usize = self.fields.len();
        while low < high
            invariant
                low <= high <= self.fields@.len(),
                by_number(self.fields@),
                forall|i: int| 0 <= i < low ==> (#[trigger] self.fields@[i]).number < number,
                forall|i: int|
                    high <= i < self.fields@.len() ==> (#[trigger] self.fields@[i]).number
                        > number,
            decreases high - low,
        {
            let middle: usize = low + (high - low) / 2;
            let found: u32 = self.fields[middle].number;
            if found == number {
                return Some((middle, &self.fields[middle]));
            }
            if found < number {
                low = middle + 1;
            } else {
                high = middle;
            }
        }
        None
    }
}

/// Where the value of a field is to be read from.
#[derive(Debug)]
pub enum Located<'a, T> {
    /// The message is not there, and reads as one with nothing set: every
    /// field reads as its default.
    Default,
    /// The message has no such field.
    Absent,
    /// The field is kept there; its place among the fields comes with it.
    Kept(usize, &'a FieldInfo<T>),
}

/// Where the value of the field of a number is to be read from, in a message
/// whose class keeps its fields as `info` says; none for a message that is
/// not there.
pub fn locate<'a, T>(info: Option<&'a TypeInfo<T>>, number: u32) -> (r: Located<'a, T>)
    ensures
        match (info, r) {
            (None, Located::Default) => true,
            (Some(info), Located::Absent) => forall|i: int|
                0 <= i < info.fields().len() ==> (#[trigger] info.fields()[i]).number != number,
            (Some(info), Located::Kept(slot, field)) => slot < info.fields().len()
                && info.fields()[slot as int] == *field && field.number == number,
            _ => false,
        },
{
    match info {
        None => Located::Default,
        Some(info) => match info.find(number) {
            Some((slot, field)) => Located::Kept(slot, field),
            None => Located::Absent,
        },
    }
}

/// Whether a oneof that has `selected` a field, by its name, has selected the
/// one named `name`.
pub fn selects(selected: Option<&str>, name: &str) -> (r: bool)
    ensures
        r == (selected matches Some(field) && field@ == name@),
{
    match selected {
        Some(field) => same_text(field, name),
        None => false,
    }
}

/// What reads as the value of a scalar that is not set.
pub open spec fn default_of<E>(scalar: Scalar) -> ValV<E> {
    match scalar {
        Scalar::Bool => ValV::Bool(false),
        Scalar::Int32
        | Scalar::Int64
        | Scalar::Sint32
        | Scalar::Sint64
        | Scalar::Sfixed32
        | Scalar::Sfixed64 => ValV::Int(0),
        Scalar::Uint32 | Scalar::Uint64 | Scalar::Fixed32 | Scalar::Fixed64 => ValV::Uint(0),
        Scalar::Float | Scalar::Double => ValV::Double(Double { bits: 0 }),
        Scalar::String => ValV::String(Seq::empty()),
        Scalar::Bytes => ValV::Bytes(Seq::empty()),
    }
}

/// What reads as the value of a scalar that is not set.
pub fn default<R: Runtime>(scalar: Scalar) -> (r: Val<R>)
    ensures
        super::val::<R>(r) == default_of::<R::Error>(scalar),
{
    match scalar {
        Scalar::Bool => Val::Bool(false),
        Scalar::Int32
        | Scalar::Int64
        | Scalar::Sint32
        | Scalar::Sint64
        | Scalar::Sfixed32
        | Scalar::Sfixed64 => Val::Int(0),
        Scalar::Uint32 | Scalar::Uint64 | Scalar::Fixed32 | Scalar::Fixed64 => Val::Uint(0),
        Scalar::Float | Scalar::Double => Val::Double(Double { bits: 0 }),
        Scalar::String => {
            proof {
                reveal_strlit("");
                assert(""@ =~= Seq::<char>::empty());
            }
            Val::String("".to_owned())
        },
        Scalar::Bytes => Val::Bytes(Vec::new()),
    }
}

/// A value as a map key; other than a key type, which the validator's
/// descriptors reject, it is 0.
pub open spec fn key_of<E>(value: ValV<E>) -> KeyV {
    match value {
        ValV::Bool(b) => KeyV::Bool(b),
        ValV::Int(i) => KeyV::Int(i),
        ValV::Uint(u) => KeyV::Uint(u),
        ValV::String(s) => KeyV::String(s),
        _ => KeyV::Int(0),
    }
}

/// A value as a map key.
pub fn key<R: Runtime>(value: Val<R>) -> (r: Key)
    ensures
        r@ == key_of(super::val::<R>(value)),
{
    proof {
        shapes::<R>();
    }
    match value {
        Val::Bool(b) => Key::Bool(b),
        Val::Int(i) => Key::Int(i),
        Val::Uint(u) => Key::Uint(u),
        Val::String(s) => Key::String(s),
        // Not valid map key types; the validator's descriptors reject them.
        _ => Key::Int(0),
    }
}

/// How a scalar is read: 32-bit integers as 64-bit ones, floats as doubles.
#[derive(Clone, Copy, Debug, PartialEq, Eq, Structural)]
pub enum Widened {
    Bool,
    Int,
    Uint,
    Double,
    String,
    Bytes,
}

/// How a scalar is read.
pub open spec fn widened(scalar: Scalar) -> Widened {
    match scalar {
        Scalar::Bool => Widened::Bool,
        Scalar::Int32
        | Scalar::Int64
        | Scalar::Sint32
        | Scalar::Sint64
        | Scalar::Sfixed32
        | Scalar::Sfixed64 => Widened::Int,
        Scalar::Uint32 | Scalar::Uint64 | Scalar::Fixed32 | Scalar::Fixed64 => Widened::Uint,
        Scalar::Float | Scalar::Double => Widened::Double,
        Scalar::String => Widened::String,
        Scalar::Bytes => Widened::Bytes,
    }
}

/// How a scalar is read.
pub fn widen(scalar: Scalar) -> (r: Widened)
    ensures
        r == widened(scalar),
{
    match scalar {
        Scalar::Bool => Widened::Bool,
        Scalar::Int32
        | Scalar::Int64
        | Scalar::Sint32
        | Scalar::Sint64
        | Scalar::Sfixed32
        | Scalar::Sfixed64 => Widened::Int,
        Scalar::Uint32 | Scalar::Uint64 | Scalar::Fixed32 | Scalar::Fixed64 => Widened::Uint,
        Scalar::Float | Scalar::Double => Widened::Double,
        Scalar::String => Widened::String,
        Scalar::Bytes => Widened::Bytes,
    }
}

/// What says whether a field that tracks presence is set.
#[derive(Clone, Copy, Debug, PartialEq, Eq, Structural)]
pub enum PresenceSource {
    /// The message is asked by the field's name.
    Message,
    /// The field is set when it has a value: a oneof member when the oneof
    /// selects it, a message when it is there.
    Value,
    /// The message keeps the numbers of the fields that are set.
    Numbers,
}

/// What says whether a field that tracks presence is set, in a runtime that
/// `tracks` presence itself or not, for a field kept `in_oneof` or not.
pub open spec fn presence_source_of(tracks: bool, in_oneof: bool, kind: Kind) -> PresenceSource {
    if tracks {
        PresenceSource::Message
    } else if in_oneof || kind == Kind::Singular(Singular::Message) {
        PresenceSource::Value
    } else {
        PresenceSource::Numbers
    }
}

/// What says whether a field that tracks presence is set, in a runtime that
/// `tracks` presence itself or not, for a field kept `in_oneof` or not.
pub fn presence_source(tracks: bool, in_oneof: bool, kind: Kind) -> (r: PresenceSource)
    ensures
        r == presence_source_of(tracks, in_oneof, kind),
{
    if tracks {
        return PresenceSource::Message;
    }
    if in_oneof {
        return PresenceSource::Value;
    }
    match kind {
        Kind::Singular(Singular::Message) => PresenceSource::Value,
        _ => PresenceSource::Numbers,
    }
}

/// The default of a scalar type is of the kind that its values are widened
/// to, and is the zero of it.
pub proof fn law_defaults_are_zero<E>(scalar: Scalar)
    ensures
        widened(scalar) is Bool <==> default_of::<E>(scalar) == ValV::<E>::Bool(false),
        widened(scalar) is Int <==> default_of::<E>(scalar) == ValV::<E>::Int(0),
        widened(scalar) is Uint <==> default_of::<E>(scalar) == ValV::<E>::Uint(0),
        widened(scalar) is Double <==> default_of::<E>(scalar) == ValV::<E>::Double(
            Double { bits: 0 },
        ),
        widened(scalar) is String <==> default_of::<E>(scalar) == ValV::<E>::String(Seq::empty()),
        widened(scalar) is Bytes <==> default_of::<E>(scalar) == ValV::<E>::Bytes(Seq::empty()),
{
}

/// Scalars are widened by their kind: signed numbers to signed ones, unsigned
/// to unsigned, and so on.
pub proof fn law_scalars_are_widened_by_kind(scalar: Scalar)
    ensures
        widened(scalar) is Int <==> scalar is Int32 || scalar is Int64 || scalar is Sint32
            || scalar is Sint64 || scalar is Sfixed32 || scalar is Sfixed64,
        widened(scalar) is Uint <==> scalar is Uint32 || scalar is Uint64 || scalar is Fixed32
            || scalar is Fixed64,
        widened(scalar) is Double <==> scalar is Float || scalar is Double,
        widened(scalar) is Bool <==> scalar is Bool,
        widened(scalar) is String <==> scalar is String,
        widened(scalar) is Bytes <==> scalar is Bytes,
{
}

/// A map key is the value that was read for it: the value can be read back
/// from the key, and values that differ are different keys.
pub proof fn law_keys_are_their_values<E>(a: ValV<E>, b: ValV<E>)
    requires
        a is Bool || a is Int || a is Uint || a is String,
        b is Bool || b is Int || b is Uint || b is String,
    ensures
        a matches ValV::Bool(x) ==> key_of(a) == KeyV::Bool(x),
        a matches ValV::Int(x) ==> key_of(a) == KeyV::Int(x),
        a matches ValV::Uint(x) ==> key_of(a) == KeyV::Uint(x),
        a matches ValV::String(x) ==> key_of(a) == KeyV::String(x),
        key_of(a) == key_of(b) ==> a == b,
{
}

/// Where presence is read from: the message, for a field that tracks it there;
/// otherwise the value, for members of a oneof and for messages; and for the
/// rest the numbers of the fields that are set.
pub proof fn law_presence_has_one_source(tracks: bool, in_oneof: bool, kind: Kind)
    ensures
        presence_source_of(tracks, in_oneof, kind) is Message <==> tracks,
        presence_source_of(tracks, in_oneof, kind) is Value <==> !tracks && (in_oneof || kind
            == Kind::Singular(Singular::Message)),
        presence_source_of(tracks, in_oneof, kind) is Numbers <==> !tracks && !in_oneof && kind
            != Kind::Singular(Singular::Message),
{
}

} // verus!
