//! The standard rules, evaluated natively.
//!
//! `validate.proto` defines every standard rule as a CEL expression over
//! `this` and `rules`, with a message built from the rule's value. A
//! [`Check`] is one such expression compiled ahead of time: the rules
//! message is known when the field's rules are built, so the message is
//! formatted then and only the [`Test`] against the value remains. Checks
//! report the same rule ids, messages and rule paths the CEL expressions
//! do, and run in the same order.

use crate::descriptors::{
    field_mask_paths, nanos, nanos_field, paths_field, seconds, seconds_field,
};
use crate::double::Double;
use crate::error::{Error, ErrorV};
use crate::protobuf::reads::{
    fallible, field_of, get_field, item_of, len_of, list_item, list_len, map_len, size_of,
};
use crate::protobuf::{
    list_of, optional, optional_ref, shapes, val, Entries, List, Message, Runtime, Val, ValV,
};
use crate::text::texts;
use crate::validate::{path_of, FieldPathElement, FieldPathElementV};
use order::{now_broken_by, Cmp, CmpV, Duration, NowTest, Timestamp};
use values::{
    duplicated, has_duplicates, keys_of, unique_key, value_key, BytesTest, BytesTestV,
    FieldMaskTest, FieldMaskTestV, ListTest, MapTest, StrTest, StrTestV, UniqueKey, UniqueKeyV,
};
use vstd::prelude::*;
use wellknown::Formats;

pub mod build;
pub mod laws;
pub mod order;
pub mod pattern;
pub mod values;
pub mod wellknown;

verus! {

/// One standard rule against one value.
pub struct Check {
    /// The rule id, `int32.gt_lt` say.
    pub id: String,
    pub message: String,
    /// The rule path, leaf first: `[Int32Rules.gt, FieldRules.int32]`.
    pub rule_path: Vec<FieldPathElement>,
    pub test: Test,
}

/// What a [`Check`] holds.
pub struct CheckV {
    pub id: Seq<char>,
    pub message: Seq<char>,
    pub rule_path: Seq<FieldPathElementV>,
    pub test: TestV,
}

impl View for Check {
    type V = CheckV;

    open spec fn view(&self) -> CheckV {
        CheckV {
            id: self.id@,
            message: self.message@,
            rule_path: path_of(self.rule_path@),
            test: self.test@,
        }
    }
}

/// What the checks hold.
pub open spec fn checks_of(checks: Seq<Check>) -> Seq<CheckV> {
    checks.map_values(|c: Check| c@)
}

/// What a check tests the value for.
pub enum Test {
    Int(Cmp<i64>),
    Uint(Cmp<u64>),
    Double(Cmp<Double>),
    /// `float.finite` and `double.finite`.
    Finite,
    /// `bool.const`.
    Bool(bool),
    Str(StrTest),
    Bytes(BytesTest),
    List(ListTest),
    Mapping(MapTest),
    Duration(Cmp<Duration>),
    Timestamp(Cmp<Timestamp>),
    Now(NowTest),
    FieldMask(FieldMaskTest),
}

/// What a [`Test`] holds.
pub enum TestV {
    Int(CmpV<i64>),
    Uint(CmpV<u64>),
    Double(CmpV<Double>),
    Finite,
    Bool(bool),
    Str(StrTestV),
    Bytes(BytesTestV),
    List(ListTest),
    Mapping(MapTest),
    Duration(CmpV<Duration>),
    Timestamp(CmpV<Timestamp>),
    Now(NowTest),
    FieldMask(FieldMaskTestV),
}

impl View for Test {
    type V = TestV;

    open spec fn view(&self) -> TestV {
        match *self {
            Test::Int(rule) => TestV::Int(rule@),
            Test::Uint(rule) => TestV::Uint(rule@),
            Test::Double(rule) => TestV::Double(rule@),
            Test::Finite => TestV::Finite,
            Test::Bool(c) => TestV::Bool(c),
            Test::Str(test) => TestV::Str(test@),
            Test::Bytes(test) => TestV::Bytes(test@),
            Test::List(test) => TestV::List(test),
            Test::Mapping(test) => TestV::Mapping(test),
            Test::Duration(rule) => TestV::Duration(rule@),
            Test::Timestamp(rule) => TestV::Timestamp(rule@),
            Test::Now(test) => TestV::Now(test),
            Test::FieldMask(test) => TestV::FieldMask(test@),
        }
    }
}

/// What values behind a vector hold.
pub open spec fn vals_of<R: Runtime>(values: Seq<Val<R>>) -> Seq<ValV<R::Error>> {
    values.map_values(|v: Val<R>| val::<R>(v))
}

/// What reading the elements of a list gives.
pub open spec fn fallible_vals<R: Runtime>(r: Result<Vec<Val<R>>, Error<R::Error>>) -> Result<
    Seq<ValV<R::Error>>,
    ErrorV<R::Error>,
> {
    match r {
        Ok(v) => Ok(vals_of::<R>(v@)),
        Err(e) => Err(e@),
    }
}

/// The elements that the first `n` reads of a list give, in order, or the
/// first failure among them.
pub open spec fn elements<E>(l: ValV<E>, n: nat) -> Result<Seq<ValV<E>>, ErrorV<E>>
    decreases n,
{
    if n == 0 {
        Ok(Seq::empty())
    } else {
        match elements(l, (n - 1) as nat) {
            Err(e) => Err(e),
            Ok(earlier) => match item_of(l, n - 1) {
                Err(e) => Err(e),
                Ok(None) => Ok(earlier),
                Ok(Some(v)) => Ok(earlier.push(v)),
            },
        }
    }
}

/// The elements of a list, or why they cannot be read.
pub open spec fn all_elements<E>(l: ValV<E>) -> Result<Seq<ValV<E>>, ErrorV<E>> {
    match len_of(l) {
        Err(e) => Err(e),
        Ok(n) => elements(l, n as nat),
    }
}

/// A failure among the first reads is the failure of all.
proof fn lemma_elements_failure<E>(l: ValV<E>, i: nat, n: nat)
    requires
        i <= n,
        elements(l, i) is Err,
    ensures
        elements(l, n) == elements(l, i),
    decreases n,
{
    if i < n {
        lemma_elements_failure(l, i, (n - 1) as nat);
    }
}

/// Reads the elements of a list.
fn list_elements<R: Runtime>(list: &R::List) -> (r: Result<Vec<Val<R>>, Error<R::Error>>) where
    R::List: List<R>,

    ensures
        fallible_vals::<R>(r) == all_elements(list_of::<R>(*list)),
{
    let ghost l = list_of::<R>(*list);
    let size: usize = match list_len::<R>(list) {
        Ok(size) => size,
        Err(error) => return Err(error),
    };
    let mut items: Vec<Val<R>> = Vec::new();
    assert(vals_of::<R>(items@) =~= Seq::empty());
    let mut i: usize = 0;
    while i < size
        invariant
            i <= size,
            l == list_of::<R>(*list),
            len_of(l) == Ok::<usize, ErrorV<R::Error>>(size),
            elements(l, i as nat) == Ok::<Seq<ValV<R::Error>>, ErrorV<R::Error>>(
                vals_of::<R>(items@),
            ),
        decreases size - i,
    {
        let ghost before = items@;
        match list_item::<R>(list, i) {
            Ok(Some(item)) => {
                items.push(item);
                assert(vals_of::<R>(items@) =~= vals_of::<R>(before).push(val::<R>(item)));
            },
            Ok(None) => {},
            Err(error) => {
                proof {
                    lemma_elements_failure(l, (i + 1) as nat, size as nat);
                }
                return Err(error);
            },
        }
        i += 1;
    }
    Ok(items)
}

/// The keys of values.
pub open spec fn value_keys<E>(values: Seq<ValV<E>>) -> Seq<Option<UniqueKeyV>> {
    values.map_values(|v: ValV<E>| value_key(v))
}

/// Whether a list has an element twice.
pub open spec fn repeats<E>(l: ValV<E>) -> Result<bool, ErrorV<E>> {
    match all_elements(l) {
        Err(e) => Err(e),
        Ok(items) => Ok(duplicated(value_keys(items))),
    }
}

/// Whether a list has an element twice.
fn list_has_duplicates<R: Runtime>(list: &R::List) -> (r: Result<bool, Error<R::Error>>) where
    R::List: List<R>,

    ensures
        fallible(r) == repeats(list_of::<R>(*list)),
{
    let items = match list_elements::<R>(list) {
        Ok(items) => items,
        Err(error) => return Err(error),
    };
    let mut keys: Vec<Option<UniqueKey<'_>>> = Vec::new();
    let mut i: usize = 0;
    while i < items.len()
        invariant
            i <= items@.len(),
            keys_of(keys@) =~= value_keys(vals_of::<R>(items@)).take(i as int),
        decreases items@.len() - i,
    {
        let ghost before = keys@;
        let key = unique_key::<R>(&items[i]);
        keys.push(key);
        assert(keys_of(keys@) =~= keys_of(before).push(values::key_of(key)));
        i += 1;
    }
    assert(keys_of(keys@) =~= value_keys(vals_of::<R>(items@)));
    Ok(has_duplicates(&keys))
}

/// The integer that a field of a duration or timestamp reads as.
pub open spec fn int_or_zero<E>(value: Option<ValV<E>>) -> int {
    match value {
        Some(ValV::Int(i)) => i as int,
        _ => 0,
    }
}

/// The seconds and nanos of a `Duration` or `Timestamp` message, as one
/// count of nanoseconds; zero for a message that is not there.
pub open spec fn nanoseconds<E>(value: Option<ValV<E>>) -> Result<int, ErrorV<E>> {
    match value {
        Some(m) => if m is Message {
            match field_of(m, seconds_field()) {
                Err(e) => Err(e),
                Ok(s) => match field_of(m, nanos_field()) {
                    Err(e) => Err(e),
                    Ok(n) => Ok(int_or_zero(s) * 1_000_000_000 + int_or_zero(n)),
                },
            }
        } else {
            Ok(0int)
        },
        None => Ok(0int),
    }
}

/// What a computation of an integer gives.
pub open spec fn fallible_int<E>(r: Result<i128, Error<E>>) -> Result<int, ErrorV<E>> {
    match r {
        Ok(v) => Ok(v as int),
        Err(e) => Err(e@),
    }
}

/// The integer that a field of a duration or timestamp reads as.
fn int_of<R: Runtime>(value: &Option<Val<R>>) -> (r: i64)
    ensures
        r == int_or_zero(optional::<R>(*value)),
{
    proof {
        shapes::<R>();
    }
    match value {
        Some(Val::Int(i)) => *i,
        _ => 0,
    }
}

/// The seconds and nanos of a `Duration` or `Timestamp` message, as one
/// count of nanoseconds; zero for a message that is not there.
fn nanos_of<R: Runtime>(value: Option<&Val<R>>) -> (r: Result<i128, Error<R::Error>>) where
    R::Message: Message<R>,

    ensures
        fallible_int(r) == nanoseconds(optional_ref::<R>(value)),
{
    proof {
        shapes::<R>();
    }
    match value {
        Some(Val::Message(message)) => {
            let whole: i64 = match get_field::<R>(message, &seconds()) {
                Ok(v) => int_of::<R>(&v),
                Err(error) => return Err(error),
            };
            let rest: i64 = match get_field::<R>(message, &nanos()) {
                Ok(v) => int_of::<R>(&v),
                Err(error) => return Err(error),
            };
            Ok(whole as i128 * 1_000_000_000 + rest as i128)
        },
        _ => Ok(0),
    }
}

/// The strings among values, in order.
pub open spec fn strings_among<E>(values: Seq<ValV<E>>) -> Seq<Seq<char>>
    decreases values.len(),
{
    if values.len() == 0 {
        Seq::empty()
    } else {
        match values.last() {
            ValV::String(s) => strings_among(values.drop_last()).push(s),
            _ => strings_among(values.drop_last()),
        }
    }
}

/// The `paths` of a `FieldMask` message.
pub open spec fn mask_paths<E>(value: Option<ValV<E>>) -> Result<Seq<Seq<char>>, ErrorV<E>> {
    match value {
        Some(m) => if m is Message {
            match field_of(m, paths_field()) {
                Err(e) => Err(e),
                Ok(Some(l)) => if l is List {
                    match all_elements(l) {
                        Err(e) => Err(e),
                        Ok(items) => Ok(strings_among(items)),
                    }
                } else {
                    Ok(Seq::empty())
                },
                Ok(None) => Ok(Seq::empty()),
            }
        } else {
            Ok(Seq::empty())
        },
        None => Ok(Seq::empty()),
    }
}

/// What a computation of strings gives.
pub open spec fn fallible_texts<E>(r: Result<Vec<String>, Error<E>>) -> Result<
    Seq<Seq<char>>,
    ErrorV<E>,
> {
    match r {
        Ok(v) => Ok(texts(v@)),
        Err(e) => Err(e@),
    }
}

/// The `paths` of a `FieldMask` message.
fn paths_of<R: Runtime>(value: Option<&Val<R>>) -> (r: Result<Vec<String>, Error<R::Error>>) where
    R::Message: Message<R>,
    R::List: List<R>,

    ensures
        fallible_texts(r) == mask_paths(optional_ref::<R>(value)),
{
    proof {
        shapes::<R>();
    }
    let mut paths: Vec<String> = Vec::new();
    assert(texts(paths@) =~= Seq::empty());
    match value {
        Some(Val::Message(message)) => match get_field::<R>(message, &field_mask_paths()) {
            Ok(Some(Val::List(list))) => {
                let items = match list_elements::<R>(&list) {
                    Ok(items) => items,
                    Err(error) => return Err(error),
                };
                let ghost held = vals_of::<R>(items@);
                let mut i: usize = 0;
                while i < items.len()
                    invariant
                        i <= items@.len(),
                        held == vals_of::<R>(items@),
                        texts(paths@) == strings_among(held.take(i as int)),
                    decreases items@.len() - i,
                {
                    proof {
                        shapes::<R>();
                        assert(held.take(i + 1).drop_last() =~= held.take(i as int));
                        assert(held.take(i + 1).last() == val::<R>(items@[i as int]));
                    }
                    let ghost before = paths@;
                    match &items[i] {
                        Val::String(s) => {
                            paths.push(s.clone());
                            assert(texts(paths@) =~= texts(before).push(s@));
                        },
                        _ => {},
                    }
                    i += 1;
                }
                assert(held.take(i as int) =~= held);
                Ok(paths)
            },
            Ok(_) => Ok(paths),
            Err(error) => Err(error),
        },
        _ => Ok(paths),
    }
}

/// The double that a value reads as.
pub open spec fn double_or_zero<E>(value: Option<ValV<E>>) -> Double {
    match value {
        Some(ValV::Double(f)) => f,
        _ => Double { bits: 0 },
    }
}

/// The double that a value reads as.
fn double_of<R: Runtime>(value: Option<&Val<R>>) -> (r: Double)
    ensures
        r == double_or_zero(optional_ref::<R>(value)),
{
    proof {
        shapes::<R>();
    }
    match value {
        Some(Val::Double(f)) => *f,
        _ => Double { bits: 0 },
    }
}

/// Whether a list breaks the rule.
pub open spec fn list_broken_by<E>(test: ListTest, value: Option<ValV<E>>) -> Result<
    bool,
    ErrorV<E>,
> {
    let list = if value is Some && value->Some_0 is List {
        value
    } else {
        None
    };
    match (test, list) {
        (ListTest::MinItems(n), Some(l)) => match len_of(l) {
            Ok(len) => Ok(len < n),
            Err(e) => Err(e),
        },
        (ListTest::MaxItems(n), Some(l)) => match len_of(l) {
            Ok(len) => Ok(len > n),
            Err(e) => Err(e),
        },
        (ListTest::Unique, Some(l)) => repeats(l),
        (ListTest::MinItems(n), None) => Ok(n > 0),
        (_, None) => Ok(false),
    }
}

/// Whether a map breaks the rule.
pub open spec fn map_broken_by<E>(test: MapTest, value: Option<ValV<E>>) -> Result<
    bool,
    ErrorV<E>,
> {
    let len = if value is Some && value->Some_0 is Mapping {
        size_of(value->Some_0)
    } else {
        Ok(0usize)
    };
    match (test, len) {
        (_, Err(e)) => Err(e),
        (MapTest::MinPairs(n), Ok(len)) => Ok(len < n),
        (MapTest::MaxPairs(n), Ok(len)) => Ok(len > n),
    }
}

impl TestV {
    /// Whether a value breaks the rule, or why it could not be checked.
    /// `None` is a field the message does not have at all, which, as does a
    /// value of another type, reads as the type's default. `now` is the time
    /// of validation.
    pub open spec fn broken_by<F: Formats, E>(
        self,
        formats: F,
        now: int,
        value: Option<ValV<E>>,
    ) -> Result<bool, ErrorV<E>> {
        match self {
            TestV::Int(rule) => Ok(
                rule.broken_by(
                    match value {
                        Some(ValV::Int(i)) => i,
                        Some(ValV::Enum(e)) => e as i64,
                        _ => 0,
                    },
                ),
            ),
            TestV::Uint(rule) => Ok(
                rule.broken_by(
                    match value {
                        Some(ValV::Uint(u)) => u,
                        _ => 0,
                    },
                ),
            ),
            TestV::Double(rule) => Ok(rule.broken_by(double_or_zero(value))),
            TestV::Finite => Ok(!double_or_zero(value).spec_finite()),
            TestV::Bool(c) => Ok(
                match value {
                    Some(ValV::Bool(b)) => b != c,
                    _ => c,
                },
            ),
            TestV::Str(test) => Ok(
                test.broken_by(
                    formats,
                    match value {
                        Some(ValV::String(s)) => s,
                        _ => Seq::empty(),
                    },
                ),
            ),
            TestV::Bytes(test) => test.broken_by::<E>(
                match value {
                    Some(ValV::Bytes(b)) => b,
                    _ => Seq::empty(),
                },
            ),
            TestV::List(test) => list_broken_by(test, value),
            TestV::Mapping(test) => map_broken_by(test, value),
            TestV::Duration(rule) => match nanoseconds(value) {
                Ok(n) => Ok(rule.broken_by(Duration(n as i128))),
                Err(e) => Err(e),
            },
            TestV::Timestamp(rule) => match nanoseconds(value) {
                Ok(n) => Ok(rule.broken_by(Timestamp(n as i128))),
                Err(e) => Err(e),
            },
            TestV::Now(test) => match nanoseconds(value) {
                Ok(n) => Ok(now_broken_by(test, n, now)),
                Err(e) => Err(e),
            },
            TestV::FieldMask(test) => match mask_paths(value) {
                Ok(paths) => Ok(test.broken_by(paths)),
                Err(e) => Err(e),
            },
        }
    }
}

impl Test {
    /// Whether `value` breaks the rule, or why it could not be checked.
    /// `None` is a field the message does not have at all, which reads as
    /// the type's default. `now` is the time of validation.
    pub fn fails<R: Runtime, F: Formats>(
        &self,
        value: Option<&Val<R>>,
        formats: &F,
        now: Timestamp,
    ) -> (r: Result<bool, Error<R::Error>>) where
        R::Message: Message<R>,
        R::List: List<R>,
        R::Entries: Entries<R>,

        ensures
            fallible(r) == self@.broken_by::<F, R::Error>(
                *formats,
                now.0 as int,
                optional_ref::<R>(value),
            ),
    {
        proof {
            shapes::<R>();
        }
        match self {
            Test::Int(rule) => {
                let i: i64 = match value {
                    Some(Val::Int(i)) => *i,
                    Some(Val::Enum(e)) => *e as i64,
                    _ => 0,
                };
                Ok(rule.fails(&i))
            },
            Test::Uint(rule) => {
                let u: u64 = match value {
                    Some(Val::Uint(u)) => *u,
                    _ => 0,
                };
                Ok(rule.fails(&u))
            },
            Test::Double(rule) => Ok(rule.fails(&double_of::<R>(value))),
            Test::Finite => Ok(!double_of::<R>(value).is_finite()),
            Test::Bool(c) => Ok(
                match value {
                    Some(Val::Bool(b)) => *b != *c,
                    _ => *c,
                },
            ),
            Test::Str(test) => match value {
                Some(Val::String(s)) => Ok(test.fails(s.as_str(), formats)),
                _ => {
                    proof {
                        reveal_strlit("");
                    }
                    assert(""@ =~= Seq::<char>::empty());
                    Ok(test.fails("", formats))
                },
            },
            Test::Bytes(test) => match value {
                Some(Val::Bytes(b)) => test.fails(b.as_slice()),
                _ => {
                    let none: Vec<u8> = Vec::new();
                    test.fails(none.as_slice())
                },
            },
            Test::List(test) => match value {
                Some(Val::List(list)) => match test {
                    ListTest::MinItems(n) => match list_len::<R>(list) {
                        Ok(len) => Ok((len as u64) < *n),
                        Err(error) => Err(error),
                    },
                    ListTest::MaxItems(n) => match list_len::<R>(list) {
                        Ok(len) => Ok(len as u64 > *n),
                        Err(error) => Err(error),
                    },
                    ListTest::Unique => list_has_duplicates::<R>(list),
                },
                _ => Ok(
                    match test {
                        ListTest::MinItems(n) => *n > 0,
                        _ => false,
                    },
                ),
            },
            Test::Mapping(test) => {
                let len: u64 = match value {
                    Some(Val::Mapping(map)) => match map_len::<R>(map) {
                        Ok(len) => len as u64,
                        Err(error) => return Err(error),
                    },
                    _ => 0,
                };
                Ok(
                    match test {
                        MapTest::MinPairs(n) => len < *n,
                        MapTest::MaxPairs(n) => len > *n,
                    },
                )
            },
            Test::Duration(rule) => match nanos_of::<R>(value) {
                Ok(n) => Ok(rule.fails(&Duration(n))),
                Err(error) => Err(error),
            },
            Test::Timestamp(rule) => match nanos_of::<R>(value) {
                Ok(n) => Ok(rule.fails(&Timestamp(n))),
                Err(error) => Err(error),
            },
            Test::Now(test) => match nanos_of::<R>(value) {
                Ok(n) => Ok(test.fails(Timestamp(n), now)),
                Err(error) => Err(error),
            },
            Test::FieldMask(test) => match paths_of::<R>(value) {
                Ok(paths) => Ok(test.fails(&paths)),
                Err(error) => Err(error),
            },
        }
    }
}

} // verus!
