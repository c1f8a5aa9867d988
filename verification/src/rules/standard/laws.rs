//! What the tests of the standard rules let through.

use super::order::{now_broken_by, CmpV, Duration, NowTest, Timestamp};
use super::values::{
    value_key, BytesTest, BytesTestV, FieldMaskTestV, ListTest, MapTest, StrTest, StrTestV,
    WellKnown,
};
use super::wellknown::{Format, Formats};
use super::{elements, strings_among, value_keys, TestV};
use crate::descriptors::{nanos_field, paths_field, seconds_field};
use crate::double::{Double, INFINITY, SIGN};
use crate::error::ErrorV;
use crate::protobuf::ValV;
use crate::strings::{begins, finishes, occurs, occurs_at};
use vstd::prelude::*;
use vstd::utf8::*;

verus! {

/// `string.in` and `string.not_in` are opposite and exact: `not_in` is
/// broken by a string exactly when some position of the list holds it, and
/// `in` exactly when none does.
pub proof fn law_string_lists_are_exact<F: Formats>(
    formats: F,
    list: Seq<Seq<char>>,
    s: Seq<char>,
)
    ensures
        StrTestV::NotIn(list).broken_by(formats, s) <==> exists|i: int|
            0 <= i < list.len() && #[trigger] list[i] == s,
        StrTestV::In(list).broken_by(formats, s) <==> forall|i: int|
            0 <= i < list.len() ==> #[trigger] list[i] != s,
{
}

/// The same of the lists that checks hold.
pub proof fn law_held_string_lists_are_exact<F: Formats>(
    formats: F,
    list: Vec<String>,
    s: Seq<char>,
)
    ensures
        StrTest::NotIn(list)@.broken_by(formats, s) <==> exists|i: int|
            0 <= i < list@.len() && (#[trigger] list@[i])@ == s,
        StrTest::In(list)@.broken_by(formats, s) <==> forall|i: int|
            0 <= i < list@.len() ==> (#[trigger] list@[i])@ != s,
{
    let held = crate::text::texts(list@);
    law_string_lists_are_exact(formats, held, s);
    assert forall|i: int| 0 <= i < list@.len() implies held[i] == (#[trigger] list@[i])@ by {}
    if exists|i: int| 0 <= i < held.len() && #[trigger] held[i] == s {
        let i = choose|i: int| 0 <= i < held.len() && #[trigger] held[i] == s;
        assert(list@[i]@ == s);
    }
    if exists|i: int| 0 <= i < list@.len() && (#[trigger] list@[i])@ == s {
        let i = choose|i: int| 0 <= i < list@.len() && (#[trigger] list@[i])@ == s;
        assert(held[i] == s);
    }
}

/// `bytes.in` and `bytes.not_in` are opposite and exact, as those of strings
/// are.
pub proof fn law_bytes_lists_are_exact<E>(list: Seq<Seq<u8>>, b: Seq<u8>)
    ensures
        BytesTestV::NotIn(list).broken_by::<E>(b) == Ok::<bool, ErrorV<E>>(
            exists|i: int| 0 <= i < list.len() && #[trigger] list[i] == b,
        ),
        BytesTestV::In(list).broken_by::<E>(b) == Ok::<bool, ErrorV<E>>(
            forall|i: int| 0 <= i < list.len() ==> #[trigger] list[i] != b,
        ),
{
}

/// The same of the lists that checks hold.
pub proof fn law_held_bytes_lists_are_exact<E>(list: Vec<Vec<u8>>, b: Seq<u8>)
    ensures
        BytesTest::NotIn(list)@.broken_by::<E>(b) == Ok::<bool, ErrorV<E>>(
            exists|i: int| 0 <= i < list@.len() && (#[trigger] list@[i])@ == b,
        ),
        BytesTest::In(list)@.broken_by::<E>(b) == Ok::<bool, ErrorV<E>>(
            forall|i: int| 0 <= i < list@.len() ==> (#[trigger] list@[i])@ != b,
        ),
{
    let held = crate::strings::byte_strings(list@);
    law_bytes_lists_are_exact::<E>(held, b);
    assert forall|i: int| 0 <= i < list@.len() implies held[i] == (#[trigger] list@[i])@ by {}
    if exists|i: int| 0 <= i < held.len() && #[trigger] held[i] == b {
        let i = choose|i: int| 0 <= i < held.len() && #[trigger] held[i] == b;
        assert(list@[i]@ == b);
    }
    if exists|i: int| 0 <= i < list@.len() && (#[trigger] list@[i])@ == b {
        let i = choose|i: int| 0 <= i < list@.len() && (#[trigger] list@[i])@ == b;
        assert(held[i] == b);
    }
}

/// A sequence begins with another exactly when it is that one with something
/// behind it, and ends with one when it has something in front.
proof fn lemma_ends<T>(s: Seq<T>, p: Seq<T>)
    ensures
        begins(s, p) <==> exists|rest: Seq<T>| s == #[trigger] (p + rest),
        finishes(s, p) <==> exists|front: Seq<T>| s == #[trigger] (front + p),
{
    if begins(s, p) {
        assert(s =~= p + s.skip(p.len() as int));
    }
    if finishes(s, p) {
        assert(s =~= s.take(s.len() - p.len()) + p);
    }
    assert forall|rest: Seq<T>| s == #[trigger] (p + rest) implies begins(s, p) by {
        assert(s.subrange(0, p.len() as int) =~= p);
    }
    assert forall|front: Seq<T>| s == #[trigger] (front + p) implies finishes(s, p) by {
        assert(s.subrange(s.len() - p.len(), s.len() as int) =~= p);
    }
}

/// A sequence occurs in another exactly when that one is it with something
/// in front and something behind.
proof fn lemma_occurs<T>(s: Seq<T>, p: Seq<T>)
    ensures
        occurs(p, s) <==> exists|front: Seq<T>, rest: Seq<T>| s == #[trigger] (front + p + rest),
{
    if occurs(p, s) {
        let i = choose|i: int| occurs_at(p, s, i);
        assert(s =~= s.take(i) + p + s.skip(i + p.len()));
    }
    assert forall|front: Seq<T>, rest: Seq<T>| s == #[trigger] (front + p + rest) implies occurs(
        p,
        s,
    ) by {
        assert(s.subrange(front.len() as int, (front.len() + p.len()) as int) =~= p);
        assert(occurs_at(p, s, front.len() as int));
    }
}

/// A string passes `prefix`, `suffix` and `contains` exactly when it is made
/// of the given part and of something behind it, in front of it or on both
/// sides; `not_contains` is the opposite of `contains`.
pub proof fn law_substring_rules<F: Formats>(formats: F, p: Seq<char>, s: Seq<char>)
    ensures
        !StrTestV::Prefix(p).broken_by(formats, s) <==> exists|rest: Seq<char>|
            s == #[trigger] (p + rest),
        !StrTestV::Suffix(p).broken_by(formats, s) <==> exists|front: Seq<char>|
            s == #[trigger] (front + p),
        !StrTestV::Contains(p).broken_by(formats, s) <==> exists|front: Seq<char>, rest: Seq<char>|
            s == #[trigger] (front + p + rest),
        StrTestV::NotContains(p).broken_by(formats, s) <==> exists|
            front: Seq<char>,
            rest: Seq<char>,
        |
            s == #[trigger] (front + p + rest),
{
    lemma_ends(s, p);
    lemma_occurs(s, p);
}

/// The same of bytes.
pub proof fn law_subsequence_rules<E>(p: Seq<u8>, b: Seq<u8>)
    ensures
        BytesTestV::Prefix(p).broken_by::<E>(b) == Ok::<bool, ErrorV<E>>(
            !exists|rest: Seq<u8>| b == #[trigger] (p + rest),
        ),
        BytesTestV::Suffix(p).broken_by::<E>(b) == Ok::<bool, ErrorV<E>>(
            !exists|front: Seq<u8>| b == #[trigger] (front + p),
        ),
        BytesTestV::Contains(p).broken_by::<E>(b) == Ok::<bool, ErrorV<E>>(
            !exists|front: Seq<u8>, rest: Seq<u8>| b == #[trigger] (front + p + rest),
        ),
{
    lemma_ends(b, p);
    lemma_occurs(b, p);
}

/// The length rules of strings: `min_len`, `max_len` and `len` let through
/// the strings of at least, at most and exactly so many characters, and
/// `min_bytes`, `max_bytes` and `len_bytes` go by the bytes of the string in
/// UTF-8 in the same way. The empty string is the one that `_empty` rules
/// break on, and `const` lets through one string alone.
pub proof fn law_string_lengths<F: Formats>(formats: F, n: u64, s: Seq<char>, c: Seq<char>)
    ensures
        StrTestV::MinLen(n).broken_by(formats, s) <==> s.len() < n,
        StrTestV::MaxLen(n).broken_by(formats, s) <==> s.len() > n,
        StrTestV::Len(n).broken_by(formats, s) <==> StrTestV::MinLen(n).broken_by(formats, s)
            || StrTestV::MaxLen(n).broken_by(formats, s),
        StrTestV::MinBytes(n).broken_by(formats, s) <==> encode_utf8(s).len() < n,
        StrTestV::MaxBytes(n).broken_by(formats, s) <==> encode_utf8(s).len() > n,
        StrTestV::LenBytes(n).broken_by(formats, s) <==> StrTestV::MinBytes(n).broken_by(formats, s)
            || StrTestV::MaxBytes(n).broken_by(formats, s),
        StrTestV::Empty.broken_by(formats, s) <==> StrTestV::MinLen(1).broken_by(formats, s),
        !StrTestV::Const(c).broken_by(formats, s) <==> s == c,
{
}

/// The length rules of bytes. An `ip` is one of the two lengths of `ipv4`
/// and `ipv6`, and a `uuid` has that of `ipv6`; no bytes at all are left to
/// the `_empty` rules.
pub proof fn law_bytes_lengths<E>(n: u64, b: Seq<u8>, c: Seq<u8>)
    ensures
        BytesTestV::MinLen(n).broken_by::<E>(b) == Ok::<bool, ErrorV<E>>(b.len() < n),
        BytesTestV::MaxLen(n).broken_by::<E>(b) == Ok::<bool, ErrorV<E>>(b.len() > n),
        BytesTestV::Len(n).broken_by::<E>(b) == Ok::<bool, ErrorV<E>>(b.len() < n || b.len() > n),
        BytesTestV::Empty.broken_by::<E>(b) == Ok::<bool, ErrorV<E>>(b == Seq::<u8>::empty()),
        BytesTestV::Const(c).broken_by::<E>(b) == Ok::<bool, ErrorV<E>>(b != c),
        b.len() == 4 ==> BytesTestV::Ipv4.broken_by::<E>(b) == Ok::<bool, ErrorV<E>>(false),
        b.len() == 16 ==> BytesTestV::Ipv6.broken_by::<E>(b) == Ok::<bool, ErrorV<E>>(false),
        b.len() != 4 && b.len() > 0 ==> BytesTestV::Ipv4.broken_by::<E>(b) == Ok::<
            bool,
            ErrorV<E>,
        >(true),
        b.len() != 16 && b.len() > 0 ==> BytesTestV::Ipv6.broken_by::<E>(b) == Ok::<
            bool,
            ErrorV<E>,
        >(true),
        BytesTestV::Uuid.broken_by::<E>(b) == BytesTestV::Ipv6.broken_by::<E>(b),
        BytesTestV::Ip.broken_by::<E>(b)->Ok_0 <==> BytesTestV::Ipv4.broken_by::<E>(b)->Ok_0
            && BytesTestV::Ipv6.broken_by::<E>(b)->Ok_0,
        BytesTestV::Ip.broken_by::<E>(b) is Ok,
        b.len() == 0 ==> BytesTestV::Ipv4.broken_by::<E>(b) == Ok::<bool, ErrorV<E>>(false)
            && BytesTestV::Ipv6.broken_by::<E>(b) == Ok::<bool, ErrorV<E>>(false),
{
    if b.len() == 0 {
        assert(b =~= Seq::<u8>::empty());
    }
}

/// A pattern rule of bytes goes by the string that the bytes spell in UTF-8,
/// as the one of strings does by the string itself, and fails on bytes that
/// spell none.
pub proof fn law_bytes_patterns_go_by_the_string<F: Formats, E>(
    formats: F,
    regex: regex::Regex,
    s: Seq<char>,
    b: Seq<u8>,
)
    ensures
        BytesTestV::Pattern(regex).broken_by::<E>(encode_utf8(s)) == Ok::<bool, ErrorV<E>>(
            StrTestV::Pattern(regex).broken_by(formats, s),
        ),
        BytesTestV::Pattern(regex).broken_by::<E>(b) is Err <==> !valid_utf8(b),
        !valid_utf8(b) ==> BytesTestV::Pattern(regex).broken_by::<E>(b) == Err::<bool, ErrorV<E>>(
            ErrorV::Evaluation("value must be valid UTF-8 to apply regexp"@),
        ),
        StrTestV::Pattern(regex).broken_by(formats, s) <==> !super::pattern::regex_matches(
            regex,
            s,
        ),
{
    encode_utf8_valid_utf8(s);
    encode_utf8_decode_utf8(s);
}

/// Whether a path is `allowed` or lies below it: the path continues it after
/// a dot.
pub open spec fn lies_under(path: Seq<char>, allowed: Seq<char>) -> bool {
    path == allowed || exists|rest: Seq<char>| path == #[trigger] (allowed.push('.') + rest)
}

/// Whether a path is one of the list or lies below one.
pub open spec fn lies_under_one(path: Seq<char>, list: Seq<Seq<char>>) -> bool {
    exists|j: int| 0 <= j < list.len() && lies_under(path, #[trigger] list[j])
}

/// A field mask passes `in` when each of its paths is a listed one or lies
/// below one, breaks `not_in` when any does, and passes `const` when it has
/// the same paths in the same order.
pub proof fn law_field_mask_rules(list: Seq<Seq<char>>, paths: Seq<Seq<char>>)
    ensures
        !FieldMaskTestV::In(list).broken_by(paths) <==> forall|i: int|
            0 <= i < paths.len() ==> lies_under_one(#[trigger] paths[i], list),
        FieldMaskTestV::NotIn(list).broken_by(paths) <==> exists|i: int|
            0 <= i < paths.len() && lies_under_one(#[trigger] paths[i], list),
        !FieldMaskTestV::Const(list).broken_by(paths) <==> paths.len() == list.len() && forall|
            i: int,
        |
            0 <= i < paths.len() ==> #[trigger] paths[i] == list[i],
{
    assert forall|path: Seq<char>, allowed: Seq<char>|
        #[trigger] super::values::under(path, allowed) <==> lies_under(path, allowed) by {
        lemma_ends(path, allowed.push('.'));
    }
    assert forall|i: int| 0 <= i < paths.len() implies (super::values::under_any(
        list,
        #[trigger] paths[i],
    ) <==> lies_under_one(paths[i], list)) by {
        if lies_under_one(paths[i], list) {
            let j = choose|j: int| 0 <= j < list.len() && lies_under(paths[i], #[trigger] list[j]);
            assert(super::values::under(paths[i], list[j]));
        }
        if super::values::under_any(list, paths[i]) {
            let j = choose|j: int|
                0 <= j < list.len() && super::values::under(paths[i], #[trigger] list[j]);
            assert(lies_under(paths[i], list[j]));
        }
    }
    if paths.len() == list.len() && forall|i: int|
        0 <= i < paths.len() ==> #[trigger] paths[i] == list[i] {
        assert(paths =~= list);
    }
}

/// A value whose elements are all there, `n` of them.
pub open spec fn whole<E>(l: ValV<E>, n: nat) -> bool {
    &&& l is List
    &&& l->len == Ok::<usize, E>(n as usize)
    &&& n <= usize::MAX
    &&& forall|i: int|
        0 <= i < n ==> (#[trigger] (l->item)(i)) is Some && !((l->item)(i)->Some_0 is Failed)
}

/// The elements of a list that are all there are read in order.
proof fn lemma_elements<E>(l: ValV<E>, n: nat, k: nat)
    requires
        whole(l, n),
        k <= n,
    ensures
        elements(l, k) == Ok::<Seq<ValV<E>>, ErrorV<E>>(
            Seq::new(k, |i: int| (l->item)(i)->Some_0),
        ),
    decreases k,
{
    if k > 0 {
        lemma_elements(l, n, (k - 1) as nat);
        assert((l->item)(k - 1) is Some);
        assert(Seq::new((k - 1) as nat, |i: int| (l->item)(i)->Some_0).push(
            (l->item)(k - 1)->Some_0,
        ) =~= Seq::new(k, |i: int| (l->item)(i)->Some_0));
    } else {
        assert(Seq::<ValV<E>>::empty() =~= Seq::new(0, |i: int| (l->item)(i)->Some_0));
    }
}

/// Whether two elements are the same: numbers by their value, where the two
/// zeros are one number and a NaN is no number at all, and the rest by what
/// they hold. Messages are never the same.
pub open spec fn same_item<E>(a: ValV<E>, b: ValV<E>) -> bool {
    match (a, b) {
        (ValV::Bool(x), ValV::Bool(y)) => x == y,
        (ValV::Int(x), ValV::Int(y)) => x == y,
        (ValV::Enum(x), ValV::Enum(y)) => x == y,
        (ValV::Int(x), ValV::Enum(y)) => x == y,
        (ValV::Enum(x), ValV::Int(y)) => x == y,
        (ValV::Uint(x), ValV::Uint(y)) => x == y,
        (ValV::Double(x), ValV::Double(y)) => !x.spec_nan() && !y.spec_nan() && x.position()
            == y.position(),
        (ValV::String(x), ValV::String(y)) => x == y,
        (ValV::Bytes(x), ValV::Bytes(y)) => x == y,
        _ => false,
    }
}

/// A list breaks `unique` exactly when two of its positions hold the same
/// element, `min_items` when it has fewer elements than that, and
/// `max_items` when it has more.
pub proof fn law_list_rules<F: Formats, E>(formats: F, now: int, l: ValV<E>, n: nat, bound: u64)
    requires
        whole(l, n),
    ensures
        TestV::List(ListTest::Unique).broken_by::<F, E>(formats, now, Some(l)) == Ok::<
            bool,
            ErrorV<E>,
        >(
            exists|i: int, j: int|
                0 <= i < j < n && same_item(
                    (#[trigger] (l->item)(i))->Some_0,
                    (#[trigger] (l->item)(j))->Some_0,
                ),
        ),
        TestV::List(ListTest::MinItems(bound)).broken_by::<F, E>(formats, now, Some(l)) == Ok::<
            bool,
            ErrorV<E>,
        >(n < bound),
        TestV::List(ListTest::MaxItems(bound)).broken_by::<F, E>(formats, now, Some(l)) == Ok::<
            bool,
            ErrorV<E>,
        >(n > bound),
{
    lemma_elements(l, n, n);
    let items = Seq::new(n, |i: int| (l->item)(i)->Some_0);
    let keys = value_keys(items);
    assert forall|i: int, j: int| 0 <= i < n && 0 <= j < n implies ((#[trigger] keys[i]) is Some
        && keys[i] == (#[trigger] keys[j]) <==> same_item(
        (l->item)(i)->Some_0,
        (l->item)(j)->Some_0,
    )) by {
        assert(keys[i] == value_key(items[i]));
        assert(keys[j] == value_key(items[j]));
    }
    if exists|i: int, j: int|
        0 <= i < j < n && same_item(
            (#[trigger] (l->item)(i))->Some_0,
            (#[trigger] (l->item)(j))->Some_0,
        ) {
        let (i, j) = choose|i: int, j: int|
            0 <= i < j < n && same_item(
                (#[trigger] (l->item)(i))->Some_0,
                (#[trigger] (l->item)(j))->Some_0,
            );
        assert(keys[i] is Some && keys[i] == keys[j]);
    }
    if super::values::duplicated(keys) {
        let (i, j) = choose|i: int, j: int|
            0 <= i < j < keys.len() && #[trigger] keys[i] is Some && keys[i] == #[trigger] keys[j];
        assert(same_item((l->item)(i)->Some_0, (l->item)(j)->Some_0));
    }
}

/// A list that is not there has no elements, and breaks `min_items` unless it
/// asks for none; it has no two elements that are the same.
pub proof fn law_missing_containers_are_empty<F: Formats, E>(formats: F, now: int, bound: u64)
    ensures
        TestV::List(ListTest::MinItems(bound)).broken_by::<F, E>(formats, now, None) == Ok::<
            bool,
            ErrorV<E>,
        >(0 < bound),
        TestV::List(ListTest::MaxItems(bound)).broken_by::<F, E>(formats, now, None) == Ok::<
            bool,
            ErrorV<E>,
        >(false),
        TestV::List(ListTest::Unique).broken_by::<F, E>(formats, now, None) == Ok::<
            bool,
            ErrorV<E>,
        >(false),
        TestV::Mapping(MapTest::MinPairs(bound)).broken_by::<F, E>(formats, now, None) == Ok::<
            bool,
            ErrorV<E>,
        >(0 < bound),
        TestV::Mapping(MapTest::MaxPairs(bound)).broken_by::<F, E>(formats, now, None) == Ok::<
            bool,
            ErrorV<E>,
        >(false),
{
}

/// A map breaks `min_pairs` when it has fewer entries than that, and
/// `max_pairs` when it has more.
pub proof fn law_map_rules<F: Formats, E>(formats: F, now: int, p: ValV<E>, n: usize, bound: u64)
    requires
        p is Mapping,
        p->size == Ok::<usize, E>(n),
    ensures
        TestV::Mapping(MapTest::MinPairs(bound)).broken_by::<F, E>(formats, now, Some(p)) == Ok::<
            bool,
            ErrorV<E>,
        >(n < bound),
        TestV::Mapping(MapTest::MaxPairs(bound)).broken_by::<F, E>(formats, now, Some(p)) == Ok::<
            bool,
            ErrorV<E>,
        >(n > bound),
{
}

/// A rule is tried on the value that the field holds: the number, text,
/// bytes or truth value in it.
pub proof fn law_tests_read_the_value<F: Formats, E>(
    formats: F,
    now: int,
    i: i64,
    e: i32,
    u: u64,
    f: Double,
    b: bool,
    c: bool,
    s: Seq<char>,
    bytes: Seq<u8>,
    ints: CmpV<i64>,
    uints: CmpV<u64>,
    doubles: CmpV<Double>,
    strings: StrTestV,
    byte_test: BytesTestV,
)
    ensures
        TestV::Int(ints).broken_by::<F, E>(formats, now, Some(ValV::Int(i))) == Ok::<
            bool,
            ErrorV<E>,
        >(ints.broken_by(i)),
        TestV::Int(ints).broken_by::<F, E>(formats, now, Some(ValV::Enum(e))) == Ok::<
            bool,
            ErrorV<E>,
        >(ints.broken_by(e as i64)),
        TestV::Uint(uints).broken_by::<F, E>(formats, now, Some(ValV::Uint(u))) == Ok::<
            bool,
            ErrorV<E>,
        >(uints.broken_by(u)),
        TestV::Double(doubles).broken_by::<F, E>(formats, now, Some(ValV::Double(f))) == Ok::<
            bool,
            ErrorV<E>,
        >(doubles.broken_by(f)),
        TestV::Bool(c).broken_by::<F, E>(formats, now, Some(ValV::Bool(b))) == Ok::<
            bool,
            ErrorV<E>,
        >(b != c),
        TestV::Str(strings).broken_by::<F, E>(formats, now, Some(ValV::String(s))) == Ok::<
            bool,
            ErrorV<E>,
        >(strings.broken_by(formats, s)),
        TestV::Bytes(byte_test).broken_by::<F, E>(formats, now, Some(ValV::Bytes(bytes)))
            == byte_test.broken_by::<E>(bytes),
{
}

/// A value that is not there is tried as the zero of its type.
pub proof fn law_missing_values_are_zero<F: Formats, E>(
    formats: F,
    now: int,
    c: bool,
    ints: CmpV<i64>,
    uints: CmpV<u64>,
    doubles: CmpV<Double>,
    strings: StrTestV,
    byte_test: BytesTestV,
)
    ensures
        TestV::Int(ints).broken_by::<F, E>(formats, now, None) == Ok::<bool, ErrorV<E>>(
            ints.broken_by(0),
        ),
        TestV::Uint(uints).broken_by::<F, E>(formats, now, None) == Ok::<bool, ErrorV<E>>(
            uints.broken_by(0),
        ),
        TestV::Double(doubles).broken_by::<F, E>(formats, now, None) == Ok::<bool, ErrorV<E>>(
            doubles.broken_by(Double { bits: 0 }),
        ),
        TestV::Finite.broken_by::<F, E>(formats, now, None) == Ok::<bool, ErrorV<E>>(false),
        TestV::Bool(c).broken_by::<F, E>(formats, now, None) == Ok::<bool, ErrorV<E>>(c),
        TestV::Str(strings).broken_by::<F, E>(formats, now, None) == Ok::<bool, ErrorV<E>>(
            strings.broken_by(formats, Seq::empty()),
        ),
        TestV::Bytes(byte_test).broken_by::<F, E>(formats, now, None) == byte_test.broken_by::<E>(
            Seq::empty(),
        ),
{
}

/// The double that the sign bit turns a double into.
pub open spec fn negated(f: Double) -> Double {
    Double { bits: if f.bits >= SIGN { (f.bits - SIGN) as u64 } else { (f.bits + SIGN) as u64 } }
}

/// How doubles stand to each other, by their bits. Numbers without the sign
/// bit go by their bits; the sign bit turns the order round and leaves zero
/// where it is. What lies above infinity is no number, and what lies below it
/// is finite, whatever the sign.
pub proof fn law_order_of_doubles(a: Double, b: Double)
    ensures
        a.bits < SIGN && b.bits < SIGN ==> (a.position() < b.position() <==> a.bits < b.bits),
        a.position() < b.position() <==> negated(b).position() < negated(a).position(),
        a.bits < SIGN && b.bits >= SIGN ==> b.position() <= a.position(),
        a.position() == negated(a).position() <==> a.bits == 0 || a.bits == SIGN,
        a.bits < SIGN ==> (a.spec_nan() <==> a.bits > INFINITY),
        a.bits < SIGN ==> (a.spec_finite() <==> a.bits < INFINITY),
        a.spec_nan() == negated(a).spec_nan(),
        a.spec_finite() == negated(a).spec_finite(),
        INFINITY == 0x7ff0_0000_0000_0000,
        SIGN == 0x8000_0000_0000_0000,
{
}

/// `finite` lets through the finite numbers alone.
pub proof fn law_finite<F: Formats, E>(formats: F, now: int, f: Double)
    ensures
        TestV::Finite.broken_by::<F, E>(formats, now, Some(ValV::Double(f))) == Ok::<
            bool,
            ErrorV<E>,
        >(f.position() >= INFINITY || f.position() <= -INFINITY),
{
}

/// The comparison rules of signed numbers.
pub proof fn law_signed_comparisons(v: i64, bound: i64, list: Seq<i64>)
    ensures
        CmpV::Const(bound).broken_by(v) <==> v != bound,
        CmpV::Lt(bound).broken_by(v) <==> v >= bound,
        CmpV::Lte(bound).broken_by(v) <==> v > bound,
        CmpV::Gt(bound).broken_by(v) <==> v <= bound,
        CmpV::Gte(bound).broken_by(v) <==> v < bound,
        CmpV::NotIn(list).broken_by(v) <==> exists|i: int|
            0 <= i < list.len() && #[trigger] list[i] == v,
        CmpV::In(list).broken_by(v) <==> forall|i: int|
            0 <= i < list.len() ==> #[trigger] list[i] != v,
{
    assert forall|i: int| 0 <= i < list.len() implies super::order::same(v, #[trigger] list[i])
        == (list[i] == v) by {}
    lemma_listed(list, v);
}

/// The comparison rules of unsigned numbers.
pub proof fn law_unsigned_comparisons(v: u64, bound: u64, list: Seq<u64>)
    ensures
        CmpV::Const(bound).broken_by(v) <==> v != bound,
        CmpV::Lt(bound).broken_by(v) <==> v >= bound,
        CmpV::Lte(bound).broken_by(v) <==> v > bound,
        CmpV::Gt(bound).broken_by(v) <==> v <= bound,
        CmpV::Gte(bound).broken_by(v) <==> v < bound,
        CmpV::NotIn(list).broken_by(v) <==> exists|i: int|
            0 <= i < list.len() && #[trigger] list[i] == v,
        CmpV::In(list).broken_by(v) <==> forall|i: int|
            0 <= i < list.len() ==> #[trigger] list[i] != v,
{
    lemma_listed(list, v);
}

/// The comparison rules of doubles: a NaN keeps within no bound, and no
/// bound that is one is passed over.
pub proof fn law_double_comparisons(v: Double, bound: Double, list: Seq<Double>)
    ensures
        v.spec_nan() ==> CmpV::Const(bound).broken_by(v) && CmpV::Lt(bound).broken_by(v)
            && CmpV::Lte(bound).broken_by(v) && CmpV::Gt(bound).broken_by(v) && CmpV::Gte(
            bound,
        ).broken_by(v),
        !v.spec_nan() && bound.spec_nan() ==> CmpV::Const(bound).broken_by(v) && !CmpV::Lt(
            bound,
        ).broken_by(v) && !CmpV::Lte(bound).broken_by(v) && !CmpV::Gt(bound).broken_by(v)
            && !CmpV::Gte(bound).broken_by(v),
        !v.spec_nan() && !bound.spec_nan() ==> {
            &&& CmpV::Const(bound).broken_by(v) <==> v.position() != bound.position()
            &&& CmpV::Lt(bound).broken_by(v) <==> v.position() >= bound.position()
            &&& CmpV::Lte(bound).broken_by(v) <==> v.position() > bound.position()
            &&& CmpV::Gt(bound).broken_by(v) <==> v.position() <= bound.position()
            &&& CmpV::Gte(bound).broken_by(v) <==> v.position() < bound.position()
        },
        CmpV::NotIn(list).broken_by(v) <==> exists|i: int|
            0 <= i < list.len() && !v.spec_nan() && !(#[trigger] list[i]).spec_nan()
                && list[i].position() == v.position(),
        CmpV::In(list).broken_by(v) <==> !CmpV::NotIn(list).broken_by(v),
{
    if exists|i: int|
        0 <= i < list.len() && !v.spec_nan() && !(#[trigger] list[i]).spec_nan()
            && list[i].position() == v.position() {
        let i = choose|i: int|
            0 <= i < list.len() && !v.spec_nan() && !(#[trigger] list[i]).spec_nan()
                && list[i].position() == v.position();
        assert(super::order::same(v, list[i]));
    }
}

/// The comparison rules of durations and timestamps, which go by their
/// nanoseconds.
pub proof fn law_moment_comparisons(v: i128, bound: i128)
    ensures
        CmpV::Const(Duration(bound)).broken_by(Duration(v)) <==> v != bound,
        CmpV::Lt(Duration(bound)).broken_by(Duration(v)) <==> v >= bound,
        CmpV::Lte(Duration(bound)).broken_by(Duration(v)) <==> v > bound,
        CmpV::Gt(Duration(bound)).broken_by(Duration(v)) <==> v <= bound,
        CmpV::Gte(Duration(bound)).broken_by(Duration(v)) <==> v < bound,
        CmpV::Const(Timestamp(bound)).broken_by(Timestamp(v)) <==> v != bound,
        CmpV::Lt(Timestamp(bound)).broken_by(Timestamp(v)) <==> v >= bound,
        CmpV::Lte(Timestamp(bound)).broken_by(Timestamp(v)) <==> v > bound,
        CmpV::Gt(Timestamp(bound)).broken_by(Timestamp(v)) <==> v <= bound,
        CmpV::Gte(Timestamp(bound)).broken_by(Timestamp(v)) <==> v < bound,
{
}

/// A number is listed exactly when a position of the list holds it.
proof fn lemma_listed<T: super::order::MaybeNan>(list: Seq<T>, v: T)
    requires
        forall|i: int|
            0 <= i < list.len() ==> super::order::same(v, #[trigger] list[i]) == (list[i] == v),
    ensures
        CmpV::NotIn(list).broken_by(v) <==> exists|i: int|
            0 <= i < list.len() && #[trigger] list[i] == v,
        CmpV::In(list).broken_by(v) <==> forall|i: int|
            0 <= i < list.len() ==> #[trigger] list[i] != v,
{
    if exists|i: int| 0 <= i < list.len() && #[trigger] list[i] == v {
        let i = choose|i: int| 0 <= i < list.len() && #[trigger] list[i] == v;
        assert(super::order::same(v, list[i]));
    }
}

/// Timestamps and the time of validation. `lt_now` and `gt_now` are broken
/// by what lies on the other side of now, and `within` by what is further
/// from now than the given duration, either way; moving both leaves what is
/// broken as it is.
pub proof fn law_now_rules(v: int, now: int, within: Duration, moved: int)
    ensures
        now_broken_by(NowTest::LtNow, v, now) <==> v > now,
        now_broken_by(NowTest::GtNow, v, now) <==> now_broken_by(NowTest::LtNow, now, v),
        now_broken_by(NowTest::Within(within), v, now) <==> v - now > within.0 || now - v
            > within.0,
        forall|test: NowTest|
            #[trigger] now_broken_by(test, v + moved, now + moved) == now_broken_by(test, v, now),
{
}

/// Whether a value is a message that holds so many seconds and nanoseconds.
pub open spec fn holds_moment<E>(m: ValV<E>, seconds: i64, nanos: i32) -> bool {
    &&& m is Message
    &&& (m->get)(seconds_field()) == Some(ValV::<E>::Int(seconds))
    &&& (m->get)(nanos_field()) == Some(ValV::<E>::Int(nanos as i64))
}

/// Durations and timestamps are ordered by their seconds, and by their
/// nanoseconds where the seconds are the same.
pub proof fn law_moments_go_by_seconds<F: Formats, E>(
    formats: F,
    now: int,
    a: ValV<E>,
    seconds: i64,
    nanos: i32,
    bound_seconds: i64,
    bound_nanos: i32,
)
    requires
        holds_moment(a, seconds, nanos),
        0 <= nanos < 1_000_000_000,
        0 <= bound_nanos < 1_000_000_000,
    ensures
        ({
            let bound = (bound_seconds * 1_000_000_000 + bound_nanos) as i128;
            let below = seconds < bound_seconds || (seconds == bound_seconds && nanos
                < bound_nanos);
            let equal = seconds == bound_seconds && nanos == bound_nanos;
            &&& TestV::Duration(CmpV::Lt(Duration(bound))).broken_by::<F, E>(formats, now, Some(a))
                == Ok::<bool, ErrorV<E>>(!below)
            &&& TestV::Duration(CmpV::Const(Duration(bound))).broken_by::<F, E>(
                formats,
                now,
                Some(a),
            ) == Ok::<bool, ErrorV<E>>(!equal)
            &&& TestV::Timestamp(CmpV::Lt(Timestamp(bound))).broken_by::<F, E>(
                formats,
                now,
                Some(a),
            ) == Ok::<bool, ErrorV<E>>(!below)
            &&& TestV::Timestamp(CmpV::Const(Timestamp(bound))).broken_by::<F, E>(
                formats,
                now,
                Some(a),
            ) == Ok::<bool, ErrorV<E>>(!equal)
        }),
{
}

/// A timestamp is held against the time of validation in nanoseconds.
pub proof fn law_timestamps_meet_the_time<F: Formats, E>(
    formats: F,
    now: int,
    m: ValV<E>,
    seconds: i64,
    nanos: i32,
    test: NowTest,
)
    requires
        holds_moment(m, seconds, nanos),
    ensures
        TestV::Now(test).broken_by::<F, E>(formats, now, Some(m)) == Ok::<bool, ErrorV<E>>(
            now_broken_by(test, seconds * 1_000_000_000 + nanos, now),
        ),
{
}

/// The strings of a list of strings are all of them, in order.
proof fn lemma_strings<E>(items: Seq<ValV<E>>, paths: Seq<Seq<char>>)
    requires
        items.len() == paths.len(),
        forall|i: int|
            0 <= i < items.len() ==> #[trigger] items[i] == ValV::<E>::String(paths[i]),
    ensures
        strings_among(items) == paths,
    decreases items.len(),
{
    if items.len() == 0 {
        assert(paths =~= Seq::empty());
    } else {
        lemma_strings(items.drop_last(), paths.drop_last());
        assert(items.last() == items[items.len() - 1]);
        assert(paths =~= paths.drop_last().push(paths.last()));
    }
}

/// A field mask is checked by its paths, all of them and in order.
pub proof fn law_masks_are_read_whole<F: Formats, E>(
    formats: F,
    now: int,
    m: ValV<E>,
    paths: Seq<Seq<char>>,
    test: FieldMaskTestV,
)
    requires
        m is Message,
        (m->get)(paths_field()) matches Some(l) && whole(l, paths.len()) && forall|i: int|
            0 <= i < paths.len() ==> (#[trigger] (l->item)(i)) == Some(
                ValV::<E>::String(paths[i]),
            ),
    ensures
        TestV::FieldMask(test).broken_by::<F, E>(formats, now, Some(m)) == Ok::<bool, ErrorV<E>>(
            test.broken_by(paths),
        ),
{
    let l = (m->get)(paths_field())->Some_0;
    let n = paths.len();
    lemma_elements(l, n, n);
    let items = Seq::new(n, |i: int| (l->item)(i)->Some_0);
    assert forall|i: int| 0 <= i < items.len() implies #[trigger] items[i] == ValV::<E>::String(
        paths[i],
    ) by {
        assert((l->item)(i) == Some(ValV::<E>::String(paths[i])));
    }
    lemma_strings(items, paths);
}

/// An empty string is left to the `_empty` rules by every well-known format
/// but those that have none, and other strings have to have the format:
/// which for `address` is that of a hostname or of an IP address.
pub proof fn law_formats_leave_the_empty_string<F: Formats>(
    formats: F,
    known: WellKnown,
    s: Seq<char>,
)
    ensures
        s.len() == 0 && !(known is UriRef) && !(known is HeaderValue)
            ==> !StrTestV::WellKnown(known).broken_by(formats, s),
        s.len() > 0 ==> (StrTestV::WellKnown(WellKnown::Address).broken_by(formats, s)
            <==> StrTestV::WellKnown(WellKnown::Hostname).broken_by(formats, s)
            && StrTestV::WellKnown(WellKnown::Ip).broken_by(formats, s)),
{
}

/// A string that is not empty passes a well-known format rule exactly when
/// the format of that name accepts it. A prefix has to be strict where the
/// rule asks for a prefix, and not where it asks for an address with a
/// prefix length; a host and port has to have a port.
pub proof fn law_formats_are_those_of_their_names<F: Formats>(
    formats: F,
    strict: bool,
    s: Seq<char>,
)
    requires
        s.len() > 0,
    ensures
        StrTestV::WellKnown(WellKnown::Email).broken_by(formats, s) <==> !formats.accepts(
            Format::Email,
            s,
        ),
        StrTestV::WellKnown(WellKnown::Hostname).broken_by(formats, s) <==> !formats.accepts(
            Format::Hostname,
            s,
        ),
        StrTestV::WellKnown(WellKnown::Ip).broken_by(formats, s) <==> !formats.accepts(
            Format::Ip,
            s,
        ),
        StrTestV::WellKnown(WellKnown::Ipv4).broken_by(formats, s) <==> !formats.accepts(
            Format::Ipv4,
            s,
        ),
        StrTestV::WellKnown(WellKnown::Ipv6).broken_by(formats, s) <==> !formats.accepts(
            Format::Ipv6,
            s,
        ),
        StrTestV::WellKnown(WellKnown::Uri).broken_by(formats, s) <==> !formats.accepts(
            Format::Uri,
            s,
        ),
        StrTestV::WellKnown(WellKnown::UriRef).broken_by(formats, s) <==> !formats.accepts(
            Format::UriRef,
            s,
        ),
        StrTestV::WellKnown(WellKnown::Uuid).broken_by(formats, s) <==> !formats.accepts(
            Format::Uuid,
            s,
        ),
        StrTestV::WellKnown(WellKnown::Tuuid).broken_by(formats, s) <==> !formats.accepts(
            Format::Tuuid,
            s,
        ),
        StrTestV::WellKnown(WellKnown::Ulid).broken_by(formats, s) <==> !formats.accepts(
            Format::Ulid,
            s,
        ),
        StrTestV::WellKnown(WellKnown::ProtobufFqn).broken_by(formats, s) <==> !formats.accepts(
            Format::ProtobufFqn,
            s,
        ),
        StrTestV::WellKnown(WellKnown::ProtobufDotFqn).broken_by(formats, s) <==> !formats.accepts(
            Format::ProtobufDotFqn,
            s,
        ),
        StrTestV::WellKnown(WellKnown::IpWithPrefixlen).broken_by(formats, s) <==> !formats.accepts(
            Format::IpPrefix { strict: false },
            s,
        ),
        StrTestV::WellKnown(WellKnown::Ipv4WithPrefixlen).broken_by(formats, s) <==> !formats.accepts(
            Format::Ipv4Prefix { strict: false },
            s,
        ),
        StrTestV::WellKnown(WellKnown::Ipv6WithPrefixlen).broken_by(formats, s) <==> !formats.accepts(
            Format::Ipv6Prefix { strict: false },
            s,
        ),
        StrTestV::WellKnown(WellKnown::IpPrefix).broken_by(formats, s) <==> !formats.accepts(
            Format::IpPrefix { strict: true },
            s,
        ),
        StrTestV::WellKnown(WellKnown::Ipv4Prefix).broken_by(formats, s) <==> !formats.accepts(
            Format::Ipv4Prefix { strict: true },
            s,
        ),
        StrTestV::WellKnown(WellKnown::Ipv6Prefix).broken_by(formats, s) <==> !formats.accepts(
            Format::Ipv6Prefix { strict: true },
            s,
        ),
        StrTestV::WellKnown(WellKnown::HostAndPort).broken_by(formats, s) <==> !formats.accepts(
            Format::HostAndPort { port_required: true },
            s,
        ),
        StrTestV::WellKnown(WellKnown::HeaderName { strict }).broken_by(formats, s)
            <==> !formats.accepts(Format::HeaderName { strict }, s),
        StrTestV::WellKnown(WellKnown::HeaderValue { strict }).broken_by(formats, s)
            <==> !formats.accepts(Format::HeaderValue { strict }, s),
{
}

/// The formats without an `_empty` rule decide on the empty string too.
pub proof fn law_formats_without_an_empty_rule<F: Formats>(formats: F, strict: bool, s: Seq<char>)
    ensures
        StrTestV::WellKnown(WellKnown::UriRef).broken_by(formats, s) <==> !formats.accepts(
            Format::UriRef,
            s,
        ),
        StrTestV::WellKnown(WellKnown::HeaderValue { strict }).broken_by(formats, s)
            <==> !formats.accepts(Format::HeaderValue { strict }, s),
{
}

/// A duration or timestamp that is not there, or that holds neither seconds
/// nor nanoseconds, is tried as zero; a field mask that is not there, or that
/// holds no paths, as one without paths.
pub proof fn law_missing_messages_are_empty<F: Formats, E>(
    formats: F,
    now: int,
    m: ValV<E>,
    durations: CmpV<Duration>,
    timestamps: CmpV<Timestamp>,
    test: NowTest,
    mask: FieldMaskTestV,
)
    requires
        m is Message,
        (m->get)(seconds_field()) is None,
        (m->get)(nanos_field()) is None,
        (m->get)(paths_field()) is None,
    ensures
        TestV::Duration(durations).broken_by::<F, E>(formats, now, None) == Ok::<bool, ErrorV<E>>(
            durations.broken_by(Duration(0)),
        ),
        TestV::Duration(durations).broken_by::<F, E>(formats, now, Some(m)) == Ok::<
            bool,
            ErrorV<E>,
        >(durations.broken_by(Duration(0))),
        TestV::Timestamp(timestamps).broken_by::<F, E>(formats, now, None) == Ok::<
            bool,
            ErrorV<E>,
        >(timestamps.broken_by(Timestamp(0))),
        TestV::Timestamp(timestamps).broken_by::<F, E>(formats, now, Some(m)) == Ok::<
            bool,
            ErrorV<E>,
        >(timestamps.broken_by(Timestamp(0))),
        TestV::Now(test).broken_by::<F, E>(formats, now, None) == Ok::<bool, ErrorV<E>>(
            now_broken_by(test, 0, now),
        ),
        TestV::FieldMask(mask).broken_by::<F, E>(formats, now, None) == Ok::<bool, ErrorV<E>>(
            mask.broken_by(Seq::empty()),
        ),
        TestV::FieldMask(mask).broken_by::<F, E>(formats, now, Some(m)) == Ok::<bool, ErrorV<E>>(
            mask.broken_by(Seq::empty()),
        ),
{
}

/// A rule that has to read a value which cannot be read fails with the error
/// of the read.
pub proof fn law_failed_reads_fail_the_rule<F: Formats, E>(
    formats: F,
    now: int,
    m: ValV<E>,
    l: ValV<E>,
    p: ValV<E>,
    error: E,
    durations: CmpV<Duration>,
    bound: u64,
)
    requires
        m is Message,
        (m->get)(seconds_field()) == Some(ValV::<E>::Failed(error)),
        l is List,
        l->len == Err::<usize, E>(error),
        p is Mapping,
        p->size == Err::<usize, E>(error),
    ensures
        TestV::Duration(durations).broken_by::<F, E>(formats, now, Some(m)) == Err::<
            bool,
            ErrorV<E>,
        >(ErrorV::Read(error)),
        TestV::List(ListTest::MinItems(bound)).broken_by::<F, E>(formats, now, Some(l)) == Err::<
            bool,
            ErrorV<E>,
        >(ErrorV::Read(error)),
        TestV::List(ListTest::MaxItems(bound)).broken_by::<F, E>(formats, now, Some(l)) == Err::<
            bool,
            ErrorV<E>,
        >(ErrorV::Read(error)),
        TestV::List(ListTest::Unique).broken_by::<F, E>(formats, now, Some(l)) == Err::<
            bool,
            ErrorV<E>,
        >(ErrorV::Read(error)),
        TestV::Mapping(MapTest::MinPairs(bound)).broken_by::<F, E>(formats, now, Some(p)) == Err::<
            bool,
            ErrorV<E>,
        >(ErrorV::Read(error)),
        TestV::Mapping(MapTest::MaxPairs(bound)).broken_by::<F, E>(formats, now, Some(p)) == Err::<
            bool,
            ErrorV<E>,
        >(ErrorV::Read(error)),
{
}

} // verus!
