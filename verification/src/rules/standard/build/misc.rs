//! The bool, enum, bytes, repeated, map and field mask rules.

use super::super::order::{Cmp, CmpV};
use super::super::pattern::regex_in;
use super::super::values::{
    BytesTest, BytesTestV, FieldMaskTest, FieldMaskTestV, ListTest, MapTest,
};
use super::super::{Test, TestV};
use super::string::{number_or_zero, or_empty, or_zero, text_or_empty};
use super::{bad_pattern, built, collect, native, native_of, natives_of, pattern, Native, NativeV};
use crate::error::{Error, ErrorV};
use crate::strings::byte_strings;
use crate::text::{
    concat, concat3, copy_bytes, copy_texts, decimal, hex_text, hexadecimal, list_text, listed,
    signed_decimal, signed_text, texts, truth, truth_text, unsigned_text,
};
use crate::validate::rules::{
    BoolRules, BytesFormat, BytesRules, EnumRules, FieldMaskRules, MapRules, RepeatedRules, Shown,
};
use vstd::prelude::*;

verus! {

/// The check of rule field `number` of a bool rules message.
pub open spec fn bool_rule(prefix: Seq<char>, r: BoolRules, number: u32) -> Option<NativeV> {
    match r.constant {
        Some(c) => if number == 1 {
            Some(native(prefix, "const"@, "must equal "@ + truth(c), TestV::Bool(c)))
        } else {
            None
        },
        None => None,
    }
}

/// The check of rule field `number` of a bool rules message.
pub fn bool_check(prefix: &str, r: &BoolRules, number: u32) -> (native: Option<Native>)
    ensures
        native_of(native) == bool_rule(prefix@, *r, number),
{
    match number {
        1 => match r.constant {
            Some(c) => Some(
                Native::new(
                    prefix,
                    "const",
                    concat("must equal ", truth_text(c).as_str()),
                    Test::Bool(c),
                ),
            ),
            None => None,
        },
        _ => None,
    }
}

/// Numbers, widened.
pub open spec fn wide_numbers(list: Seq<i32>) -> Seq<i64> {
    list.map_values(|v: i32| v as i64)
}

/// The texts of numbers.
pub open spec fn number_texts(list: Seq<i32>) -> Seq<Seq<char>> {
    list.map_values(|v: i32| signed_decimal(v as int))
}

/// The check of rule field `number` of an enum rules message.
pub open spec fn enum_rule(prefix: Seq<char>, r: EnumRules, number: u32) -> Option<NativeV> {
    if number == 1 {
        match r.constant {
            Some(c) => Some(
                native(
                    prefix,
                    "const"@,
                    "must equal "@ + signed_decimal(c as int),
                    TestV::Int(CmpV::Const(c as i64)),
                ),
            ),
            None => None,
        }
    } else if number == 3 {
        Some(
            native(
                prefix,
                "in"@,
                "must be in list "@ + listed(number_texts(r.in_list@)),
                TestV::Int(CmpV::In(wide_numbers(r.in_list@))),
            ),
        )
    } else if number == 4 {
        Some(
            native(
                prefix,
                "not_in"@,
                "must not be in list "@ + listed(number_texts(r.not_in@)),
                TestV::Int(CmpV::NotIn(wide_numbers(r.not_in@))),
            ),
        )
    } else {
        None
    }
}

/// Numbers, widened.
fn ints(list: &Vec<i32>) -> (r: Vec<i64>)
    ensures
        r@ == wide_numbers(list@),
{
    let mut wide: Vec<i64> = Vec::new();
    let mut i: usize = 0;
    while i < list.len()
        invariant
            i <= list@.len(),
            wide@ =~= wide_numbers(list@).take(i as int),
        decreases list@.len() - i,
    {
        wide.push(list[i] as i64);
        i += 1;
    }
    wide
}

/// The texts of numbers, as a list.
fn int_list(list: &Vec<i32>) -> (r: String)
    ensures
        r@ == listed(number_texts(list@)),
{
    let mut items: Vec<String> = Vec::new();
    let mut i: usize = 0;
    while i < list.len()
        invariant
            i <= list@.len(),
            texts(items@) =~= number_texts(list@).take(i as int),
        decreases list@.len() - i,
    {
        let ghost before = items@;
        items.push(signed_text(list[i] as i64));
        assert(texts(items@) =~= texts(before).push(signed_decimal(list@[i as int] as int)));
        i += 1;
    }
    assert(texts(items@) =~= number_texts(list@));
    list_text(&items)
}

/// The check of rule field `number` of an enum rules message.
pub fn enum_check(prefix: &str, r: &EnumRules, number: u32) -> (native: Option<Native>)
    ensures
        native_of(native) == enum_rule(prefix@, *r, number),
{
    match number {
        1 => match r.constant {
            Some(c) => Some(
                Native::new(
                    prefix,
                    "const",
                    concat("must equal ", signed_text(c as i64).as_str()),
                    Test::Int(Cmp::Const(c as i64)),
                ),
            ),
            None => None,
        },
        3 => Some(
            Native::new(
                prefix,
                "in",
                concat("must be in list ", int_list(&r.in_list).as_str()),
                Test::Int(Cmp::In(ints(&r.in_list))),
            ),
        ),
        4 => Some(
            Native::new(
                prefix,
                "not_in",
                concat("must not be in list ", int_list(&r.not_in).as_str()),
                Test::Int(Cmp::NotIn(ints(&r.not_in))),
            ),
        ),
        _ => None,
    }
}

/// Bytes, or none when they are not set.
pub open spec fn bytes_or_none(b: Option<Vec<u8>>) -> Seq<u8> {
    match b {
        Some(b) => b@,
        None => Seq::empty(),
    }
}

/// The byte strings of a list.
pub open spec fn shown_bytes(list: Seq<Shown<Vec<u8>>>) -> Seq<Seq<u8>> {
    list.map_values(|b: Shown<Vec<u8>>| b.value@)
}

/// The texts of a list of byte strings.
pub open spec fn shown_texts(list: Seq<Shown<Vec<u8>>>) -> Seq<Seq<char>> {
    list.map_values(|b: Shown<Vec<u8>>| b.text@)
}

/// A bytes check.
pub open spec fn bytes_native(
    prefix: Seq<char>,
    suffix: Seq<char>,
    message: Seq<char>,
    test: BytesTestV,
) -> NativeV {
    native(prefix, suffix, message, TestV::Bytes(test))
}

/// The checks of rule field `number` of a bytes rules message.
pub open spec fn bytes_rules<E>(prefix: Seq<char>, r: BytesRules, number: u32) -> Result<
    Seq<NativeV>,
    ErrorV<E>,
> {
    if number == 1 {
        let c = bytes_or_none(r.constant);
        Ok(
            seq![
                bytes_native(
                    prefix,
                    "const"@,
                    "must be "@ + hexadecimal(c),
                    BytesTestV::Const(c),
                ),
            ],
        )
    } else if number == 2 {
        let n = number_or_zero(r.min_len);
        Ok(
            seq![
                bytes_native(
                    prefix,
                    "min_len"@,
                    "must be at least "@ + decimal(n as nat) + " bytes"@,
                    BytesTestV::MinLen(n),
                ),
            ],
        )
    } else if number == 3 {
        let n = number_or_zero(r.max_len);
        Ok(
            seq![
                bytes_native(
                    prefix,
                    "max_len"@,
                    "must be at most "@ + decimal(n as nat) + " bytes"@,
                    BytesTestV::MaxLen(n),
                ),
            ],
        )
    } else if number == 4 {
        let p = text_or_empty(r.pattern);
        match regex_in(p) {
            Err(error) => Err(bad_pattern(p, error)),
            Ok(regex) => Ok(
                seq![
                    bytes_native(
                        prefix,
                        "pattern"@,
                        "must match regex pattern `"@ + p + "`"@,
                        BytesTestV::Pattern(regex),
                    ),
                ],
            ),
        }
    } else if number == 5 {
        let p = bytes_or_none(r.prefix);
        Ok(
            seq![
                bytes_native(
                    prefix,
                    "prefix"@,
                    "does not have prefix "@ + hexadecimal(p),
                    BytesTestV::Prefix(p),
                ),
            ],
        )
    } else if number == 6 {
        let p = bytes_or_none(r.suffix);
        Ok(
            seq![
                bytes_native(
                    prefix,
                    "suffix"@,
                    "does not have suffix "@ + hexadecimal(p),
                    BytesTestV::Suffix(p),
                ),
            ],
        )
    } else if number == 7 {
        let p = bytes_or_none(r.contains);
        Ok(
            seq![
                bytes_native(
                    prefix,
                    "contains"@,
                    "does not contain "@ + hexadecimal(p),
                    BytesTestV::Contains(p),
                ),
            ],
        )
    } else if number == 8 {
        Ok(
            seq![
                bytes_native(
                    prefix,
                    "in"@,
                    "must be in list "@ + listed(shown_texts(r.in_list@)),
                    BytesTestV::In(shown_bytes(r.in_list@)),
                ),
            ],
        )
    } else if number == 9 {
        Ok(
            seq![
                bytes_native(
                    prefix,
                    "not_in"@,
                    "must not be in list "@ + listed(shown_texts(r.not_in@)),
                    BytesTestV::NotIn(shown_bytes(r.not_in@)),
                ),
            ],
        )
    } else if number == 13 {
        let n = number_or_zero(r.len);
        Ok(
            seq![
                bytes_native(
                    prefix,
                    "len"@,
                    "must be "@ + decimal(n as nat) + " bytes"@,
                    BytesTestV::Len(n),
                ),
            ],
        )
    } else {
        Ok(bytes_format_rules(prefix, r, number))
    }
}

/// A bytes format rule and its `_empty` companion.
pub open spec fn bytes_format_pair(
    prefix: Seq<char>,
    suffix: Seq<char>,
    what: Seq<char>,
    test: BytesTestV,
) -> Seq<NativeV> {
    seq![
        bytes_native(prefix, suffix, "must be a valid "@ + what, test),
        bytes_native(
            prefix,
            suffix + "_empty"@,
            "value is empty, which is not a valid "@ + what,
            BytesTestV::Empty,
        ),
    ]
}

/// The checks of a bytes format rule, which go by length alone.
pub open spec fn bytes_format_rules(prefix: Seq<char>, r: BytesRules, number: u32) -> Seq<NativeV> {
    match r.well_known {
        Some(BytesFormat::Ip(true)) => if number == 10 {
            bytes_format_pair(prefix, "ip"@, "IP address"@, BytesTestV::Ip)
        } else {
            Seq::empty()
        },
        Some(BytesFormat::Ipv4(true)) => if number == 11 {
            bytes_format_pair(prefix, "ipv4"@, "IPv4 address"@, BytesTestV::Ipv4)
        } else {
            Seq::empty()
        },
        Some(BytesFormat::Ipv6(true)) => if number == 12 {
            bytes_format_pair(prefix, "ipv6"@, "IPv6 address"@, BytesTestV::Ipv6)
        } else {
            Seq::empty()
        },
        Some(BytesFormat::Uuid(true)) => if number == 15 {
            bytes_format_pair(prefix, "uuid"@, "UUID"@, BytesTestV::Uuid)
        } else {
            Seq::empty()
        },
        _ => Seq::empty(),
    }
}

/// Bytes, or none when they are not set.
fn or_none(b: &Option<Vec<u8>>) -> (r: Vec<u8>)
    ensures
        r@ == bytes_or_none(*b),
{
    match b {
        Some(b) => copy_bytes(b),
        None => Vec::new(),
    }
}

/// The byte strings of a list.
fn byte_list(list: &Vec<Shown<Vec<u8>>>) -> (r: Vec<Vec<u8>>)
    ensures
        byte_strings(r@) == shown_bytes(list@),
{
    let mut copied: Vec<Vec<u8>> = Vec::new();
    let mut i: usize = 0;
    while i < list.len()
        invariant
            i <= list@.len(),
            byte_strings(copied@) =~= shown_bytes(list@).take(i as int),
        decreases list@.len() - i,
    {
        let ghost before = copied@;
        copied.push(copy_bytes(&list[i].value));
        assert(byte_strings(copied@) =~= byte_strings(before).push(list@[i as int].value@));
        i += 1;
    }
    assert(shown_bytes(list@).take(i as int) =~= shown_bytes(list@));
    copied
}

/// The texts of a list of byte strings, as a list.
fn byte_texts(list: &Vec<Shown<Vec<u8>>>) -> (r: String)
    ensures
        r@ == listed(shown_texts(list@)),
{
    let mut items: Vec<String> = Vec::new();
    let mut i: usize = 0;
    while i < list.len()
        invariant
            i <= list@.len(),
            texts(items@) =~= shown_texts(list@).take(i as int),
        decreases list@.len() - i,
    {
        let ghost before = items@;
        items.push(list[i].text.clone());
        assert(texts(items@) =~= texts(before).push(list@[i as int].text@));
        i += 1;
    }
    assert(texts(items@) =~= shown_texts(list@));
    list_text(&items)
}

/// A list of one bytes check.
fn bytes_check<E>(prefix: &str, suffix: &str, message: String, test: BytesTest) -> (r: Result<
    Vec<Native>,
    Error<E>,
>)
    ensures
        built(r) == Ok::<Seq<NativeV>, ErrorV<E>>(
            seq![bytes_native(prefix@, suffix@, message@, test@)],
        ),
{
    collect(Some(Native::new(prefix, suffix, message, Test::Bytes(test))))
}

/// The checks of rule field `number` of a bytes rules message.
pub fn bytes_checks<E>(prefix: &str, r: &BytesRules, number: u32) -> (natives: Result<
    Vec<Native>,
    Error<E>,
>)
    ensures
        built(natives) == bytes_rules::<E>(prefix@, *r, number),
{
    match number {
        1 => {
            let c = or_none(&r.constant);
            let text = hex_text(&c);
            bytes_check(
                prefix,
                "const",
                concat("must be ", text.as_str()),
                BytesTest::Const(c),
            )
        },
        2 => {
            let n: u64 = or_zero(r.min_len);
            let text = unsigned_text(n);
            bytes_check(
                prefix,
                "min_len",
                concat3("must be at least ", text.as_str(), " bytes"),
                BytesTest::MinLen(n),
            )
        },
        3 => {
            let n: u64 = or_zero(r.max_len);
            let text = unsigned_text(n);
            bytes_check(
                prefix,
                "max_len",
                concat3("must be at most ", text.as_str(), " bytes"),
                BytesTest::MaxLen(n),
            )
        },
        4 => {
            let p = or_empty(&r.pattern);
            match pattern(p.as_str()) {
                Ok(compiled) => bytes_check(
                    prefix,
                    "pattern",
                    concat3("must match regex pattern `", p.as_str(), "`"),
                    BytesTest::Pattern(compiled),
                ),
                Err(error) => Err(error),
            }
        },
        5 => {
            let p = or_none(&r.prefix);
            let text = hex_text(&p);
            bytes_check(
                prefix,
                "prefix",
                concat("does not have prefix ", text.as_str()),
                BytesTest::Prefix(p),
            )
        },
        6 => {
            let p = or_none(&r.suffix);
            let text = hex_text(&p);
            bytes_check(
                prefix,
                "suffix",
                concat("does not have suffix ", text.as_str()),
                BytesTest::Suffix(p),
            )
        },
        7 => {
            let p = or_none(&r.contains);
            let text = hex_text(&p);
            bytes_check(
                prefix,
                "contains",
                concat("does not contain ", text.as_str()),
                BytesTest::Contains(p),
            )
        },
        8 => bytes_check(
            prefix,
            "in",
            concat("must be in list ", byte_texts(&r.in_list).as_str()),
            BytesTest::In(byte_list(&r.in_list)),
        ),
        9 => bytes_check(
            prefix,
            "not_in",
            concat("must not be in list ", byte_texts(&r.not_in).as_str()),
            BytesTest::NotIn(byte_list(&r.not_in)),
        ),
        13 => {
            let n: u64 = or_zero(r.len);
            let text = unsigned_text(n);
            bytes_check(
                prefix,
                "len",
                concat3("must be ", text.as_str(), " bytes"),
                BytesTest::Len(n),
            )
        },
        _ => Ok(bytes_format_checks(prefix, r, number)),
    }
}

/// The checks of a bytes format rule, which go by length alone.
pub fn bytes_format_checks(prefix: &str, r: &BytesRules, number: u32) -> (natives: Vec<Native>)
    ensures
        natives_of(natives@) == bytes_format_rules(prefix@, *r, number),
{
    let mut checks: Vec<Native> = Vec::new();
    assert(natives_of(checks@) =~= Seq::empty());
    let (suffix, what, test) = match (r.well_known, number) {
        (Some(BytesFormat::Ip(true)), 10) => ("ip", "IP address", BytesTest::Ip),
        (Some(BytesFormat::Ipv4(true)), 11) => ("ipv4", "IPv4 address", BytesTest::Ipv4),
        (Some(BytesFormat::Ipv6(true)), 12) => ("ipv6", "IPv6 address", BytesTest::Ipv6),
        (Some(BytesFormat::Uuid(true)), 15) => ("uuid", "UUID", BytesTest::Uuid),
        _ => return checks,
    };
    let first = Native::new(prefix, suffix, concat("must be a valid ", what), Test::Bytes(test));
    let second = Native::new(
        prefix,
        concat(suffix, "_empty").as_str(),
        concat("value is empty, which is not a valid ", what),
        Test::Bytes(BytesTest::Empty),
    );
    let ghost pair = (first@, second@);
    checks.push(first);
    checks.push(second);
    assert(natives_of(checks@) =~= seq![pair.0, pair.1]);
    checks
}

/// The check of rule field `number` of a repeated rules message.
pub open spec fn repeated_rule(prefix: Seq<char>, r: RepeatedRules, number: u32) -> Option<NativeV> {
    if number == 1 {
        let n = number_or_zero(r.min_items);
        Some(
            native(
                prefix,
                "min_items"@,
                "must contain at least "@ + decimal(n as nat) + " item(s)"@,
                TestV::List(ListTest::MinItems(n)),
            ),
        )
    } else if number == 2 {
        let n = number_or_zero(r.max_items);
        Some(
            native(
                prefix,
                "max_items"@,
                "must contain no more than "@ + decimal(n as nat) + " item(s)"@,
                TestV::List(ListTest::MaxItems(n)),
            ),
        )
    } else if number == 3 && r.unique == Some(true) {
        Some(
            native(
                prefix,
                "unique"@,
                "repeated value must contain unique items"@,
                TestV::List(ListTest::Unique),
            ),
        )
    } else {
        None
    }
}

/// The check of rule field `number` of a repeated rules message.
pub fn repeated_check(prefix: &str, r: &RepeatedRules, number: u32) -> (native: Option<Native>)
    ensures
        native_of(native) == repeated_rule(prefix@, *r, number),
{
    match number {
        1 => {
            let n: u64 = or_zero(r.min_items);
            let text = unsigned_text(n);
            Some(
                Native::new(
                    prefix,
                    "min_items",
                    concat3("must contain at least ", text.as_str(), " item(s)"),
                    Test::List(ListTest::MinItems(n)),
                ),
            )
        },
        2 => {
            let n: u64 = or_zero(r.max_items);
            let text = unsigned_text(n);
            Some(
                Native::new(
                    prefix,
                    "max_items",
                    concat3("must contain no more than ", text.as_str(), " item(s)"),
                    Test::List(ListTest::MaxItems(n)),
                ),
            )
        },
        3 => match r.unique {
            Some(true) => Some(
                Native::new(
                    prefix,
                    "unique",
                    "repeated value must contain unique items".to_owned(),
                    Test::List(ListTest::Unique),
                ),
            ),
            _ => None,
        },
        _ => None,
    }
}

/// The check of rule field `number` of a map rules message.
pub open spec fn map_rule(prefix: Seq<char>, r: MapRules, number: u32) -> Option<NativeV> {
    if number == 1 {
        let n = number_or_zero(r.min_pairs);
        Some(
            native(
                prefix,
                "min_pairs"@,
                "map must be at least "@ + decimal(n as nat) + " entries"@,
                TestV::Mapping(MapTest::MinPairs(n)),
            ),
        )
    } else if number == 2 {
        let n = number_or_zero(r.max_pairs);
        Some(
            native(
                prefix,
                "max_pairs"@,
                "map must be at most "@ + decimal(n as nat) + " entries"@,
                TestV::Mapping(MapTest::MaxPairs(n)),
            ),
        )
    } else {
        None
    }
}

/// The check of rule field `number` of a map rules message.
pub fn map_check(prefix: &str, r: &MapRules, number: u32) -> (native: Option<Native>)
    ensures
        native_of(native) == map_rule(prefix@, *r, number),
{
    match number {
        1 => {
            let n: u64 = or_zero(r.min_pairs);
            let text = unsigned_text(n);
            Some(
                Native::new(
                    prefix,
                    "min_pairs",
                    concat3("map must be at least ", text.as_str(), " entries"),
                    Test::Mapping(MapTest::MinPairs(n)),
                ),
            )
        },
        2 => {
            let n: u64 = or_zero(r.max_pairs);
            let text = unsigned_text(n);
            Some(
                Native::new(
                    prefix,
                    "max_pairs",
                    concat3("map must be at most ", text.as_str(), " entries"),
                    Test::Mapping(MapTest::MaxPairs(n)),
                ),
            )
        },
        _ => None,
    }
}

/// The check of rule field `number` of a field mask rules message.
pub open spec fn field_mask_rule(prefix: Seq<char>, r: FieldMaskRules, number: u32) -> Option<
    NativeV,
> {
    if number == 1 {
        match r.constant {
            Some(paths) => Some(
                native(
                    prefix,
                    "const"@,
                    "must equal paths "@ + listed(texts(paths@)),
                    TestV::FieldMask(FieldMaskTestV::Const(texts(paths@))),
                ),
            ),
            None => None,
        }
    } else if number == 2 {
        Some(
            native(
                prefix,
                "in"@,
                "must only contain paths in "@ + listed(texts(r.in_list@)),
                TestV::FieldMask(FieldMaskTestV::In(texts(r.in_list@))),
            ),
        )
    } else if number == 3 {
        Some(
            native(
                prefix,
                "not_in"@,
                "must not contain any paths in "@ + listed(texts(r.not_in@)),
                TestV::FieldMask(FieldMaskTestV::NotIn(texts(r.not_in@))),
            ),
        )
    } else {
        None
    }
}

/// The check of rule field `number` of a field mask rules message.
pub fn field_mask_check(prefix: &str, r: &FieldMaskRules, number: u32) -> (native: Option<Native>)
    ensures
        native_of(native) == field_mask_rule(prefix@, *r, number),
{
    match number {
        1 => match &r.constant {
            Some(paths) => Some(
                Native::new(
                    prefix,
                    "const",
                    concat("must equal paths ", list_text(paths).as_str()),
                    Test::FieldMask(FieldMaskTest::Const(copy_texts(paths))),
                ),
            ),
            None => None,
        },
        2 => Some(
            Native::new(
                prefix,
                "in",
                concat("must only contain paths in ", list_text(&r.in_list).as_str()),
                Test::FieldMask(FieldMaskTest::In(copy_texts(&r.in_list))),
            ),
        ),
        3 => Some(
            Native::new(
                prefix,
                "not_in",
                concat("must not contain any paths in ", list_text(&r.not_in).as_str()),
                Test::FieldMask(FieldMaskTest::NotIn(copy_texts(&r.not_in))),
            ),
        ),
        _ => None,
    }
}

} // verus!
