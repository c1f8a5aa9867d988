//! The string rules.

use super::super::pattern::regex_in;
use super::super::values::{StrTest, StrTestV, WellKnown};
use super::super::{Test, TestV};
use super::{at_most_one, bad_pattern, built, collect, native, native_of, natives_of, pattern, Native,
    NativeV};
use crate::error::{Error, ErrorV};
use crate::text::{concat, concat3, copy_texts, decimal, list_text, listed, texts, unsigned_text};
use crate::validate::rules::{KnownRegex, StringFormat, StringRules};
use vstd::prelude::*;

verus! {

/// A number, or 0 when it is not set.
pub open spec fn number_or_zero(n: Option<u64>) -> u64 {
    match n {
        Some(n) => n,
        None => 0,
    }
}

/// A string, or the empty one when it is not set.
pub open spec fn text_or_empty(s: Option<String>) -> Seq<char> {
    match s {
        Some(s) => s@,
        None => Seq::empty(),
    }
}

/// A number, or 0 when it is not set.
pub(crate) fn or_zero(n: Option<u64>) -> (r: u64)
    ensures
        r == number_or_zero(n),
{
    match n {
        Some(n) => n,
        None => 0,
    }
}

/// A string, or the empty one when it is not set.
pub(crate) fn or_empty(s: &Option<String>) -> (r: String)
    ensures
        r@ == text_or_empty(*s),
{
    match s {
        Some(s) => s.clone(),
        None => {
            proof {
                reveal_strlit("");
                assert(""@ =~= Seq::<char>::empty());
            }
            "".to_owned()
        },
    }
}

/// Whether a well-known format rule set on field `number` is in force: the
/// booleans have to be true, and the regex rule has to be the one set.
pub open spec fn format_in_force(rule: StringFormat, number: u32) -> bool {
    match rule {
        StringFormat::Email(b)
        | StringFormat::Hostname(b)
        | StringFormat::Ip(b)
        | StringFormat::Ipv4(b)
        | StringFormat::Ipv6(b)
        | StringFormat::Uri(b)
        | StringFormat::UriRef(b)
        | StringFormat::Address(b)
        | StringFormat::Uuid(b)
        | StringFormat::Tuuid(b)
        | StringFormat::IpWithPrefixlen(b)
        | StringFormat::Ipv4WithPrefixlen(b)
        | StringFormat::Ipv6WithPrefixlen(b)
        | StringFormat::IpPrefix(b)
        | StringFormat::Ipv4Prefix(b)
        | StringFormat::Ipv6Prefix(b)
        | StringFormat::HostAndPort(b)
        | StringFormat::Ulid(b)
        | StringFormat::ProtobufFqn(b)
        | StringFormat::ProtobufDotFqn(b) => b && number != 24,
        StringFormat::WellKnownRegex(_) => number == 24,
    }
}

/// Whether a well-known format rule set on field `number` is in force: the
/// booleans have to be true, and the regex rule has to be the one set.
fn well_known_enabled(rule: StringFormat, number: u32) -> (r: bool)
    ensures
        r == format_in_force(rule, number),
{
    match rule {
        StringFormat::Email(b)
        | StringFormat::Hostname(b)
        | StringFormat::Ip(b)
        | StringFormat::Ipv4(b)
        | StringFormat::Ipv6(b)
        | StringFormat::Uri(b)
        | StringFormat::UriRef(b)
        | StringFormat::Address(b)
        | StringFormat::Uuid(b)
        | StringFormat::Tuuid(b)
        | StringFormat::IpWithPrefixlen(b)
        | StringFormat::Ipv4WithPrefixlen(b)
        | StringFormat::Ipv6WithPrefixlen(b)
        | StringFormat::IpPrefix(b)
        | StringFormat::Ipv4Prefix(b)
        | StringFormat::Ipv6Prefix(b)
        | StringFormat::HostAndPort(b)
        | StringFormat::Ulid(b)
        | StringFormat::ProtobufFqn(b)
        | StringFormat::ProtobufDotFqn(b) => b && number != 24,
        StringFormat::WellKnownRegex(_) => number == 24,
    }
}

/// A string check.
pub open spec fn string_native(
    prefix: Seq<char>,
    suffix: Seq<char>,
    message: Seq<char>,
    test: StrTestV,
) -> NativeV {
    native(prefix, suffix, message, TestV::Str(test))
}

/// The checks of rule field `number` of a string rules message.
pub open spec fn string_rules<E>(prefix: Seq<char>, r: StringRules, number: u32) -> Result<
    Seq<NativeV>,
    ErrorV<E>,
> {
    if number == 1 {
        let c = text_or_empty(r.constant);
        Ok(
            seq![
                string_native(prefix, "const"@, "must equal `"@ + c + "`"@, StrTestV::Const(c)),
            ],
        )
    } else if number == 6 {
        let p = text_or_empty(r.pattern);
        match regex_in(p) {
            Err(error) => Err(bad_pattern(p, error)),
            Ok(regex) => Ok(
                seq![
                    string_native(
                        prefix,
                        "pattern"@,
                        "does not match regex pattern `"@ + p + "`"@,
                        StrTestV::Pattern(regex),
                    ),
                ],
            ),
        }
    } else if number == 10 {
        let list = texts(r.in_list@);
        Ok(
            seq![
                string_native(prefix, "in"@, "must be in list "@ + listed(list), StrTestV::In(list)),
            ],
        )
    } else if number == 11 {
        let list = texts(r.not_in@);
        Ok(
            seq![
                string_native(
                    prefix,
                    "not_in"@,
                    "must not be in list "@ + listed(list),
                    StrTestV::NotIn(list),
                ),
            ],
        )
    } else if 2 <= number <= 5 || number == 19 || number == 20 {
        Ok(at_most_one(length_rule(prefix, r, number)))
    } else if 7 <= number <= 9 || number == 23 {
        Ok(at_most_one(substring_rule(prefix, r, number)))
    } else {
        match r.well_known {
            Some(rule) => if format_in_force(rule, number) {
                Ok(format_rules(prefix, rule, r.strict != Some(false)))
            } else {
                Ok(Seq::empty())
            },
            None => Ok(Seq::empty()),
        }
    }
}

/// The length rules: in characters or in bytes, exact, at least or at most.
pub open spec fn length_rule(prefix: Seq<char>, r: StringRules, number: u32) -> Option<NativeV> {
    if number == 2 {
        let n = number_or_zero(r.min_len);
        Some(
            string_native(
                prefix,
                "min_len"@,
                "must be at least "@ + decimal(n as nat) + " characters"@,
                StrTestV::MinLen(n),
            ),
        )
    } else if number == 3 {
        let n = number_or_zero(r.max_len);
        Some(
            string_native(
                prefix,
                "max_len"@,
                "must be at most "@ + decimal(n as nat) + " characters"@,
                StrTestV::MaxLen(n),
            ),
        )
    } else if number == 4 {
        let n = number_or_zero(r.min_bytes);
        Some(
            string_native(
                prefix,
                "min_bytes"@,
                "must be at least "@ + decimal(n as nat) + " bytes"@,
                StrTestV::MinBytes(n),
            ),
        )
    } else if number == 5 {
        let n = number_or_zero(r.max_bytes);
        Some(
            string_native(
                prefix,
                "max_bytes"@,
                "must be at most "@ + decimal(n as nat) + " bytes"@,
                StrTestV::MaxBytes(n),
            ),
        )
    } else if number == 19 {
        let n = number_or_zero(r.len);
        Some(
            string_native(
                prefix,
                "len"@,
                "must be "@ + decimal(n as nat) + " characters"@,
                StrTestV::Len(n),
            ),
        )
    } else if number == 20 {
        let n = number_or_zero(r.len_bytes);
        Some(
            string_native(
                prefix,
                "len_bytes"@,
                "must be "@ + decimal(n as nat) + " bytes"@,
                StrTestV::LenBytes(n),
            ),
        )
    } else {
        None
    }
}

/// The substring rules: `prefix`, `suffix`, `contains` and `not_contains`.
pub open spec fn substring_rule(prefix: Seq<char>, r: StringRules, number: u32) -> Option<NativeV> {
    if number == 7 {
        let p = text_or_empty(r.prefix);
        Some(
            string_native(
                prefix,
                "prefix"@,
                "does not have prefix `"@ + p + "`"@,
                StrTestV::Prefix(p),
            ),
        )
    } else if number == 8 {
        let p = text_or_empty(r.suffix);
        Some(
            string_native(
                prefix,
                "suffix"@,
                "does not have suffix `"@ + p + "`"@,
                StrTestV::Suffix(p),
            ),
        )
    } else if number == 9 {
        let p = text_or_empty(r.contains);
        Some(
            string_native(
                prefix,
                "contains"@,
                "does not contain substring `"@ + p + "`"@,
                StrTestV::Contains(p),
            ),
        )
    } else if number == 23 {
        let p = text_or_empty(r.not_contains);
        Some(
            string_native(
                prefix,
                "not_contains"@,
                "contains substring `"@ + p + "`"@,
                StrTestV::NotContains(p),
            ),
        )
    } else {
        None
    }
}

/// A well-known format and, when `empty` names what an empty string is
/// not, its `_empty` companion.
pub open spec fn format_pair(
    prefix: Seq<char>,
    suffix: Seq<char>,
    what: Seq<char>,
    format: WellKnown,
    empty: Option<Seq<char>>,
) -> Seq<NativeV> {
    let format = string_native(
        prefix,
        suffix,
        "must be a valid "@ + what,
        StrTestV::WellKnown(format),
    );
    match empty {
        None => seq![format],
        Some(empty) => seq![
            format,
            string_native(
                prefix,
                suffix + "_empty"@,
                "value is empty, which is not a valid "@ + empty,
                StrTestV::Empty,
            ),
        ],
    }
}

/// A well-known format and its `_empty` companion, in the same words.
pub open spec fn simple_format(
    prefix: Seq<char>,
    suffix: Seq<char>,
    what: Seq<char>,
    format: WellKnown,
) -> Seq<NativeV> {
    format_pair(prefix, suffix, what, format, Some(what))
}

/// The checks of a well-known format rule that is set.
pub open spec fn format_rules(prefix: Seq<char>, rule: StringFormat, strict: bool) -> Seq<NativeV> {
    match rule {
        StringFormat::Email(_) => simple_format(
            prefix,
            "email"@,
            "email address"@,
            WellKnown::Email,
        ),
        StringFormat::Hostname(_) => simple_format(
            prefix,
            "hostname"@,
            "hostname"@,
            WellKnown::Hostname,
        ),
        StringFormat::Ip(_) => simple_format(prefix, "ip"@, "IP address"@, WellKnown::Ip),
        StringFormat::Ipv4(_) => simple_format(prefix, "ipv4"@, "IPv4 address"@, WellKnown::Ipv4),
        StringFormat::Ipv6(_) => simple_format(prefix, "ipv6"@, "IPv6 address"@, WellKnown::Ipv6),
        StringFormat::Uri(_) => simple_format(prefix, "uri"@, "URI"@, WellKnown::Uri),
        StringFormat::UriRef(_) => format_pair(
            prefix,
            "uri_ref"@,
            "URI Reference"@,
            WellKnown::UriRef,
            None,
        ),
        StringFormat::Address(_) => simple_format(
            prefix,
            "address"@,
            "hostname, or ip address"@,
            WellKnown::Address,
        ),
        StringFormat::Uuid(_) => simple_format(prefix, "uuid"@, "UUID"@, WellKnown::Uuid),
        StringFormat::Tuuid(_) => simple_format(
            prefix,
            "tuuid"@,
            "trimmed UUID"@,
            WellKnown::Tuuid,
        ),
        StringFormat::IpWithPrefixlen(_) => simple_format(
            prefix,
            "ip_with_prefixlen"@,
            "IP prefix"@,
            WellKnown::IpWithPrefixlen,
        ),
        StringFormat::Ipv4WithPrefixlen(_) => simple_format(
            prefix,
            "ipv4_with_prefixlen"@,
            "IPv4 address with prefix length"@,
            WellKnown::Ipv4WithPrefixlen,
        ),
        StringFormat::Ipv6WithPrefixlen(_) => simple_format(
            prefix,
            "ipv6_with_prefixlen"@,
            "IPv6 address with prefix length"@,
            WellKnown::Ipv6WithPrefixlen,
        ),
        StringFormat::IpPrefix(_) => simple_format(
            prefix,
            "ip_prefix"@,
            "IP prefix"@,
            WellKnown::IpPrefix,
        ),
        StringFormat::Ipv4Prefix(_) => simple_format(
            prefix,
            "ipv4_prefix"@,
            "IPv4 prefix"@,
            WellKnown::Ipv4Prefix,
        ),
        StringFormat::Ipv6Prefix(_) => simple_format(
            prefix,
            "ipv6_prefix"@,
            "IPv6 prefix"@,
            WellKnown::Ipv6Prefix,
        ),
        StringFormat::HostAndPort(_) => format_pair(
            prefix,
            "host_and_port"@,
            "host (hostname or IP address) and port pair"@,
            WellKnown::HostAndPort,
            Some("host and port pair"@),
        ),
        StringFormat::Ulid(_) => simple_format(prefix, "ulid"@, "ULID"@, WellKnown::Ulid),
        StringFormat::ProtobufFqn(_) => simple_format(
            prefix,
            "protobuf_fqn"@,
            "fully-qualified Protobuf name"@,
            WellKnown::ProtobufFqn,
        ),
        StringFormat::ProtobufDotFqn(_) => simple_format(
            prefix,
            "protobuf_dot_fqn"@,
            "fully-qualified Protobuf name with a leading dot"@,
            WellKnown::ProtobufDotFqn,
        ),
        StringFormat::WellKnownRegex(KnownRegex::HttpHeaderName) => simple_format(
            prefix,
            "well_known_regex.header_name"@,
            "HTTP header name"@,
            WellKnown::HeaderName { strict },
        ),
        StringFormat::WellKnownRegex(KnownRegex::HttpHeaderValue) => format_pair(
            prefix,
            "well_known_regex.header_value"@,
            "HTTP header value"@,
            WellKnown::HeaderValue { strict },
            None,
        ),
        StringFormat::WellKnownRegex(KnownRegex::Unspecified) => Seq::empty(),
    }
}

/// A list of one string check.
fn string_check<E>(prefix: &str, suffix: &str, message: String, test: StrTest) -> (r: Result<
    Vec<Native>,
    Error<E>,
>)
    ensures
        built(r) == Ok::<Seq<NativeV>, ErrorV<E>>(
            seq![string_native(prefix@, suffix@, message@, test@)],
        ),
{
    collect(Some(Native::new(prefix, suffix, message, Test::Str(test))))
}

/// The checks of rule field `number` of a string rules message.
pub fn checks<E>(prefix: &str, r: &StringRules, number: u32) -> (natives: Result<
    Vec<Native>,
    Error<E>,
>)
    ensures
        built(natives) == string_rules::<E>(prefix@, *r, number),
{
    match number {
        1 => {
            let c = or_empty(&r.constant);
            string_check(
                prefix,
                "const",
                concat3("must equal `", c.as_str(), "`"),
                StrTest::Const(c),
            )
        },
        6 => {
            let p = or_empty(&r.pattern);
            match pattern(p.as_str()) {
                Ok(compiled) => string_check(
                    prefix,
                    "pattern",
                    concat3("does not match regex pattern `", p.as_str(), "`"),
                    StrTest::Pattern(compiled),
                ),
                Err(error) => Err(error),
            }
        },
        10 => string_check(
            prefix,
            "in",
            concat("must be in list ", list_text(&r.in_list).as_str()),
            StrTest::In(copy_texts(&r.in_list)),
        ),
        11 => string_check(
            prefix,
            "not_in",
            concat("must not be in list ", list_text(&r.not_in).as_str()),
            StrTest::NotIn(copy_texts(&r.not_in)),
        ),
        2 | 3 | 4 | 5 | 19 | 20 => collect(string_length_check(prefix, r, number)),
        7 | 8 | 9 | 23 => collect(string_substring_check(prefix, r, number)),
        _ => match r.well_known {
            Some(rule) => if well_known_enabled(rule, number) {
                let strict = match r.strict {
                    Some(strict) => strict,
                    None => true,
                };
                Ok(well_known_checks(prefix, rule, strict))
            } else {
                collect(None)
            },
            None => collect(None),
        },
    }
}

/// The length rules: in characters or in bytes, exact, at least or at most.
pub fn string_length_check(prefix: &str, r: &StringRules, number: u32) -> (native: Option<Native>)
    ensures
        native_of(native) == length_rule(prefix@, *r, number),
{
    let (suffix, message, test) = match number {
        2 => {
            let n: u64 = or_zero(r.min_len);
            let text = unsigned_text(n);
            (
                "min_len",
                concat3("must be at least ", text.as_str(), " characters"),
                StrTest::MinLen(n),
            )
        },
        3 => {
            let n: u64 = or_zero(r.max_len);
            let text = unsigned_text(n);
            (
                "max_len",
                concat3("must be at most ", text.as_str(), " characters"),
                StrTest::MaxLen(n),
            )
        },
        4 => {
            let n: u64 = or_zero(r.min_bytes);
            let text = unsigned_text(n);
            (
                "min_bytes",
                concat3("must be at least ", text.as_str(), " bytes"),
                StrTest::MinBytes(n),
            )
        },
        5 => {
            let n: u64 = or_zero(r.max_bytes);
            let text = unsigned_text(n);
            (
                "max_bytes",
                concat3("must be at most ", text.as_str(), " bytes"),
                StrTest::MaxBytes(n),
            )
        },
        19 => {
            let n: u64 = or_zero(r.len);
            let text = unsigned_text(n);
            ("len", concat3("must be ", text.as_str(), " characters"), StrTest::Len(n))
        },
        20 => {
            let n: u64 = or_zero(r.len_bytes);
            let text = unsigned_text(n);
            ("len_bytes", concat3("must be ", text.as_str(), " bytes"), StrTest::LenBytes(n))
        },
        _ => return None,
    };
    Some(Native::new(prefix, suffix, message, Test::Str(test)))
}

/// The substring rules: `prefix`, `suffix`, `contains` and `not_contains`.
pub fn string_substring_check(prefix: &str, r: &StringRules, number: u32) -> (native: Option<
    Native,
>)
    ensures
        native_of(native) == substring_rule(prefix@, *r, number),
{
    let (suffix, message, test) = match number {
        7 => {
            let p = or_empty(&r.prefix);
            (
                "prefix",
                concat3("does not have prefix `", p.as_str(), "`"),
                StrTest::Prefix(p),
            )
        },
        8 => {
            let p = or_empty(&r.suffix);
            (
                "suffix",
                concat3("does not have suffix `", p.as_str(), "`"),
                StrTest::Suffix(p),
            )
        },
        9 => {
            let p = or_empty(&r.contains);
            (
                "contains",
                concat3("does not contain substring `", p.as_str(), "`"),
                StrTest::Contains(p),
            )
        },
        23 => {
            let p = or_empty(&r.not_contains);
            (
                "not_contains",
                concat3("contains substring `", p.as_str(), "`"),
                StrTest::NotContains(p),
            )
        },
        _ => return None,
    };
    Some(Native::new(prefix, suffix, message, Test::Str(test)))
}

/// A well-known format and, when `empty` names what an empty string is
/// not, its `_empty` companion.
fn well_known(prefix: &str, suffix: &str, what: &str, format: WellKnown, empty: Option<&str>) -> (r:
    Vec<Native>)
    ensures
        natives_of(r@) == format_pair(
            prefix@,
            suffix@,
            what@,
            format,
            match empty {
                Some(empty) => Some(empty@),
                None => None,
            },
        ),
{
    let mut checks: Vec<Native> = Vec::new();
    let first = Native::new(
        prefix,
        suffix,
        concat("must be a valid ", what),
        Test::Str(StrTest::WellKnown(format)),
    );
    let ghost first_v = first@;
    checks.push(first);
    assert(natives_of(checks@) =~= seq![first_v]);
    match empty {
        Some(empty) => {
            let second = Native::new(
                prefix,
                concat(suffix, "_empty").as_str(),
                concat("value is empty, which is not a valid ", empty),
                Test::Str(StrTest::Empty),
            );
            let ghost second_v = second@;
            checks.push(second);
            assert(natives_of(checks@) =~= seq![first_v, second_v]);
        },
        None => {},
    }
    checks
}

/// A well-known format and its `_empty` companion, in the same words.
fn simple(prefix: &str, suffix: &str, what: &str, format: WellKnown) -> (r: Vec<Native>)
    ensures
        natives_of(r@) == simple_format(prefix@, suffix@, what@, format),
{
    well_known(prefix, suffix, what, format, Some(what))
}

/// The checks of a well-known format rule that is set.
pub fn well_known_checks(prefix: &str, rule: StringFormat, strict: bool) -> (r: Vec<Native>)
    ensures
        natives_of(r@) == format_rules(prefix@, rule, strict),
{
    match rule {
        StringFormat::Email(_) => simple(prefix, "email", "email address", WellKnown::Email),
        StringFormat::Hostname(_) => simple(prefix, "hostname", "hostname", WellKnown::Hostname),
        StringFormat::Ip(_) => simple(prefix, "ip", "IP address", WellKnown::Ip),
        StringFormat::Ipv4(_) => simple(prefix, "ipv4", "IPv4 address", WellKnown::Ipv4),
        StringFormat::Ipv6(_) => simple(prefix, "ipv6", "IPv6 address", WellKnown::Ipv6),
        StringFormat::Uri(_) => simple(prefix, "uri", "URI", WellKnown::Uri),
        StringFormat::UriRef(_) => well_known(
            prefix,
            "uri_ref",
            "URI Reference",
            WellKnown::UriRef,
            None,
        ),
        StringFormat::Address(_) => simple(
            prefix,
            "address",
            "hostname, or ip address",
            WellKnown::Address,
        ),
        StringFormat::Uuid(_) => simple(prefix, "uuid", "UUID", WellKnown::Uuid),
        StringFormat::Tuuid(_) => simple(prefix, "tuuid", "trimmed UUID", WellKnown::Tuuid),
        StringFormat::IpWithPrefixlen(_) => simple(
            prefix,
            "ip_with_prefixlen",
            "IP prefix",
            WellKnown::IpWithPrefixlen,
        ),
        StringFormat::Ipv4WithPrefixlen(_) => simple(
            prefix,
            "ipv4_with_prefixlen",
            "IPv4 address with prefix length",
            WellKnown::Ipv4WithPrefixlen,
        ),
        StringFormat::Ipv6WithPrefixlen(_) => simple(
            prefix,
            "ipv6_with_prefixlen",
            "IPv6 address with prefix length",
            WellKnown::Ipv6WithPrefixlen,
        ),
        StringFormat::IpPrefix(_) => simple(prefix, "ip_prefix", "IP prefix", WellKnown::IpPrefix),
        StringFormat::Ipv4Prefix(_) => simple(
            prefix,
            "ipv4_prefix",
            "IPv4 prefix",
            WellKnown::Ipv4Prefix,
        ),
        StringFormat::Ipv6Prefix(_) => simple(
            prefix,
            "ipv6_prefix",
            "IPv6 prefix",
            WellKnown::Ipv6Prefix,
        ),
        StringFormat::HostAndPort(_) => well_known(
            prefix,
            "host_and_port",
            "host (hostname or IP address) and port pair",
            WellKnown::HostAndPort,
            Some("host and port pair"),
        ),
        StringFormat::Ulid(_) => simple(prefix, "ulid", "ULID", WellKnown::Ulid),
        StringFormat::ProtobufFqn(_) => simple(
            prefix,
            "protobuf_fqn",
            "fully-qualified Protobuf name",
            WellKnown::ProtobufFqn,
        ),
        StringFormat::ProtobufDotFqn(_) => simple(
            prefix,
            "protobuf_dot_fqn",
            "fully-qualified Protobuf name with a leading dot",
            WellKnown::ProtobufDotFqn,
        ),
        StringFormat::WellKnownRegex(KnownRegex::HttpHeaderName) => simple(
            prefix,
            "well_known_regex.header_name",
            "HTTP header name",
            WellKnown::HeaderName { strict },
        ),
        StringFormat::WellKnownRegex(KnownRegex::HttpHeaderValue) => well_known(
            prefix,
            "well_known_regex.header_value",
            "HTTP header value",
            WellKnown::HeaderValue { strict },
            None,
        ),
        StringFormat::WellKnownRegex(KnownRegex::Unspecified) => {
            let none: Vec<Native> = Vec::new();
            assert(natives_of(none@) =~= Seq::empty());
            none
        },
    }
}

} // verus!
