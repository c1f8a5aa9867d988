//! The tests of strings, bytes, lists, maps and field masks.

use super::pattern::{
    matches_regex, regex_matches, text_from_bytes,
};
use super::wellknown::{Format, Formats};
use crate::double::Double;
use crate::error::{Error, ErrorV};
use crate::protobuf::{shapes, val, Runtime, Val, ValV};
use crate::strings::{
    begins, byte_strings, bytes_end, bytes_start, characters, contains, ends_with, finishes,
    has_bytes, has_substring, has_text, occurs, same_bytes, same_text, starts_with,
};
use crate::text::{concat, texts};
use vstd::prelude::*;
use vstd::string::*;
use vstd::utf8::*;

verus! {

/// A test of a string.
pub enum StrTest {
    Const(String),
    /// In Unicode code points, as CEL's `size()`.
    Len(u64),
    MinLen(u64),
    MaxLen(u64),
    LenBytes(u64),
    MinBytes(u64),
    MaxBytes(u64),
    Pattern(regex::Regex),
    Prefix(String),
    Suffix(String),
    Contains(String),
    NotContains(String),
    In(Vec<String>),
    NotIn(Vec<String>),
    WellKnown(WellKnown),
    /// The `_empty` companion of a well-known format: the format rule lets
    /// an empty string through, and this one reports it.
    Empty,
}

/// What a [`StrTest`] holds.
pub enum StrTestV {
    Const(Seq<char>),
    Len(u64),
    MinLen(u64),
    MaxLen(u64),
    LenBytes(u64),
    MinBytes(u64),
    MaxBytes(u64),
    Pattern(regex::Regex),
    Prefix(Seq<char>),
    Suffix(Seq<char>),
    Contains(Seq<char>),
    NotContains(Seq<char>),
    In(Seq<Seq<char>>),
    NotIn(Seq<Seq<char>>),
    WellKnown(WellKnown),
    Empty,
}

impl View for StrTest {
    type V = StrTestV;

    open spec fn view(&self) -> StrTestV {
        match *self {
            StrTest::Const(c) => StrTestV::Const(c@),
            StrTest::Len(n) => StrTestV::Len(n),
            StrTest::MinLen(n) => StrTestV::MinLen(n),
            StrTest::MaxLen(n) => StrTestV::MaxLen(n),
            StrTest::LenBytes(n) => StrTestV::LenBytes(n),
            StrTest::MinBytes(n) => StrTestV::MinBytes(n),
            StrTest::MaxBytes(n) => StrTestV::MaxBytes(n),
            StrTest::Pattern(regex) => StrTestV::Pattern(regex),
            StrTest::Prefix(p) => StrTestV::Prefix(p@),
            StrTest::Suffix(p) => StrTestV::Suffix(p@),
            StrTest::Contains(p) => StrTestV::Contains(p@),
            StrTest::NotContains(p) => StrTestV::NotContains(p@),
            StrTest::In(list) => StrTestV::In(texts(list@)),
            StrTest::NotIn(list) => StrTestV::NotIn(texts(list@)),
            StrTest::WellKnown(format) => StrTestV::WellKnown(format),
            StrTest::Empty => StrTestV::Empty,
        }
    }
}

/// A well-known string format.
#[derive(Clone, Copy, Debug, PartialEq, Eq, Structural)]
pub enum WellKnown {
    Email,
    Hostname,
    Ip,
    Ipv4,
    Ipv6,
    Uri,
    UriRef,
    Address,
    Uuid,
    Tuuid,
    IpWithPrefixlen,
    Ipv4WithPrefixlen,
    Ipv6WithPrefixlen,
    IpPrefix,
    Ipv4Prefix,
    Ipv6Prefix,
    HostAndPort,
    Ulid,
    ProtobufFqn,
    ProtobufDotFqn,
    HeaderName { strict: bool },
    HeaderValue { strict: bool },
}

/// Whether a string is what the rule asks for. A host and port must have the
/// port; an address with a prefix length may have bits set below the prefix,
/// a prefix may not.
pub open spec fn recognised<F: Formats>(formats: F, known: WellKnown, s: Seq<char>) -> bool {
    match known {
        WellKnown::Email => formats.accepts(Format::Email, s),
        WellKnown::Hostname => formats.accepts(Format::Hostname, s),
        WellKnown::Ip => formats.accepts(Format::Ip, s),
        WellKnown::Ipv4 => formats.accepts(Format::Ipv4, s),
        WellKnown::Ipv6 => formats.accepts(Format::Ipv6, s),
        WellKnown::Uri => formats.accepts(Format::Uri, s),
        WellKnown::UriRef => formats.accepts(Format::UriRef, s),
        WellKnown::Address => formats.accepts(Format::Hostname, s) || formats.accepts(
            Format::Ip,
            s,
        ),
        WellKnown::Uuid => formats.accepts(Format::Uuid, s),
        WellKnown::Tuuid => formats.accepts(Format::Tuuid, s),
        WellKnown::IpWithPrefixlen => formats.accepts(Format::IpPrefix { strict: false }, s),
        WellKnown::Ipv4WithPrefixlen => formats.accepts(Format::Ipv4Prefix { strict: false }, s),
        WellKnown::Ipv6WithPrefixlen => formats.accepts(Format::Ipv6Prefix { strict: false }, s),
        WellKnown::IpPrefix => formats.accepts(Format::IpPrefix { strict: true }, s),
        WellKnown::Ipv4Prefix => formats.accepts(Format::Ipv4Prefix { strict: true }, s),
        WellKnown::Ipv6Prefix => formats.accepts(Format::Ipv6Prefix { strict: true }, s),
        WellKnown::HostAndPort => formats.accepts(Format::HostAndPort { port_required: true }, s),
        WellKnown::Ulid => formats.accepts(Format::Ulid, s),
        WellKnown::ProtobufFqn => formats.accepts(Format::ProtobufFqn, s),
        WellKnown::ProtobufDotFqn => formats.accepts(Format::ProtobufDotFqn, s),
        WellKnown::HeaderName { strict } => formats.accepts(Format::HeaderName { strict }, s),
        WellKnown::HeaderValue { strict } => formats.accepts(Format::HeaderValue { strict }, s),
    }
}

/// Whether a string breaks a format rule. Most formats let an empty string
/// through, leaving it to the `_empty` companion; a URI reference and a
/// header value do not.
pub open spec fn format_broken_by<F: Formats>(formats: F, known: WellKnown, s: Seq<char>) -> bool {
    let let_through = s.len() == 0 && !(known is UriRef) && !(known is HeaderValue);
    !let_through && !recognised(formats, known, s)
}

impl WellKnown {
    /// Whether `s` is what the rule asks for.
    fn recognises<F: Formats>(&self, s: &str, formats: &F) -> (r: bool)
        ensures
            r == recognised(*formats, *self, s@),
    {
        match self {
            WellKnown::Email => formats.recognises(Format::Email, s),
            WellKnown::Hostname => formats.recognises(Format::Hostname, s),
            WellKnown::Ip => formats.recognises(Format::Ip, s),
            WellKnown::Ipv4 => formats.recognises(Format::Ipv4, s),
            WellKnown::Ipv6 => formats.recognises(Format::Ipv6, s),
            WellKnown::Uri => formats.recognises(Format::Uri, s),
            WellKnown::UriRef => formats.recognises(Format::UriRef, s),
            WellKnown::Address => formats.recognises(Format::Hostname, s) || formats.recognises(
                Format::Ip,
                s,
            ),
            WellKnown::Uuid => formats.recognises(Format::Uuid, s),
            WellKnown::Tuuid => formats.recognises(Format::Tuuid, s),
            WellKnown::IpWithPrefixlen => formats.recognises(
                Format::IpPrefix { strict: false },
                s,
            ),
            WellKnown::Ipv4WithPrefixlen => formats.recognises(
                Format::Ipv4Prefix { strict: false },
                s,
            ),
            WellKnown::Ipv6WithPrefixlen => formats.recognises(
                Format::Ipv6Prefix { strict: false },
                s,
            ),
            WellKnown::IpPrefix => formats.recognises(Format::IpPrefix { strict: true }, s),
            WellKnown::Ipv4Prefix => formats.recognises(Format::Ipv4Prefix { strict: true }, s),
            WellKnown::Ipv6Prefix => formats.recognises(Format::Ipv6Prefix { strict: true }, s),
            WellKnown::HostAndPort => formats.recognises(
                Format::HostAndPort { port_required: true },
                s,
            ),
            WellKnown::Ulid => formats.recognises(Format::Ulid, s),
            WellKnown::ProtobufFqn => formats.recognises(Format::ProtobufFqn, s),
            WellKnown::ProtobufDotFqn => formats.recognises(Format::ProtobufDotFqn, s),
            WellKnown::HeaderName { strict } => formats.recognises(
                Format::HeaderName { strict: *strict },
                s,
            ),
            WellKnown::HeaderValue { strict } => formats.recognises(
                Format::HeaderValue { strict: *strict },
                s,
            ),
        }
    }

    /// Whether `s` breaks the rule.
    pub fn fails<F: Formats>(&self, s: &str, formats: &F) -> (r: bool)
        ensures
            r == format_broken_by(*formats, *self, s@),
    {
        // Most formats let an empty string through, leaving it to the
        // `_empty` companion; a URI reference and a header value do not.
        match self {
            WellKnown::UriRef | WellKnown::HeaderValue { .. } => {},
            _ => {
                if chars(s) == 0 {
                    return false;
                }
            },
        }
        !self.recognises(s, formats)
    }
}

/// The number of code points of a string.
pub fn chars(s: &str) -> (r: u64)
    ensures
        r == s@.len(),
{
    characters(s).len() as u64
}

/// The number of bytes of a string's UTF-8 form.
fn byte_count(s: &str) -> (r: u64)
    ensures
        r == encode_utf8(s@).len(),
{
    s.as_bytes().len() as u64
}

impl StrTestV {
    /// Whether a string breaks the rule.
    pub open spec fn broken_by<F: Formats>(self, formats: F, s: Seq<char>) -> bool {
        match self {
            StrTestV::Const(c) => s != c,
            StrTestV::Len(n) => s.len() != n,
            StrTestV::MinLen(n) => s.len() < n,
            StrTestV::MaxLen(n) => s.len() > n,
            StrTestV::LenBytes(n) => encode_utf8(s).len() != n,
            StrTestV::MinBytes(n) => encode_utf8(s).len() < n,
            StrTestV::MaxBytes(n) => encode_utf8(s).len() > n,
            StrTestV::Pattern(regex) => !regex_matches(regex, s),
            StrTestV::Prefix(p) => !begins(s, p),
            StrTestV::Suffix(p) => !finishes(s, p),
            StrTestV::Contains(p) => !occurs(p, s),
            StrTestV::NotContains(p) => occurs(p, s),
            StrTestV::In(list) => !list.contains(s),
            StrTestV::NotIn(list) => list.contains(s),
            StrTestV::WellKnown(known) => format_broken_by(formats, known, s),
            StrTestV::Empty => s.len() == 0,
        }
    }
}

impl StrTest {
    /// Whether `s` breaks the rule.
    pub fn fails<F: Formats>(&self, s: &str, formats: &F) -> (r: bool)
        ensures
            r == self@.broken_by(*formats, s@),
    {
        match self {
            StrTest::Const(c) => !same_text(s, c.as_str()),
            StrTest::Len(n) => chars(s) != *n,
            StrTest::MinLen(n) => chars(s) < *n,
            StrTest::MaxLen(n) => chars(s) > *n,
            StrTest::LenBytes(n) => byte_count(s) != *n,
            StrTest::MinBytes(n) => byte_count(s) < *n,
            StrTest::MaxBytes(n) => byte_count(s) > *n,
            StrTest::Pattern(regex) => !matches_regex(regex, s),
            StrTest::Prefix(p) => !starts_with(s, p.as_str()),
            StrTest::Suffix(p) => !ends_with(s, p.as_str()),
            StrTest::Contains(p) => !has_substring(s, p.as_str()),
            StrTest::NotContains(p) => has_substring(s, p.as_str()),
            StrTest::In(list) => !has_text(list, s),
            StrTest::NotIn(list) => has_text(list, s),
            StrTest::WellKnown(format) => format.fails(s, formats),
            StrTest::Empty => chars(s) == 0,
        }
    }
}

/// A test of bytes.
pub enum BytesTest {
    Const(Vec<u8>),
    Len(u64),
    MinLen(u64),
    MaxLen(u64),
    /// Matched against the bytes read as UTF-8, as CEL's `string(this)`.
    Pattern(regex::Regex),
    Prefix(Vec<u8>),
    Suffix(Vec<u8>),
    Contains(Vec<u8>),
    In(Vec<Vec<u8>>),
    NotIn(Vec<Vec<u8>>),
    /// 4 or 16 bytes, or none.
    Ip,
    Ipv4,
    Ipv6,
    /// 16 bytes, or none.
    Uuid,
    /// The `_empty` companion of the formats above.
    Empty,
}

/// What a [`BytesTest`] holds.
pub enum BytesTestV {
    Const(Seq<u8>),
    Len(u64),
    MinLen(u64),
    MaxLen(u64),
    Pattern(regex::Regex),
    Prefix(Seq<u8>),
    Suffix(Seq<u8>),
    Contains(Seq<u8>),
    In(Seq<Seq<u8>>),
    NotIn(Seq<Seq<u8>>),
    Ip,
    Ipv4,
    Ipv6,
    Uuid,
    Empty,
}

impl View for BytesTest {
    type V = BytesTestV;

    open spec fn view(&self) -> BytesTestV {
        match *self {
            BytesTest::Const(c) => BytesTestV::Const(c@),
            BytesTest::Len(n) => BytesTestV::Len(n),
            BytesTest::MinLen(n) => BytesTestV::MinLen(n),
            BytesTest::MaxLen(n) => BytesTestV::MaxLen(n),
            BytesTest::Pattern(regex) => BytesTestV::Pattern(regex),
            BytesTest::Prefix(p) => BytesTestV::Prefix(p@),
            BytesTest::Suffix(p) => BytesTestV::Suffix(p@),
            BytesTest::Contains(p) => BytesTestV::Contains(p@),
            BytesTest::In(list) => BytesTestV::In(byte_strings(list@)),
            BytesTest::NotIn(list) => BytesTestV::NotIn(byte_strings(list@)),
            BytesTest::Ip => BytesTestV::Ip,
            BytesTest::Ipv4 => BytesTestV::Ipv4,
            BytesTest::Ipv6 => BytesTestV::Ipv6,
            BytesTest::Uuid => BytesTestV::Uuid,
            BytesTest::Empty => BytesTestV::Empty,
        }
    }
}

/// Why bytes cannot be matched against a pattern.
pub open spec fn not_utf8<E>() -> ErrorV<E> {
    ErrorV::Evaluation("value must be valid UTF-8 to apply regexp"@)
}

impl BytesTestV {
    /// Whether bytes break the rule, or why they cannot be checked.
    pub open spec fn broken_by<E>(self, b: Seq<u8>) -> Result<bool, ErrorV<E>> {
        match self {
            BytesTestV::Const(c) => Ok(b != c),
            BytesTestV::Len(n) => Ok(b.len() != n),
            BytesTestV::MinLen(n) => Ok(b.len() < n),
            BytesTestV::MaxLen(n) => Ok(b.len() > n),
            BytesTestV::Pattern(regex) => if valid_utf8(b) {
                Ok(!regex_matches(regex, decode_utf8(b)))
            } else {
                Err(not_utf8())
            },
            BytesTestV::Prefix(p) => Ok(!begins(b, p)),
            BytesTestV::Suffix(p) => Ok(!finishes(b, p)),
            BytesTestV::Contains(p) => Ok(!occurs(p, b)),
            BytesTestV::In(list) => Ok(!list.contains(b)),
            BytesTestV::NotIn(list) => Ok(list.contains(b)),
            BytesTestV::Ip => Ok(b.len() != 0 && b.len() != 4 && b.len() != 16),
            BytesTestV::Ipv4 => Ok(b.len() != 0 && b.len() != 4),
            BytesTestV::Ipv6 => Ok(b.len() != 0 && b.len() != 16),
            BytesTestV::Uuid => Ok(b.len() != 0 && b.len() != 16),
            BytesTestV::Empty => Ok(b.len() == 0),
        }
    }
}

impl BytesTest {
    /// `Err` when the value cannot be checked: bytes that are not UTF-8
    /// cannot be matched against a pattern, as CEL's `string()` fails on
    /// them.
    pub fn fails<E>(&self, b: &[u8]) -> (r: Result<bool, Error<E>>)
        ensures
            crate::protobuf::reads::fallible(r) == self@.broken_by::<E>(b@),
    {
        let size: u64 = b.len() as u64;
        match self {
            BytesTest::Const(c) => Ok(!same_bytes(b, c.as_slice())),
            BytesTest::Len(n) => Ok(size != *n),
            BytesTest::MinLen(n) => Ok(size < *n),
            BytesTest::MaxLen(n) => Ok(size > *n),
            BytesTest::Pattern(regex) => match text_from_bytes(b) {
                Some(s) => Ok(!matches_regex(regex, s)),
                None => Err(
                    Error::Evaluation("value must be valid UTF-8 to apply regexp".to_owned()),
                ),
            },
            BytesTest::Prefix(p) => Ok(!bytes_start(b, p.as_slice())),
            BytesTest::Suffix(p) => Ok(!bytes_end(b, p.as_slice())),
            BytesTest::Contains(p) => Ok(!contains(b, p.as_slice())),
            BytesTest::In(list) => Ok(!has_bytes(list, b)),
            BytesTest::NotIn(list) => Ok(has_bytes(list, b)),
            BytesTest::Ip => Ok(size != 0 && size != 4 && size != 16),
            BytesTest::Ipv4 => Ok(size != 0 && size != 4),
            BytesTest::Ipv6 => Ok(size != 0 && size != 16),
            BytesTest::Uuid => Ok(size != 0 && size != 16),
            BytesTest::Empty => Ok(size == 0),
        }
    }
}

/// A test of a repeated field.
#[derive(Clone, Copy, Debug)]
pub enum ListTest {
    MinItems(u64),
    MaxItems(u64),
    Unique,
}

/// A test of a map.
#[derive(Clone, Copy, Debug)]
pub enum MapTest {
    MinPairs(u64),
    MaxPairs(u64),
}

/// A test of a field mask.
pub enum FieldMaskTest {
    Const(Vec<String>),
    /// Every path must be in the list, or below a path in it.
    In(Vec<String>),
    NotIn(Vec<String>),
}

/// What a [`FieldMaskTest`] holds.
pub enum FieldMaskTestV {
    Const(Seq<Seq<char>>),
    In(Seq<Seq<char>>),
    NotIn(Seq<Seq<char>>),
}

impl View for FieldMaskTest {
    type V = FieldMaskTestV;

    open spec fn view(&self) -> FieldMaskTestV {
        match *self {
            FieldMaskTest::Const(list) => FieldMaskTestV::Const(texts(list@)),
            FieldMaskTest::In(list) => FieldMaskTestV::In(texts(list@)),
            FieldMaskTest::NotIn(list) => FieldMaskTestV::NotIn(texts(list@)),
        }
    }
}

/// Whether `path` is `allowed`, or below it.
pub open spec fn under(path: Seq<char>, allowed: Seq<char>) -> bool {
    path == allowed || begins(path, allowed.push('.'))
}

/// Whether a path is in the list, or below a path in it.
pub open spec fn under_any(paths: Seq<Seq<char>>, path: Seq<char>) -> bool {
    exists|i: int| 0 <= i < paths.len() && under(path, #[trigger] paths[i])
}

impl FieldMaskTestV {
    /// Whether the paths of a mask break the rule.
    pub open spec fn broken_by(self, paths: Seq<Seq<char>>) -> bool {
        match self {
            FieldMaskTestV::Const(list) => paths != list,
            FieldMaskTestV::In(list) => exists|i: int|
                0 <= i < paths.len() && !under_any(list, #[trigger] paths[i]),
            FieldMaskTestV::NotIn(list) => exists|i: int|
                0 <= i < paths.len() && under_any(list, #[trigger] paths[i]),
        }
    }
}

/// Whether `path` is `allowed`, or below it.
fn is_under(path: &str, allowed: &str) -> (r: bool)
    ensures
        r == under(path@, allowed@),
{
    proof {
        reveal_strlit(".");
        assert(allowed@ + "."@ =~= allowed@.push('.'));
    }
    same_text(path, allowed) || starts_with(path, concat(allowed, ".").as_str())
}

/// Whether a path is in the list, or below a path in it.
pub fn covered(paths: &Vec<String>, path: &str) -> (r: bool)
    ensures
        r == under_any(texts(paths@), path@),
{
    let mut i: usize = 0;
    while i < paths.len()
        invariant
            i <= paths@.len(),
            forall|j: int| 0 <= j < i ==> !under(path@, #[trigger] texts(paths@)[j]),
        decreases paths@.len() - i,
    {
        if is_under(path, paths[i].as_str()) {
            assert(under(path@, texts(paths@)[i as int]));
            return true;
        }
        i += 1;
    }
    false
}

/// Whether two lists hold the same strings in the same order.
fn same_texts(a: &Vec<String>, b: &Vec<String>) -> (r: bool)
    ensures
        r == (texts(a@) == texts(b@)),
{
    if a.len() != b.len() {
        assert(texts(a@).len() != texts(b@).len());
        return false;
    }
    let mut i: usize = 0;
    while i < a.len()
        invariant
            i <= a@.len(),
            a@.len() == b@.len(),
            forall|j: int| 0 <= j < i ==> #[trigger] texts(a@)[j] == texts(b@)[j],
        decreases a@.len() - i,
    {
        if !same_text(a[i].as_str(), b[i].as_str()) {
            assert(texts(a@)[i as int] != texts(b@)[i as int]);
            return false;
        }
        i += 1;
    }
    assert(texts(a@) =~= texts(b@));
    true
}

/// Whether some path is covered by the list, or, when `wanted` is false, is
/// not.
fn any_covered(list: &Vec<String>, paths: &Vec<String>, wanted: bool) -> (r: bool)
    ensures
        r == exists|i: int|
            0 <= i < paths@.len() && wanted == under_any(
                texts(list@),
                #[trigger] texts(paths@)[i],
            ),
{
    let mut i: usize = 0;
    while i < paths.len()
        invariant
            i <= paths@.len(),
            forall|j: int|
                0 <= j < i ==> wanted != under_any(texts(list@), #[trigger] texts(paths@)[j]),
        decreases paths@.len() - i,
    {
        if covered(list, paths[i].as_str()) == wanted {
            assert(wanted == under_any(texts(list@), texts(paths@)[i as int]));
            return true;
        }
        i += 1;
    }
    false
}

impl FieldMaskTest {
    /// Whether the paths of a mask break the rule.
    pub fn fails(&self, paths: &Vec<String>) -> (r: bool)
        ensures
            r == self@.broken_by(texts(paths@)),
    {
        match self {
            FieldMaskTest::Const(c) => !same_texts(paths, c),
            FieldMaskTest::In(list) => any_covered(list, paths, false),
            FieldMaskTest::NotIn(list) => any_covered(list, paths, true),
        }
    }
}

/// A list element as `unique()` compares it: by type and value, with
/// signed zeros equal and NaN never equal to anything.
#[derive(Clone, Copy, Debug)]
pub enum UniqueKey<'a> {
    Bool(bool),
    Int(i64),
    Uint(u64),
    Double(u64),
    Str(&'a str),
    Bytes(&'a [u8]),
}

/// What a [`UniqueKey`] holds.
pub enum UniqueKeyV {
    Bool(bool),
    Int(i64),
    Uint(u64),
    Double(u64),
    Str(Seq<char>),
    Bytes(Seq<u8>),
}

impl<'a> View for UniqueKey<'a> {
    type V = UniqueKeyV;

    open spec fn view(&self) -> UniqueKeyV {
        match *self {
            UniqueKey::Bool(b) => UniqueKeyV::Bool(b),
            UniqueKey::Int(i) => UniqueKeyV::Int(i),
            UniqueKey::Uint(u) => UniqueKeyV::Uint(u),
            UniqueKey::Double(bits) => UniqueKeyV::Double(bits),
            UniqueKey::Str(s) => UniqueKeyV::Str(s@),
            UniqueKey::Bytes(b) => UniqueKeyV::Bytes(b@),
        }
    }
}

/// What an optional key holds.
pub open spec fn key_of<'a>(key: Option<UniqueKey<'a>>) -> Option<UniqueKeyV> {
    match key {
        Some(key) => Some(key@),
        None => None,
    }
}

/// What optional keys hold.
pub open spec fn keys_of<'a>(keys: Seq<Option<UniqueKey<'a>>>) -> Seq<Option<UniqueKeyV>> {
    keys.map_values(|key: Option<UniqueKey<'a>>| key_of(key))
}

/// The key of a double; none for NaN, which duplicates nothing.
pub open spec fn double_key(value: Double) -> Option<UniqueKeyV> {
    if value.spec_nan() {
        None
    } else if value.position() == 0 {
        Some(UniqueKeyV::Double(0))
    } else {
        Some(UniqueKeyV::Double(value.bits))
    }
}

/// The key of a value; messages, lists and maps have none.
pub open spec fn value_key<E>(value: ValV<E>) -> Option<UniqueKeyV> {
    match value {
        ValV::Bool(b) => Some(UniqueKeyV::Bool(b)),
        ValV::Int(i) => Some(UniqueKeyV::Int(i)),
        ValV::Enum(e) => Some(UniqueKeyV::Int(e as i64)),
        ValV::Uint(u) => Some(UniqueKeyV::Uint(u)),
        ValV::Double(f) => double_key(f),
        ValV::String(s) => Some(UniqueKeyV::Str(s)),
        ValV::Bytes(b) => Some(UniqueKeyV::Bytes(b)),
        _ => None,
    }
}

/// Whether any key occurs twice; elements without a key never do.
pub open spec fn duplicated(keys: Seq<Option<UniqueKeyV>>) -> bool {
    exists|i: int, j: int|
        0 <= i < j < keys.len() && #[trigger] keys[i] is Some && keys[i] == #[trigger] keys[j]
}

impl<'a> UniqueKey<'a> {
    /// The key of a double; `None` for NaN, which duplicates nothing.
    pub fn double(value: Double) -> (r: Option<UniqueKey<'a>>)
        ensures
            key_of(r) == double_key(value),
    {
        if value.is_nan() {
            return None;
        }
        Some(
            UniqueKey::Double(
                if value.is_zero() {
                    0
                } else {
                    value.bits
                },
            ),
        )
    }

    /// Whether the two keys are the same.
    fn is(&self, other: &UniqueKey<'_>) -> (r: bool)
        ensures
            r == (self@ == other@),
    {
        match (self, other) {
            (UniqueKey::Bool(a), UniqueKey::Bool(b)) => *a == *b,
            (UniqueKey::Int(a), UniqueKey::Int(b)) => *a == *b,
            (UniqueKey::Uint(a), UniqueKey::Uint(b)) => *a == *b,
            (UniqueKey::Double(a), UniqueKey::Double(b)) => *a == *b,
            (UniqueKey::Str(a), UniqueKey::Str(b)) => same_text(a, b),
            (UniqueKey::Bytes(a), UniqueKey::Bytes(b)) => same_bytes(a, b),
            _ => false,
        }
    }
}

/// The key of a value; messages, lists and maps have none.
pub fn unique_key<'a, R: Runtime>(value: &'a Val<R>) -> (r: Option<UniqueKey<'a>>)
    ensures
        key_of(r) == value_key(val::<R>(*value)),
{
    proof {
        shapes::<R>();
    }
    match value {
        Val::Bool(b) => Some(UniqueKey::Bool(*b)),
        Val::Int(i) => Some(UniqueKey::Int(*i)),
        Val::Enum(e) => Some(UniqueKey::Int(*e as i64)),
        Val::Uint(u) => Some(UniqueKey::Uint(*u)),
        Val::Double(f) => UniqueKey::double(*f),
        Val::String(s) => Some(UniqueKey::Str(s.as_str())),
        Val::Bytes(b) => Some(UniqueKey::Bytes(b.as_slice())),
        Val::Message(_) | Val::List(_) | Val::Mapping(_) => None,
    }
}

/// Whether any key occurs twice; elements without a key never do.
pub fn has_duplicates<'a>(keys: &Vec<Option<UniqueKey<'a>>>) -> (r: bool)
    ensures
        r == duplicated(keys_of(keys@)),
{
    let ghost held = keys_of(keys@);
    let mut j: usize = 0;
    while j < keys.len()
        invariant
            j <= keys@.len(),
            held == keys_of(keys@),
            forall|a: int, b: int|
                0 <= a < b < j ==> !(#[trigger] held[a] is Some && held[a] == #[trigger] held[b]),
        decreases keys@.len() - j,
    {
        match &keys[j] {
            Some(key) => {
                let mut i: usize = 0;
                while i < j
                    invariant
                        i <= j < keys@.len(),
                        held == keys_of(keys@),
                        held[j as int] == Some(key@),
                        forall|a: int| 0 <= a < i ==> #[trigger] held[a] != held[j as int],
                    decreases j - i,
                {
                    assert(held[i as int] == key_of(keys@[i as int]));
                    match &keys[i] {
                        Some(earlier) => {
                            if earlier.is(key) {
                                assert(held[i as int] == held[j as int]);
                                return true;
                            }
                        },
                        None => {},
                    }
                    i += 1;
                }
            },
            None => {
                assert(held[j as int] is None);
            },
        }
        j += 1;
    }
    false
}

} // verus!
