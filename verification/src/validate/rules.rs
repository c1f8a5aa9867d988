//! The rules that `buf.validate` options set on messages, fields and oneofs.

use super::Type;
use crate::double::Double;
use vstd::prelude::*;

verus! {

/// A value, and its text in messages.
#[derive(Debug)]
pub struct Shown<T> {
    pub value: T,
    pub text: String,
}

/// A `google.protobuf.Duration` or `Timestamp` of a rule.
#[derive(Clone, Copy, Debug)]
pub struct Moment {
    pub seconds: i64,
    pub nanos: i32,
}

/// The upper bound of a comparison rule.
#[derive(Debug)]
pub enum LessThan<T> {
    Lt(T),
    Lte(T),
}

/// The lower bound of a comparison rule.
#[derive(Debug)]
pub enum GreaterThan<T> {
    Gt(T),
    Gte(T),
}

/// The comparison rules of a numeric or duration rules message.
#[derive(Debug)]
pub struct NumericRules<T> {
    pub constant: Option<T>,
    pub less_than: Option<LessThan<T>>,
    pub greater_than: Option<GreaterThan<T>>,
    pub in_list: Vec<T>,
    pub not_in: Vec<T>,
}

/// `FloatRules` and `DoubleRules`.
#[derive(Debug)]
pub struct FloatingRules {
    pub bounds: NumericRules<Shown<Double>>,
    pub finite: Option<bool>,
}

/// The upper bound of `TimestampRules`.
#[derive(Debug)]
pub enum TimestampLessThan {
    Lt(Shown<Moment>),
    Lte(Shown<Moment>),
    LtNow(bool),
}

/// The lower bound of `TimestampRules`.
#[derive(Debug)]
pub enum TimestampGreaterThan {
    Gt(Shown<Moment>),
    Gte(Shown<Moment>),
    GtNow(bool),
}

/// `TimestampRules`.
#[derive(Debug)]
pub struct TimestampRules {
    pub constant: Option<Shown<Moment>>,
    pub less_than: Option<TimestampLessThan>,
    pub greater_than: Option<TimestampGreaterThan>,
    pub within: Option<Shown<Moment>>,
}

/// `BoolRules`.
#[derive(Debug)]
pub struct BoolRules {
    pub constant: Option<bool>,
}

/// `EnumRules`.
#[derive(Debug)]
pub struct EnumRules {
    pub constant: Option<i32>,
    pub defined_only: Option<bool>,
    pub in_list: Vec<i32>,
    pub not_in: Vec<i32>,
}

/// A `KnownRegex`.
#[derive(Clone, Copy, Debug, PartialEq, Eq, Structural)]
pub enum KnownRegex {
    Unspecified,
    HttpHeaderName,
    HttpHeaderValue,
}

/// The `well_known` rule of `StringRules`.
#[derive(Clone, Copy, Debug, PartialEq, Eq, Structural)]
pub enum StringFormat {
    Email(bool),
    Hostname(bool),
    Ip(bool),
    Ipv4(bool),
    Ipv6(bool),
    Uri(bool),
    UriRef(bool),
    Address(bool),
    Uuid(bool),
    Tuuid(bool),
    IpWithPrefixlen(bool),
    Ipv4WithPrefixlen(bool),
    Ipv6WithPrefixlen(bool),
    IpPrefix(bool),
    Ipv4Prefix(bool),
    Ipv6Prefix(bool),
    HostAndPort(bool),
    Ulid(bool),
    ProtobufFqn(bool),
    ProtobufDotFqn(bool),
    WellKnownRegex(KnownRegex),
}

/// `StringRules`.
#[derive(Debug)]
pub struct StringRules {
    pub constant: Option<String>,
    pub len: Option<u64>,
    pub min_len: Option<u64>,
    pub max_len: Option<u64>,
    pub len_bytes: Option<u64>,
    pub min_bytes: Option<u64>,
    pub max_bytes: Option<u64>,
    pub pattern: Option<String>,
    pub prefix: Option<String>,
    pub suffix: Option<String>,
    pub contains: Option<String>,
    pub not_contains: Option<String>,
    pub in_list: Vec<String>,
    pub not_in: Vec<String>,
    pub well_known: Option<StringFormat>,
    pub strict: Option<bool>,
}

/// The `well_known` rule of `BytesRules`.
#[derive(Clone, Copy, Debug, PartialEq, Eq, Structural)]
pub enum BytesFormat {
    Ip(bool),
    Ipv4(bool),
    Ipv6(bool),
    Uuid(bool),
}

/// `BytesRules`.
#[derive(Debug)]
pub struct BytesRules {
    pub constant: Option<Vec<u8>>,
    pub len: Option<u64>,
    pub min_len: Option<u64>,
    pub max_len: Option<u64>,
    pub pattern: Option<String>,
    pub prefix: Option<Vec<u8>>,
    pub suffix: Option<Vec<u8>>,
    pub contains: Option<Vec<u8>>,
    pub in_list: Vec<Shown<Vec<u8>>>,
    pub not_in: Vec<Shown<Vec<u8>>>,
    pub well_known: Option<BytesFormat>,
}

/// `RepeatedRules`.
#[derive(Debug)]
pub struct RepeatedRules {
    pub min_items: Option<u64>,
    pub max_items: Option<u64>,
    pub unique: Option<bool>,
    pub items: Option<Box<FieldRules>>,
}

/// `MapRules`.
#[derive(Debug)]
pub struct MapRules {
    pub min_pairs: Option<u64>,
    pub max_pairs: Option<u64>,
    pub keys: Option<Box<FieldRules>>,
    pub values: Option<Box<FieldRules>>,
}

/// `AnyRules`.
#[derive(Debug)]
pub struct AnyRules {
    pub in_list: Vec<String>,
    pub not_in: Vec<String>,
}

/// `FieldMaskRules`.
#[derive(Debug)]
pub struct FieldMaskRules {
    /// The paths of the mask.
    pub constant: Option<Vec<String>>,
    pub in_list: Vec<String>,
    pub not_in: Vec<String>,
}

/// The standard rules of one type.
#[derive(Debug)]
pub enum RulesType {
    Float(FloatingRules),
    Double(FloatingRules),
    Int32(NumericRules<i32>),
    Int64(NumericRules<i64>),
    Uint32(NumericRules<u32>),
    Uint64(NumericRules<u64>),
    Sint32(NumericRules<i32>),
    Sint64(NumericRules<i64>),
    Fixed32(NumericRules<u32>),
    Fixed64(NumericRules<u64>),
    Sfixed32(NumericRules<i32>),
    Sfixed64(NumericRules<i64>),
    Bool(BoolRules),
    String(StringRules),
    Bytes(BytesRules),
    Enum(EnumRules),
    Repeated(RepeatedRules),
    Mapping(MapRules),
    Any(AnyRules),
    Duration(NumericRules<Shown<Moment>>),
    FieldMask(FieldMaskRules),
    Timestamp(TimestampRules),
}

/// A CEL rule.
#[derive(Debug)]
pub struct Rule {
    pub id: Option<String>,
    pub message: Option<String>,
    pub expression: Option<String>,
}

/// A standard rules message.
#[derive(Debug)]
pub struct StandardRules {
    pub rules: RulesType,
    /// Its serialized form, extensions and all: the rule fields that are set
    /// are found in it, and what they are set to in `rules`.
    pub bytes: Vec<u8>,
}

/// When a field's rules are left out.
#[derive(Clone, Copy, Debug, PartialEq, Eq, Structural)]
pub enum Ignore {
    Unspecified,
    IfZeroValue,
    Always,
}

/// The rules of a field, or of the elements, keys or values of one.
#[derive(Debug)]
pub struct FieldRules {
    pub required: Option<bool>,
    pub ignore: Option<Ignore>,
    pub cel_expression: Vec<String>,
    pub cel: Vec<Rule>,
    pub standard: Option<StandardRules>,
}

/// A `(buf.validate.message).oneof` rule, by the names of its fields.
#[derive(Debug)]
pub struct MessageOneofRule {
    pub fields: Vec<String>,
    pub required: Option<bool>,
}

/// The rules of a message.
#[derive(Debug)]
pub struct MessageRules {
    pub cel_expression: Vec<String>,
    pub cel: Vec<Rule>,
    pub oneof: Vec<MessageOneofRule>,
}

/// The rules of a oneof declaration.
#[derive(Debug)]
pub struct OneofRules {
    pub required: Option<bool>,
}

/// The rules of one field of a message type.
#[derive(Debug)]
pub struct FieldOptions {
    pub number: u32,
    pub rules: FieldRules,
}

/// The rules of one oneof of a message type.
#[derive(Debug)]
pub struct OneofOptions {
    pub name: String,
    pub rules: OneofRules,
}

/// The `buf.validate` options of a message type, its fields and its oneofs.
#[derive(Debug)]
pub struct TypeOptions {
    pub full_name: String,
    pub message: Option<MessageRules>,
    pub fields: Vec<FieldOptions>,
    pub oneofs: Vec<OneofOptions>,
}

/// An extension field of a standard rules message, and the rules it is
/// predefined as; none when it is no rule.
#[derive(Debug)]
pub struct ExtensionRule {
    /// The full name of the rules message.
    pub extendee: String,
    pub full_name: String,
    pub number: u32,
    pub ty: Type,
    pub predefined: Option<Vec<Rule>>,
}

} // verus!
