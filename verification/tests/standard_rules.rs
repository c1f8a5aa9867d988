//! The standard rules: their ids, messages, and what breaks them.

use protovalidate::double::Double;
use protovalidate::protobuf::memory::{Memory, Record, Slot, Value};
use protovalidate::protobuf::{Key, Val};
use protovalidate::rules::standard::build::{checks, Native};
use protovalidate::rules::standard::order::{now, time_from_clock, Timestamp};
use protovalidate::rules::standard::wellknown::{Format, FormatTable};
use protovalidate::validate::rules::{
    AnyRules, BoolRules, BytesFormat, BytesRules, EnumRules, FieldMaskRules, FloatingRules,
    GreaterThan, KnownRegex, LessThan, MapRules, Moment, NumericRules, RepeatedRules, RulesType,
    Shown, StringFormat, StringRules, TimestampGreaterThan, TimestampLessThan, TimestampRules,
};
use protovalidate::Error;
use std::rc::Rc;

fn no_formats() -> FormatTable {
    FormatTable { accepted: vec![] }
}

fn built(prefix: &str, rules: &RulesType, number: u32) -> Vec<Native> {
    match checks::<String>(prefix, rules, number) {
        Ok(natives) => natives,
        Err(error) => panic!("{:?}", error),
    }
}

fn one(prefix: &str, rules: &RulesType, number: u32) -> Native {
    let mut natives = built(prefix, rules, number);
    assert_eq!(natives.len(), 1);
    natives.remove(0)
}

fn none(prefix: &str, rules: &RulesType, number: u32) {
    assert!(built(prefix, rules, number).is_empty());
}

fn says(native: &Native, id: &str, message: &str) {
    assert_eq!(native.id, id);
    assert_eq!(native.message, message);
}

fn breaks_at(native: &Native, value: Option<Val<Memory>>, formats: &FormatTable, now: i128) -> bool {
    match native
        .test
        .fails::<Memory, FormatTable>(value.as_ref(), formats, Timestamp(now))
    {
        Ok(broken) => broken,
        Err(error) => panic!("{:?}", error),
    }
}

fn breaks(native: &Native, value: Val<Memory>) -> bool {
    breaks_at(native, Some(value), &no_formats(), 0)
}

fn text(s: &str) -> Val<Memory> {
    Val::String(s.to_owned())
}

fn double(value: f64) -> Double {
    Double { bits: value.to_bits() }
}

fn shown(value: f64) -> Shown<Double> {
    Shown {
        value: double(value),
        text: format!("{}", value),
    }
}

fn numbers<T>() -> NumericRules<T> {
    NumericRules {
        constant: None,
        less_than: None,
        greater_than: None,
        in_list: vec![],
        not_in: vec![],
    }
}

fn strings() -> StringRules {
    StringRules {
        constant: None,
        len: None,
        min_len: None,
        max_len: None,
        len_bytes: None,
        min_bytes: None,
        max_bytes: None,
        pattern: None,
        prefix: None,
        suffix: None,
        contains: None,
        not_contains: None,
        in_list: vec![],
        not_in: vec![],
        well_known: None,
        strict: None,
    }
}

fn bytes() -> BytesRules {
    BytesRules {
        constant: None,
        len: None,
        min_len: None,
        max_len: None,
        pattern: None,
        prefix: None,
        suffix: None,
        contains: None,
        in_list: vec![],
        not_in: vec![],
        well_known: None,
    }
}

fn words(list: &[&str]) -> Vec<String> {
    list.iter().map(|s| (*s).to_owned()).collect()
}

fn span(seconds: i64, nanos: i32) -> Val<Memory> {
    Val::Message(Rc::new(Record {
        fields: vec![
            Slot {
                number: 1,
                set: true,
                value: Value::Int(seconds),
            },
            Slot {
                number: 2,
                set: true,
                value: Value::Int(i64::from(nanos)),
            },
        ],
        encoded: vec![],
    }))
}

fn moment(seconds: i64, nanos: i32, text: &str) -> Shown<Moment> {
    Shown {
        value: Moment { seconds, nanos },
        text: text.to_owned(),
    }
}

#[test]
fn constant_numbers() {
    let rules = RulesType::Int32(NumericRules {
        constant: Some(-7),
        ..numbers()
    });
    let native = one("int32", &rules, 1);
    says(&native, "int32.const", "must equal -7");
    assert!(!breaks(&native, Val::Int(-7)));
    assert!(breaks(&native, Val::Int(7)));
    // A field the message does not have reads as zero.
    assert!(breaks_at(&native, None, &no_formats(), 0));
    none("int32", &rules, 2);
    none("int32", &rules, 8);
}

#[test]
fn a_bound_on_one_side() {
    let below = RulesType::Uint64(NumericRules {
        less_than: Some(LessThan::Lt(10)),
        ..numbers()
    });
    let native = one("uint64", &below, 2);
    says(&native, "uint64.lt", "must be less than 10");
    assert!(!breaks(&native, Val::Uint(9)));
    assert!(breaks(&native, Val::Uint(10)));
    none("uint64", &below, 3);

    let at_most = RulesType::Uint32(NumericRules {
        less_than: Some(LessThan::Lte(10)),
        ..numbers()
    });
    let native = one("uint32", &at_most, 3);
    says(&native, "uint32.lte", "must be less than or equal to 10");
    assert!(!breaks(&native, Val::Uint(10)));
    assert!(breaks(&native, Val::Uint(11)));

    let above = RulesType::Sint64(NumericRules {
        greater_than: Some(GreaterThan::Gt(-1)),
        ..numbers()
    });
    let native = one("sint64", &above, 4);
    says(&native, "sint64.gt", "must be greater than -1");
    assert!(!breaks(&native, Val::Int(0)));
    assert!(breaks(&native, Val::Int(-1)));

    let at_least = RulesType::Sfixed32(NumericRules {
        greater_than: Some(GreaterThan::Gte(3)),
        ..numbers()
    });
    let native = one("sfixed32", &at_least, 5);
    says(&native, "sfixed32.gte", "must be greater than or equal to 3");
    assert!(!breaks(&native, Val::Int(3)));
    assert!(breaks(&native, Val::Int(2)));
}

#[test]
fn range_is_both_bounds() {
    let rules = RulesType::Int64(NumericRules {
        less_than: Some(LessThan::Lt(5)),
        greater_than: Some(GreaterThan::Gt(0)),
        ..numbers()
    });
    // The upper bound defers to the lower, which spells out the range.
    none("int64", &rules, 2);
    let native = one("int64", &rules, 4);
    says(
        &native,
        "int64.gt_lt",
        "must be greater than 0 and less than 5",
    );
    for (value, broken) in [(0, true), (1, false), (4, false), (5, true)] {
        assert_eq!(breaks(&native, Val::Int(value)), broken);
    }

    let rules = RulesType::Int64(NumericRules {
        less_than: Some(LessThan::Lte(5)),
        greater_than: Some(GreaterThan::Gt(0)),
        ..numbers()
    });
    none("int64", &rules, 3);
    let native = one("int64", &rules, 4);
    says(
        &native,
        "int64.gt_lte",
        "must be greater than 0 and less than or equal to 5",
    );
    assert!(!breaks(&native, Val::Int(5)));

    let rules = RulesType::Int64(NumericRules {
        less_than: Some(LessThan::Lt(5)),
        greater_than: Some(GreaterThan::Gte(0)),
        ..numbers()
    });
    let native = one("int64", &rules, 5);
    says(
        &native,
        "int64.gte_lt",
        "must be greater than or equal to 0 and less than 5",
    );
    assert!(!breaks(&native, Val::Int(0)));
    assert!(breaks(&native, Val::Int(5)));

    // Equal bounds are in order.
    let rules = RulesType::Int64(NumericRules {
        less_than: Some(LessThan::Lte(5)),
        greater_than: Some(GreaterThan::Gte(5)),
        ..numbers()
    });
    let native = one("int64", &rules, 5);
    says(
        &native,
        "int64.gte_lte",
        "must be greater than or equal to 5 and less than or equal to 5",
    );
    assert!(!breaks(&native, Val::Int(5)));
    assert!(breaks(&native, Val::Int(4)));
}

#[test]
fn bounds_out_of_order_are_exclusive() {
    let rules = RulesType::Fixed32(NumericRules {
        less_than: Some(LessThan::Lt(1)),
        greater_than: Some(GreaterThan::Gt(5)),
        ..numbers()
    });
    let native = one("fixed32", &rules, 4);
    says(
        &native,
        "fixed32.gt_lt_exclusive",
        "must be greater than 5 or less than 1",
    );
    for (value, broken) in [(0, false), (1, true), (5, true), (6, false)] {
        assert_eq!(breaks(&native, Val::Uint(value)), broken);
    }

    let rules = RulesType::Fixed64(NumericRules {
        less_than: Some(LessThan::Lte(1)),
        greater_than: Some(GreaterThan::Gt(5)),
        ..numbers()
    });
    let native = one("fixed64", &rules, 4);
    says(
        &native,
        "fixed64.gt_lte_exclusive",
        "must be greater than 5 or less than or equal to 1",
    );
    assert!(!breaks(&native, Val::Uint(1)));
    assert!(breaks(&native, Val::Uint(5)));

    let rules = RulesType::Sint32(NumericRules {
        less_than: Some(LessThan::Lt(1)),
        greater_than: Some(GreaterThan::Gte(5)),
        ..numbers()
    });
    let native = one("sint32", &rules, 5);
    says(
        &native,
        "sint32.gte_lt_exclusive",
        "must be greater than or equal to 5 or less than 1",
    );
    assert!(!breaks(&native, Val::Int(5)));
    assert!(breaks(&native, Val::Int(1)));

    let rules = RulesType::Sfixed64(NumericRules {
        less_than: Some(LessThan::Lte(1)),
        greater_than: Some(GreaterThan::Gte(5)),
        ..numbers()
    });
    let native = one("sfixed64", &rules, 5);
    says(
        &native,
        "sfixed64.gte_lte_exclusive",
        "must be greater than or equal to 5 or less than or equal to 1",
    );
    assert!(!breaks(&native, Val::Int(1)));
    assert!(breaks(&native, Val::Int(2)));
}

#[test]
fn lists_of_numbers() {
    let rules = RulesType::Int32(NumericRules {
        in_list: vec![1, -2, 3],
        not_in: vec![4],
        ..numbers()
    });
    let native = one("int32", &rules, 6);
    says(&native, "int32.in", "must be in list [1, -2, 3]");
    assert!(!breaks(&native, Val::Int(-2)));
    assert!(breaks(&native, Val::Int(2)));
    let native = one("int32", &rules, 7);
    says(&native, "int32.not_in", "must not be in list [4]");
    assert!(!breaks(&native, Val::Int(1)));
    assert!(breaks(&native, Val::Int(4)));
}

#[test]
fn nan_breaks_all_but_not_in() {
    let nan = || Val::Double(double(f64::NAN));
    let rules = RulesType::Double(FloatingRules {
        bounds: NumericRules {
            constant: Some(shown(1.5)),
            less_than: Some(LessThan::Lt(shown(2.0))),
            in_list: vec![shown(1.0)],
            not_in: vec![shown(1.0), shown(f64::NAN)],
            ..numbers()
        },
        finite: Some(true),
    });
    let constant = one("double", &rules, 1);
    says(&constant, "double.const", "must equal 1.5");
    assert!(!breaks(&constant, Val::Double(double(1.5))));
    assert!(breaks(&constant, nan()));
    let lt = one("double", &rules, 2);
    assert!(breaks(&lt, nan()));
    assert!(!breaks(&lt, Val::Double(double(f64::NEG_INFINITY))));
    let in_list = one("double", &rules, 6);
    assert!(breaks(&in_list, nan()));
    let not_in = one("double", &rules, 7);
    says(&not_in, "double.not_in", "must not be in list [1, NaN]");
    assert!(!breaks(&not_in, nan()));
    assert!(breaks(&not_in, Val::Double(double(1.0))));
    let finite = one("double", &rules, 8);
    says(&finite, "double.finite", "must be finite");
    assert!(breaks(&finite, nan()));
    assert!(breaks(&finite, Val::Double(double(f64::INFINITY))));
    assert!(!breaks(&finite, Val::Double(double(-0.0))));

    // The two zeros are one number.
    let rules = RulesType::Float(FloatingRules {
        bounds: NumericRules {
            constant: Some(shown(0.0)),
            ..numbers()
        },
        finite: Some(false),
    });
    let constant = one("float", &rules, 1);
    assert!(!breaks(&constant, Val::Double(double(-0.0))));
    none("float", &rules, 8);

    // An unordered bound: neither a range nor its complement.
    let rules = RulesType::Float(FloatingRules {
        bounds: NumericRules {
            less_than: Some(LessThan::Lt(shown(f64::NAN))),
            greater_than: Some(GreaterThan::Gt(shown(0.0))),
            ..numbers()
        },
        finite: None,
    });
    none("float", &rules, 4);
    none("float", &rules, 2);
}

#[test]
fn truths_and_enums() {
    let rules = RulesType::Bool(BoolRules {
        constant: Some(true),
    });
    let native = one("bool", &rules, 1);
    says(&native, "bool.const", "must equal true");
    assert!(breaks(&native, Val::Bool(false)));
    assert!(!breaks(&native, Val::Bool(true)));
    none("bool", &rules, 2);

    let rules = RulesType::Enum(EnumRules {
        constant: Some(2),
        defined_only: Some(true),
        in_list: vec![1, 2],
        not_in: vec![0],
    });
    let native = one("enum", &rules, 1);
    says(&native, "enum.const", "must equal 2");
    assert!(breaks(&native, Val::Enum(1)));
    assert!(!breaks(&native, Val::Enum(2)));
    none("enum", &rules, 2);
    let native = one("enum", &rules, 3);
    says(&native, "enum.in", "must be in list [1, 2]");
    assert!(breaks(&native, Val::Enum(3)));
    let native = one("enum", &rules, 4);
    says(&native, "enum.not_in", "must not be in list [0]");
    assert!(breaks(&native, Val::Enum(0)));
}

#[test]
fn lengths_of_strings() {
    let rules = RulesType::String(StringRules {
        constant: Some("é".to_owned()),
        len: Some(2),
        min_len: Some(2),
        max_len: Some(2),
        len_bytes: Some(4),
        min_bytes: Some(4),
        max_bytes: Some(4),
        ..strings()
    });
    let native = one("string", &rules, 1);
    says(&native, "string.const", "must equal `é`");
    assert!(!breaks(&native, text("é")));
    assert!(breaks(&native, text("e")));
    // Characters are code points; bytes are those of UTF-8.
    let cases = [
        (2, "string.min_len", "must be at least 2 characters", [true, false, false]),
        (3, "string.max_len", "must be at most 2 characters", [false, false, true]),
        (4, "string.min_bytes", "must be at least 4 bytes", [true, false, false]),
        (5, "string.max_bytes", "must be at most 4 bytes", [false, false, true]),
        (19, "string.len", "must be 2 characters", [true, false, true]),
        (20, "string.len_bytes", "must be 4 bytes", [true, false, true]),
    ];
    for (number, id, message, broken) in cases {
        let native = one("string", &rules, number);
        says(&native, id, message);
        for (value, broken) in ["é", "éé", "ééé"].iter().zip(broken) {
            assert_eq!(breaks(&native, text(value)), broken, "{} {}", id, value);
        }
    }
}

#[test]
fn parts_of_strings() {
    let rules = RulesType::String(StringRules {
        prefix: Some("ab".to_owned()),
        suffix: Some("yz".to_owned()),
        contains: Some("mn".to_owned()),
        not_contains: Some("--".to_owned()),
        in_list: words(&["a", "b"]),
        not_in: words(&["c"]),
        ..strings()
    });
    let native = one("string", &rules, 7);
    says(&native, "string.prefix", "does not have prefix `ab`");
    assert!(!breaks(&native, text("abc")));
    assert!(breaks(&native, text("bab")));
    let native = one("string", &rules, 8);
    says(&native, "string.suffix", "does not have suffix `yz`");
    assert!(!breaks(&native, text("xyz")));
    assert!(breaks(&native, text("yzx")));
    let native = one("string", &rules, 9);
    says(&native, "string.contains", "does not contain substring `mn`");
    assert!(!breaks(&native, text("amnz")));
    assert!(breaks(&native, text("m-n")));
    let native = one("string", &rules, 23);
    says(&native, "string.not_contains", "contains substring `--`");
    assert!(!breaks(&native, text("a-b")));
    assert!(breaks(&native, text("a--b")));
    let native = one("string", &rules, 10);
    says(&native, "string.in", "must be in list [a, b]");
    assert!(!breaks(&native, text("b")));
    assert!(breaks(&native, text("ab")));
    let native = one("string", &rules, 11);
    says(&native, "string.not_in", "must not be in list [c]");
    assert!(breaks(&native, text("c")));
    // Rules that are not set compare with nothing.
    let native = one("string", &RulesType::String(strings()), 7);
    says(&native, "string.prefix", "does not have prefix ``");
    assert!(!breaks(&native, text("anything")));
}

#[test]
fn patterns() {
    let rules = RulesType::String(StringRules {
        pattern: Some("^[a-z]+$".to_owned()),
        ..strings()
    });
    let native = one("string", &rules, 6);
    says(
        &native,
        "string.pattern",
        "does not match regex pattern `^[a-z]+$`",
    );
    assert!(!breaks(&native, text("abc")));
    assert!(breaks(&native, text("aBc")));
    assert!(breaks(&native, text("^[a-z]+$")));

    let rules = RulesType::Bytes(BytesRules {
        pattern: Some("^é$".to_owned()),
        ..bytes()
    });
    let native = one("bytes", &rules, 4);
    says(&native, "bytes.pattern", "must match regex pattern `^é$`");
    assert!(!breaks(&native, Val::Bytes("é".as_bytes().to_vec())));
    assert!(breaks(&native, Val::Bytes(b"e".to_vec())));
    // Bytes that are not UTF-8 cannot be matched.
    let result = native.test.fails::<Memory, FormatTable>(
        Some(&Val::Bytes(vec![0xff])),
        &no_formats(),
        Timestamp(0),
    );
    assert!(matches!(result, Err(Error::Evaluation(_))));
}

#[test]
fn patterns_that_do_not_compile() {
    let rules = RulesType::String(StringRules {
        pattern: Some("(".to_owned()),
        ..strings()
    });
    match checks::<String>("string", &rules, 6) {
        Err(Error::Compilation(message)) => {
            assert!(message.starts_with("invalid regex pattern `(`: "));
            assert!(message.len() > "invalid regex pattern `(`: ".len());
        }
        _ => panic!(),
    }
}

#[test]
fn formats_of_strings() {
    let formats = FormatTable {
        accepted: vec![(Format::Email, "a@b.c".to_owned())],
    };
    let rules = RulesType::String(StringRules {
        well_known: Some(StringFormat::Email(true)),
        ..strings()
    });
    let natives = built("string", &rules, 12);
    assert_eq!(natives.len(), 2);
    says(
        &natives[0],
        "string.email",
        "must be a valid email address",
    );
    says(
        &natives[1],
        "string.email_empty",
        "value is empty, which is not a valid email address",
    );
    assert!(!breaks_at(&natives[0], Some(text("a@b.c")), &formats, 0));
    assert!(breaks_at(&natives[0], Some(text("a")), &formats, 0));
    // The format lets an empty string through, and its companion reports it.
    assert!(!breaks_at(&natives[0], Some(text("")), &formats, 0));
    assert!(breaks_at(&natives[1], Some(text("")), &formats, 0));
    assert!(!breaks_at(&natives[1], Some(text("a")), &formats, 0));
    // The regex rule is another field.
    none("string", &rules, 24);

    let off = RulesType::String(StringRules {
        well_known: Some(StringFormat::Email(false)),
        ..strings()
    });
    none("string", &off, 12);
}

#[test]
fn formats_without_an_empty_companion() {
    let rules = RulesType::String(StringRules {
        well_known: Some(StringFormat::UriRef(true)),
        ..strings()
    });
    let native = one("string", &rules, 18);
    says(&native, "string.uri_ref", "must be a valid URI Reference");
    // An empty reference is a reference, if the format says so.
    assert!(breaks(&native, text("")));
    let formats = FormatTable {
        accepted: vec![(Format::UriRef, String::new())],
    };
    assert!(!breaks_at(&native, Some(text("")), &formats, 0));
}

#[test]
fn addresses_are_hostnames_or_ips() {
    let formats = FormatTable {
        accepted: vec![
            (Format::Hostname, "host".to_owned()),
            (Format::Ip, "::1".to_owned()),
        ],
    };
    let rules = RulesType::String(StringRules {
        well_known: Some(StringFormat::Address(true)),
        ..strings()
    });
    let natives = built("string", &rules, 21);
    says(
        &natives[0],
        "string.address",
        "must be a valid hostname, or ip address",
    );
    assert!(!breaks_at(&natives[0], Some(text("host")), &formats, 0));
    assert!(!breaks_at(&natives[0], Some(text("::1")), &formats, 0));
    assert!(breaks_at(&natives[0], Some(text("no")), &formats, 0));
}

#[test]
fn hosts_and_ports() {
    let formats = FormatTable {
        accepted: vec![
            (
                Format::HostAndPort {
                    port_required: true,
                },
                "h:1".to_owned(),
            ),
            (
                Format::HostAndPort {
                    port_required: false,
                },
                "h".to_owned(),
            ),
        ],
    };
    let rules = RulesType::String(StringRules {
        well_known: Some(StringFormat::HostAndPort(true)),
        ..strings()
    });
    let natives = built("string", &rules, 32);
    says(
        &natives[0],
        "string.host_and_port",
        "must be a valid host (hostname or IP address) and port pair",
    );
    says(
        &natives[1],
        "string.host_and_port_empty",
        "value is empty, which is not a valid host and port pair",
    );
    assert!(!breaks_at(&natives[0], Some(text("h:1")), &formats, 0));
    assert!(breaks_at(&natives[0], Some(text("h")), &formats, 0));
}

#[test]
fn header_formats_are_strict_by_default() {
    let formats = FormatTable {
        accepted: vec![(Format::HeaderName { strict: false }, "a b".to_owned())],
    };
    let strict = RulesType::String(StringRules {
        well_known: Some(StringFormat::WellKnownRegex(KnownRegex::HttpHeaderName)),
        ..strings()
    });
    let loose = RulesType::String(StringRules {
        well_known: Some(StringFormat::WellKnownRegex(KnownRegex::HttpHeaderName)),
        strict: Some(false),
        ..strings()
    });
    let natives = built("string", &strict, 24);
    says(
        &natives[0],
        "string.well_known_regex.header_name",
        "must be a valid HTTP header name",
    );
    says(
        &natives[1],
        "string.well_known_regex.header_name_empty",
        "value is empty, which is not a valid HTTP header name",
    );
    assert!(breaks_at(&natives[0], Some(text("a b")), &formats, 0));
    let natives = built("string", &loose, 24);
    assert!(!breaks_at(&natives[0], Some(text("a b")), &formats, 0));

    let value = RulesType::String(StringRules {
        well_known: Some(StringFormat::WellKnownRegex(KnownRegex::HttpHeaderValue)),
        ..strings()
    });
    let native = one("string", &value, 24);
    says(
        &native,
        "string.well_known_regex.header_value",
        "must be a valid HTTP header value",
    );
    none("string", &value, 12);
    let unspecified = RulesType::String(StringRules {
        well_known: Some(StringFormat::WellKnownRegex(KnownRegex::Unspecified)),
        ..strings()
    });
    none("string", &unspecified, 24);
}

#[test]
fn rules_of_bytes() {
    let rules = RulesType::Bytes(BytesRules {
        constant: Some(vec![0x01, 0xab]),
        len: Some(2),
        min_len: Some(2),
        max_len: Some(2),
        prefix: Some(vec![1]),
        suffix: Some(vec![2]),
        contains: Some(vec![3, 4]),
        in_list: vec![Shown {
            value: vec![0x61],
            text: "a".to_owned(),
        }],
        not_in: vec![Shown {
            value: vec![0x62],
            text: "b".to_owned(),
        }],
        ..bytes()
    });
    let of = |b: &[u8]| Val::Bytes(b.to_vec());
    let native = one("bytes", &rules, 1);
    says(&native, "bytes.const", "must be 01ab");
    assert!(!breaks(&native, of(&[1, 0xab])));
    assert!(breaks(&native, of(&[1])));
    let native = one("bytes", &rules, 2);
    says(&native, "bytes.min_len", "must be at least 2 bytes");
    assert!(breaks(&native, of(&[1])));
    let native = one("bytes", &rules, 3);
    says(&native, "bytes.max_len", "must be at most 2 bytes");
    assert!(breaks(&native, of(&[1, 2, 3])));
    let native = one("bytes", &rules, 13);
    says(&native, "bytes.len", "must be 2 bytes");
    assert!(!breaks(&native, of(&[1, 2])));
    let native = one("bytes", &rules, 5);
    says(&native, "bytes.prefix", "does not have prefix 01");
    assert!(!breaks(&native, of(&[1, 9])));
    assert!(breaks(&native, of(&[9, 1])));
    let native = one("bytes", &rules, 6);
    says(&native, "bytes.suffix", "does not have suffix 02");
    assert!(!breaks(&native, of(&[9, 2])));
    assert!(breaks(&native, of(&[2, 9])));
    let native = one("bytes", &rules, 7);
    says(&native, "bytes.contains", "does not contain 0304");
    assert!(!breaks(&native, of(&[1, 3, 4, 5])));
    assert!(breaks(&native, of(&[3, 5, 4])));
    let native = one("bytes", &rules, 8);
    says(&native, "bytes.in", "must be in list [a]");
    assert!(!breaks(&native, of(b"a")));
    assert!(breaks(&native, of(b"b")));
    let native = one("bytes", &rules, 9);
    says(&native, "bytes.not_in", "must not be in list [b]");
    assert!(breaks(&native, of(b"b")));
    none("bytes", &rules, 10);
}

#[test]
fn formats_of_bytes_go_by_length() {
    let cases = [
        (BytesFormat::Ip(true), 10, "bytes.ip", "IP address", vec![4, 16]),
        (BytesFormat::Ipv4(true), 11, "bytes.ipv4", "IPv4 address", vec![4]),
        (BytesFormat::Ipv6(true), 12, "bytes.ipv6", "IPv6 address", vec![16]),
        (BytesFormat::Uuid(true), 15, "bytes.uuid", "UUID", vec![16]),
    ];
    for (format, number, id, what, lengths) in cases {
        let rules = RulesType::Bytes(BytesRules {
            well_known: Some(format),
            ..bytes()
        });
        let natives = built("bytes", &rules, number);
        assert_eq!(natives.len(), 2);
        says(&natives[0], id, &format!("must be a valid {}", what));
        says(
            &natives[1],
            &format!("{}_empty", id),
            &format!("value is empty, which is not a valid {}", what),
        );
        for n in 1..20 {
            let broken = breaks(&natives[0], Val::Bytes(vec![0; n]));
            assert_eq!(broken, !lengths.contains(&n));
        }
        assert!(!breaks(&natives[0], Val::Bytes(vec![])));
        assert!(breaks(&natives[1], Val::Bytes(vec![])));
        assert!(!breaks(&natives[1], Val::Bytes(vec![0])));
        none("bytes", &rules, 14);
    }
}

#[test]
fn sizes_of_lists_and_maps() {
    let list = |n: i64| Val::List(Rc::new((0..n).map(Value::Int).collect()));
    let rules = RulesType::Repeated(RepeatedRules {
        min_items: Some(1),
        max_items: Some(2),
        unique: Some(false),
        items: None,
    });
    let native = one("repeated", &rules, 1);
    says(
        &native,
        "repeated.min_items",
        "must contain at least 1 item(s)",
    );
    assert!(breaks(&native, list(0)));
    assert!(!breaks(&native, list(1)));
    let native = one("repeated", &rules, 2);
    says(
        &native,
        "repeated.max_items",
        "must contain no more than 2 item(s)",
    );
    assert!(!breaks(&native, list(2)));
    assert!(breaks(&native, list(3)));
    none("repeated", &rules, 3);

    let map = |n: i64| {
        Val::Mapping(Rc::new(
            (0..n).map(|i| (Key::Int(i), Value::Int(i))).collect(),
        ))
    };
    let rules = RulesType::Mapping(MapRules {
        min_pairs: Some(1),
        max_pairs: Some(1),
        keys: None,
        values: None,
    });
    let native = one("map", &rules, 1);
    says(&native, "map.min_pairs", "map must be at least 1 entries");
    assert!(breaks(&native, map(0)));
    let native = one("map", &rules, 2);
    says(&native, "map.max_pairs", "map must be at most 1 entries");
    assert!(!breaks(&native, map(1)));
    assert!(breaks(&native, map(2)));
    none("map", &rules, 3);
}

#[test]
fn unique_items() {
    let rules = RulesType::Repeated(RepeatedRules {
        min_items: None,
        max_items: None,
        unique: Some(true),
        items: None,
    });
    let native = one("repeated", &rules, 3);
    says(
        &native,
        "repeated.unique",
        "repeated value must contain unique items",
    );
    let list = |items: Vec<Value>| Val::List(Rc::new(items));
    assert!(!breaks(&native, list(vec![])));
    assert!(!breaks(&native, list(vec![Value::Int(1), Value::Int(2)])));
    assert!(breaks(
        &native,
        list(vec![Value::Int(1), Value::Int(2), Value::Int(1)])
    ));
    let word = |s: &str| Value::String(s.to_owned());
    assert!(breaks(&native, list(vec![word("a"), word("a")])));
    assert!(!breaks(&native, list(vec![word("a"), word("A")])));
    let number = |f: f64| Value::Double(double(f));
    assert!(breaks(&native, list(vec![number(0.0), number(-0.0)])));
    // Not a number is not equal to itself.
    assert!(!breaks(
        &native,
        list(vec![number(f64::NAN), number(f64::NAN)])
    ));
}

#[test]
fn spans_of_time() {
    let rules = RulesType::Duration(NumericRules {
        constant: Some(moment(1, 500_000_000, "1.5s")),
        less_than: Some(LessThan::Lt(moment(2, 0, "2s"))),
        ..numbers()
    });
    // The rule fields of durations start at 2.
    none("duration", &rules, 1);
    let native = one("duration", &rules, 2);
    says(&native, "duration.const", "must equal 1.5s");
    assert!(!breaks(&native, span(1, 500_000_000)));
    assert!(breaks(&native, span(1, 500_000_001)));
    let native = one("duration", &rules, 3);
    says(&native, "duration.lt", "must be less than 2s");
    assert!(!breaks(&native, span(1, 999_999_999)));
    assert!(breaks(&native, span(2, 0)));
    assert!(!breaks(&native, span(-3, -1)));
}

#[test]
fn points_in_time() {
    let rules = RulesType::Timestamp(TimestampRules {
        constant: None,
        less_than: Some(TimestampLessThan::Lte(moment(10, 0, "ten"))),
        greater_than: Some(TimestampGreaterThan::Gt(moment(5, 0, "five"))),
        within: None,
    });
    none("timestamp", &rules, 4);
    let native = one("timestamp", &rules, 5);
    says(
        &native,
        "timestamp.gt_lte",
        "must be greater than five and less than or equal to ten",
    );
    assert!(breaks(&native, span(5, 0)));
    assert!(!breaks(&native, span(5, 1)));
    assert!(!breaks(&native, span(10, 0)));
    assert!(breaks(&native, span(10, 1)));
    none("timestamp", &rules, 7);
    none("timestamp", &rules, 9);
}

#[test]
fn rules_about_now() {
    let rules = RulesType::Timestamp(TimestampRules {
        constant: None,
        less_than: Some(TimestampLessThan::LtNow(true)),
        greater_than: Some(TimestampGreaterThan::GtNow(true)),
        within: Some(moment(3, 0, "3s")),
    });
    let at = 100_000_000_000;
    let lt = one("timestamp", &rules, 7);
    says(&lt, "timestamp.lt_now", "must be less than now");
    assert!(!breaks_at(&lt, Some(span(99, 0)), &no_formats(), at));
    assert!(breaks_at(&lt, Some(span(100, 1)), &no_formats(), at));
    let gt = one("timestamp", &rules, 8);
    says(&gt, "timestamp.gt_now", "must be greater than now");
    assert!(breaks_at(&gt, Some(span(99, 0)), &no_formats(), at));
    assert!(!breaks_at(&gt, Some(span(100, 1)), &no_formats(), at));
    let within = one("timestamp", &rules, 9);
    says(&within, "timestamp.within", "must be within 3s of now");
    for (seconds, broken) in [(96, true), (97, false), (103, false), (104, true)] {
        assert_eq!(
            breaks_at(&within, Some(span(seconds, 0)), &no_formats(), at),
            broken
        );
    }
    let off = RulesType::Timestamp(TimestampRules {
        constant: None,
        less_than: Some(TimestampLessThan::LtNow(false)),
        greater_than: Some(TimestampGreaterThan::GtNow(false)),
        within: None,
    });
    none("timestamp", &off, 7);
    none("timestamp", &off, 8);
}

#[test]
fn the_clock() {
    assert_eq!(time_from_clock(true, 2, 5).0, 2_000_000_005);
    assert_eq!(time_from_clock(false, 2, 5).0, -2_000_000_005);
    // Some time after this was written.
    assert!(now().0 > 1_700_000_000_000_000_000);
}

#[test]
fn field_masks() {
    let mask = |paths: &[&str]| {
        Val::Message(Rc::new(Record {
            fields: vec![Slot {
                number: 1,
                set: true,
                value: Value::List(Rc::new(
                    paths.iter().map(|p| Value::String((*p).to_owned())).collect(),
                )),
            }],
            encoded: vec![],
        }))
    };
    let rules = RulesType::FieldMask(FieldMaskRules {
        constant: Some(words(&["a", "b"])),
        in_list: words(&["a", "c.d"]),
        not_in: words(&["a.b"]),
    });
    let native = one("field_mask", &rules, 1);
    says(&native, "field_mask.const", "must equal paths [a, b]");
    assert!(!breaks(&native, mask(&["a", "b"])));
    assert!(breaks(&native, mask(&["b", "a"])));
    let native = one("field_mask", &rules, 2);
    says(
        &native,
        "field_mask.in",
        "must only contain paths in [a, c.d]",
    );
    // A path below an allowed one is allowed.
    assert!(!breaks(&native, mask(&["a.x.y", "c.d"])));
    assert!(breaks(&native, mask(&["ab"])));
    assert!(breaks(&native, mask(&["c"])));
    let native = one("field_mask", &rules, 3);
    says(
        &native,
        "field_mask.not_in",
        "must not contain any paths in [a.b]",
    );
    assert!(!breaks(&native, mask(&["a"])));
    assert!(breaks(&native, mask(&["a.b.c"])));
}

#[test]
fn any_rules_are_checked_elsewhere() {
    let rules = RulesType::Any(AnyRules {
        in_list: words(&["x"]),
        not_in: vec![],
    });
    none("any", &rules, 2);
    none("any", &rules, 3);
}
