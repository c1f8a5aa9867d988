//! Violations in the wire format, and the texts of errors.

use protovalidate::cel;
use protovalidate::protobuf::ReadError;
use protovalidate::validate::wire::encode_violations;
use protovalidate::validate::{FieldPath, FieldPathElement, Subscript, Type, Violation};
use protovalidate::Error;

fn named(name: &str) -> FieldPathElement {
    FieldPathElement {
        field_number: None,
        field_name: Some(name.to_owned()),
        field_type: None,
        key_type: None,
        value_type: None,
        subscript: None,
    }
}

fn bare() -> Violation {
    Violation {
        field: None,
        rule: None,
        rule_id: None,
        message: None,
        for_key: None,
    }
}

#[test]
fn no_violations_are_no_bytes() {
    assert!(encode_violations(&vec![]).is_empty());
}

#[test]
fn an_empty_violation() {
    assert_eq!(encode_violations(&vec![bare()]), vec![0x0a, 0]);
}

#[test]
fn texts_of_a_violation() {
    let violation = Violation {
        rule_id: Some("a".to_owned()),
        message: Some("é".to_owned()),
        for_key: Some(true),
        ..bare()
    };
    // rule_id = 2, message = 3, for_key = 4, field = 5, rule = 6.
    assert_eq!(
        encode_violations(&vec![violation]),
        vec![0x0a, 9, 0x12, 1, b'a', 0x1a, 2, 0xc3, 0xa9, 0x20, 1],
    );
}

#[test]
fn paths_of_a_violation() {
    let element = FieldPathElement {
        field_number: Some(300),
        field_name: Some("f".to_owned()),
        field_type: Some(Type::Message),
        key_type: Some(Type::String),
        value_type: Some(Type::Sint64),
        subscript: Some(Subscript::StringKey("k".to_owned())),
    };
    let violation = Violation {
        field: Some(FieldPath {
            elements: vec![element, named("g")],
        }),
        rule: Some(FieldPath { elements: vec![] }),
        ..bare()
    };
    assert_eq!(
        encode_violations(&vec![violation]),
        vec![
            0x0a, 26, // the violation
            0x2a, 22, // its field path
            0x0a, 15, // the first element
            0x08, 0xac, 0x02, // the number
            0x12, 1, b'f', // the name
            0x18, 11, // the type
            0x20, 9, // the key type
            0x28, 18, // the value type
            0x52, 1, b'k', // the subscript
            0x0a, 3, // the second element
            0x12, 1, b'g', // the name
            0x32, 0, // its rule path
        ],
    );
}

#[test]
fn subscripts_of_path_elements() {
    let encoded = |subscript: Subscript| {
        let violation = Violation {
            field: Some(FieldPath {
                elements: vec![FieldPathElement {
                    field_name: None,
                    subscript: Some(subscript),
                    ..named("")
                }],
            }),
            ..bare()
        };
        encode_violations(&vec![violation])[6..].to_vec()
    };
    assert_eq!(encoded(Subscript::Index(128)), vec![0x30, 0x80, 1]);
    assert_eq!(encoded(Subscript::BoolKey(false)), vec![0x38, 0]);
    assert_eq!(
        encoded(Subscript::IntKey(-1)),
        vec![0x40, 0xff, 0xff, 0xff, 0xff, 0xff, 0xff, 0xff, 0xff, 0xff, 1],
    );
    assert_eq!(encoded(Subscript::UintKey(1)), vec![0x48, 1]);
    assert_eq!(encoded(Subscript::StringKey(String::new())), vec![0x52, 0]);
}

#[test]
fn different_violations_are_different_bytes() {
    let of = |name: &str| {
        vec![Violation {
            field: Some(FieldPath {
                elements: vec![named(name)],
            }),
            ..bare()
        }]
    };
    assert_ne!(encode_violations(&of("a")), encode_violations(&of("b")));
    let empty = vec![Violation {
        message: Some(String::new()),
        ..bare()
    }];
    assert_ne!(encode_violations(&empty), encode_violations(&vec![bare()]));
}

#[test]
fn texts_of_errors() {
    let text = |error: Error<u8>| error.text();
    let of = |s: &str| s.to_owned();
    assert_eq!(
        text(Error::Compilation(of("x"))),
        Some(of("compilation error: x"))
    );
    assert_eq!(
        text(Error::Evaluation(of("x"))),
        Some(of("evaluation error: x"))
    );
    assert_eq!(
        text(Error::Argument(of("x"))),
        Some(of("invalid argument: x"))
    );
    assert_eq!(
        text(Error::Unexpected(of("x"))),
        Some(of("unexpected error: x"))
    );
    assert_eq!(text(Error::Read(ReadError::new(7))), None);
}

#[test]
fn failures_of_the_cel_runtime() {
    let of = |s: &str| s.to_owned();
    assert!(matches!(
        Error::<u8>::from_cel(cel::Error::Runtime(of("r"))),
        Error::Evaluation(m) if m == "r"
    ));
    assert!(matches!(
        Error::<u8>::from_cel(cel::Error::Argument(of("a"))),
        Error::Argument(m) if m == "a"
    ));
    assert!(matches!(
        Error::<u8>::from_cel(cel::Error::Compilation(of("c"))),
        Error::Unexpected(m) if m == "c"
    ));
    assert!(matches!(
        Error::<u8>::from_cel(cel::Error::Unexpected(of("u"))),
        Error::Unexpected(m) if m == "u"
    ));
    assert_eq!(cel::Error::Runtime(of("r")).message(), "r");
}
