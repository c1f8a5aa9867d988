//! What runtimes get from the library, and small helpers.

use protovalidate::descriptors::seconds;
use protovalidate::double::Double;
use protovalidate::protobuf::memory::{Memory, Record, Slot, Value};
use protovalidate::protobuf::reads::{get_field, has_field};
use protovalidate::protobuf::type_info::{
    self, key, locate, presence_source, selects, widen, FieldInfo, Located, PresenceSource,
    TypeInfo, Widened,
};
use protovalidate::protobuf::{Key, Kind, Scalar, Singular, Val};
use protovalidate::rules::eval::{is_empty_item, is_set};
use protovalidate::rules::standard::values::{chars, covered};
use protovalidate::strings::{contains, ends_with, has_substring, starts_with};
use protovalidate::text::{hex_text, join, list_text, signed_text, unsigned_text};
use protovalidate::Error;
use std::rc::Rc;

fn info() -> TypeInfo<&'static str> {
    TypeInfo::build(vec![
        FieldInfo {
            number: 7,
            place: "seven",
        },
        FieldInfo {
            number: 1,
            place: "one",
        },
        FieldInfo {
            number: 300,
            place: "many",
        },
        FieldInfo {
            number: 2,
            place: "two",
        },
    ])
}

#[test]
fn fields_are_sorted_by_number() {
    let info = info();
    assert_eq!(info.len(), 4);
    for (slot, number, place) in [(0, 1, "one"), (1, 2, "two"), (2, 7, "seven"), (3, 300, "many")] {
        match info.find(number) {
            Some((found, field)) => {
                assert_eq!(found, slot);
                assert_eq!(field.place, place);
            }
            None => panic!(),
        }
    }
    for number in [0, 3, 6, 8, 299, 301] {
        assert!(info.find(number).is_none());
    }
}

#[test]
fn fields_are_located() {
    let info = info();
    assert!(matches!(
        locate::<&str>(None, 1),
        Located::Default
    ));
    assert!(matches!(locate(Some(&info), 3), Located::Absent));
    match locate(Some(&info), 2) {
        Located::Kept(1, field) => assert_eq!(field.place, "two"),
        _ => panic!(),
    }
}

#[test]
fn oneofs_select_by_name() {
    assert!(selects(Some("a"), "a"));
    assert!(!selects(Some("a"), "b"));
    assert!(!selects(None, "a"));
}

#[test]
fn defaults_of_scalars() {
    assert!(matches!(type_info::default::<Memory>(Scalar::Bool), Val::Bool(false)));
    for scalar in [Scalar::Int32, Scalar::Sint64, Scalar::Sfixed32] {
        assert!(matches!(type_info::default::<Memory>(scalar), Val::Int(0)));
        assert_eq!(widen(scalar), Widened::Int);
    }
    for scalar in [Scalar::Uint64, Scalar::Fixed32] {
        assert!(matches!(type_info::default::<Memory>(scalar), Val::Uint(0)));
        assert_eq!(widen(scalar), Widened::Uint);
    }
    assert!(matches!(
        type_info::default::<Memory>(Scalar::Float),
        Val::Double(Double { bits: 0 })
    ));
    assert_eq!(widen(Scalar::Float), Widened::Double);
    assert!(matches!(type_info::default::<Memory>(Scalar::String), Val::String(s) if s.is_empty()));
    assert!(matches!(type_info::default::<Memory>(Scalar::Bytes), Val::Bytes(b) if b.is_empty()));
    assert_eq!(widen(Scalar::Bytes), Widened::Bytes);
    assert_eq!(widen(Scalar::Bool), Widened::Bool);
    assert_eq!(widen(Scalar::String), Widened::String);
}

#[test]
fn values_as_keys() {
    assert!(matches!(key::<Memory>(Val::Bool(true)), Key::Bool(true)));
    assert!(matches!(key::<Memory>(Val::Int(-1)), Key::Int(-1)));
    assert!(matches!(key::<Memory>(Val::Uint(1)), Key::Uint(1)));
    assert!(matches!(
        key::<Memory>(Val::String("a".to_owned())),
        Key::String(s) if s == "a"
    ));
    // Not a key type.
    assert!(matches!(key::<Memory>(Val::Enum(3)), Key::Int(0)));
}

#[test]
fn sources_of_presence() {
    let message = Kind::Singular(Singular::Message);
    let number = Kind::Singular(Singular::Scalar(Scalar::Int32));
    assert_eq!(presence_source(true, true, message), PresenceSource::Message);
    assert_eq!(presence_source(false, true, number), PresenceSource::Value);
    assert_eq!(presence_source(false, false, message), PresenceSource::Value);
    assert_eq!(presence_source(false, false, number), PresenceSource::Numbers);
}

#[test]
fn values_that_are_set() {
    let set = |value: Option<Val<Memory>>| match is_set::<Memory>(&value) {
        Ok(set) => set,
        Err(_) => panic!(),
    };
    assert!(!set(None));
    assert!(!set(Some(Val::Int(0))));
    assert!(set(Some(Val::Int(1))));
    assert!(!set(Some(Val::Double(Double { bits: 0 }))));
    // A negative zero serializes, so it is set; as an item it is zero.
    let negative = Double {
        bits: (-0.0f64).to_bits(),
    };
    assert!(set(Some(Val::Double(negative))));
    assert!(is_empty_item::<Memory>(&Val::Double(negative)));
    assert!(!set(Some(Val::List(Rc::new(vec![])))));
    assert!(set(Some(Val::List(Rc::new(vec![Value::Int(0)])))));
    assert!(!set(Some(Val::Mapping(Rc::new(vec![])))));
    let empty = Rc::new(Record {
        fields: vec![],
        encoded: vec![],
    });
    assert!(set(Some(Val::Message(Rc::clone(&empty)))));
    assert!(!is_empty_item::<Memory>(&Val::Message(empty)));
    assert!(is_empty_item::<Memory>(&Val::String(String::new())));
}

#[test]
fn reads_of_records() {
    let record = Rc::new(Record {
        fields: vec![
            Slot {
                number: 1,
                set: true,
                value: Value::Broken("why".to_owned()),
            },
            Slot {
                number: 1,
                set: false,
                value: Value::Int(1),
            },
        ],
        encoded: vec![],
    });
    // The first field of a number counts.
    match get_field::<Memory>(&record, &seconds()) {
        Err(Error::Read(error)) => assert_eq!(error.into_inner(), "why"),
        _ => panic!(),
    }
    assert!(matches!(has_field::<Memory>(&record, &seconds()), Ok(true)));
    assert_eq!(seconds().name(), "seconds");
    assert_eq!(seconds().number(), 1);
    assert!(!seconds().has_presence());
    assert_eq!(seconds().message_type(), None);
    assert_eq!(seconds().oneof(), None);
}

#[test]
fn doubles_by_their_bits() {
    let of = |f: f64| Double { bits: f.to_bits() };
    assert!(of(f64::NAN).is_nan());
    assert!(!of(f64::INFINITY).is_nan());
    assert!(!of(f64::INFINITY).is_finite());
    assert!(of(f64::MAX).is_finite());
    assert!(of(-0.0).is_zero());
    let ordered = [f64::NEG_INFINITY, -2.5, -0.0, 1e-300, 1.0, f64::INFINITY];
    for (i, a) in ordered.iter().enumerate() {
        for (j, b) in ordered.iter().enumerate() {
            assert_eq!(of(*a).is_below(of(*b)), i < j);
        }
    }
    assert!(!of(-0.0).is_below(of(0.0)));
}

#[test]
fn texts_of_values() {
    let words: Vec<String> = vec!["a".to_owned(), "b".to_owned(), String::new()];
    assert_eq!(join(&words), "a, b, ");
    assert_eq!(list_text(&words), "[a, b, ]");
    assert_eq!(list_text(&vec![]), "[]");
    assert_eq!(unsigned_text(0), "0");
    assert_eq!(unsigned_text(u64::MAX), "18446744073709551615");
    assert_eq!(signed_text(-10), "-10");
    assert_eq!(signed_text(i64::MIN), "-9223372036854775808");
    assert_eq!(hex_text(&vec![0, 0x0f, 0xf0]), "000ff0");
}

#[test]
fn parts_of_texts() {
    assert!(starts_with("éa", "é"));
    assert!(!starts_with("a", "ab"));
    assert!(ends_with("aé", "é"));
    assert!(has_substring("abc", ""));
    assert!(has_substring("aéc", "éc"));
    assert!(!has_substring("abc", "ca"));
    assert!(contains(&[1, 2, 3], &[2, 3]));
    assert!(!contains(&[1, 2, 3], &[3, 2]));
    assert_eq!(chars("aé"), 2);
    let paths = vec!["a.b".to_owned()];
    assert!(covered(&paths, "a.b.c"));
    assert!(!covered(&paths, "a.bc"));
}
