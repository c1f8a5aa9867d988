//! Whole validations: files registered serialized, rules compiled, messages
//! walked, violations reported.

use protovalidate::cel::{self, Binding, Engine, Expression, NoCel, This};
use protovalidate::options::{FileOptions, NoOptions, OptionsReader};
use protovalidate::protobuf::memory::{Memory, Record, Slot, Value};
use protovalidate::protobuf::{
    Entries, Field, Key, List, Message, ReadError, Runtime, Val,
};
use protovalidate::rules::standard::order::Timestamp;
use protovalidate::rules::standard::wellknown::FormatTable;
use protovalidate::validate::rules::{
    AnyRules, EnumRules, ExtensionRule, FieldOptions, FieldRules, GreaterThan, Ignore, MapRules,
    MessageOneofRule, MessageRules, NumericRules, OneofOptions, OneofRules, RepeatedRules, Rule,
    RulesType, StandardRules, StringRules, TypeOptions,
};
use protovalidate::validate::wire::encode_violations;
use protovalidate::validate::{FieldPath, Subscript, Type, Violation};
use protovalidate::{Error, Validator};
use std::cell::RefCell;
use std::rc::Rc;

// The wire format, enough of it to write descriptors down.

fn varint(n: u64) -> Vec<u8> {
    let mut n = n;
    let mut out = vec![];
    while n >= 128 {
        out.push((n % 128) as u8 + 128);
        n /= 128;
    }
    out.push(n as u8);
    out
}

fn number(field: u64, n: u64) -> Vec<u8> {
    let mut out = varint(field * 8);
    out.extend(varint(n));
    out
}

fn part(field: u64, payload: &[u8]) -> Vec<u8> {
    let mut out = varint(field * 8 + 2);
    out.extend(varint(payload.len() as u64));
    out.extend(payload);
    out
}

fn all(parts: &[Vec<u8>]) -> Vec<u8> {
    parts.concat()
}

const INT32: u64 = 5;
const BOOL: u64 = 8;
const STRING: u64 = 9;
const MESSAGE: u64 = 11;
const ENUM: u64 = 14;

/// A field: its label is 1 for a singular one and 3 for a repeated one.
fn field(name: &str, n: u64, label: u64, ty: u64, of: &str) -> Vec<u8> {
    let mut out = all(&[
        part(1, name.as_bytes()),
        number(3, n),
        number(4, label),
        number(5, ty),
    ]);
    if !of.is_empty() {
        out.extend(part(6, of.as_bytes()));
    }
    out
}

fn message(name: &str, fields: &[Vec<u8>], rest: &[Vec<u8>]) -> Vec<u8> {
    let mut out = part(1, name.as_bytes());
    for f in fields {
        out.extend(part(2, f));
    }
    out.extend(all(rest));
    out
}

/// An extension range.
fn extensible() -> Vec<u8> {
    part(5, &all(&[number(1, 1000), number(2, 2000)]))
}

fn file(name: &str, package: &str, dependencies: &[&str], messages: &[Vec<u8>]) -> Vec<u8> {
    let mut out = all(&[part(1, name.as_bytes()), part(2, package.as_bytes())]);
    for d in dependencies {
        out.extend(part(3, d.as_bytes()));
    }
    for m in messages {
        out.extend(part(4, m));
    }
    out
}

/// The part of the `buf.validate` schema that the tests use.
fn schema_file() -> Vec<u8> {
    let rules = |name: &str, fields: &[Vec<u8>]| message(name, fields, &[extensible()]);
    file(
        "buf/validate/validate.proto",
        "buf.validate",
        &[],
        &[
            message(
                "FieldRules",
                &[
                    field("cel", 23, 3, MESSAGE, ".buf.validate.Rule"),
                    field("cel_expression", 29, 3, STRING, ""),
                    field("required", 25, 1, BOOL, ""),
                    field("int32", 3, 1, MESSAGE, ".buf.validate.Int32Rules"),
                    field("string", 14, 1, MESSAGE, ".buf.validate.StringRules"),
                    field("enum", 16, 1, MESSAGE, ".buf.validate.EnumRules"),
                    field("repeated", 18, 1, MESSAGE, ".buf.validate.RepeatedRules"),
                    field("map", 19, 1, MESSAGE, ".buf.validate.MapRules"),
                    field("any", 20, 1, MESSAGE, ".buf.validate.AnyRules"),
                ],
                &[],
            ),
            message("Rule", &[field("id", 1, 1, STRING, "")], &[]),
            rules(
                "Int32Rules",
                &[
                    field("gt", 4, 1, INT32, ""),
                    field("in", 6, 3, INT32, ""),
                ],
            ),
            rules(
                "StringRules",
                &[
                    field("min_len", 2, 1, 4, ""),
                    field("pattern", 6, 1, STRING, ""),
                    field("prefix", 7, 1, STRING, ""),
                ],
            ),
            rules("EnumRules", &[field("defined_only", 2, 1, BOOL, "")]),
            rules(
                "RepeatedRules",
                &[
                    field("min_items", 1, 1, 4, ""),
                    field("items", 4, 1, MESSAGE, ".buf.validate.FieldRules"),
                ],
            ),
            rules(
                "MapRules",
                &[
                    field("keys", 4, 1, MESSAGE, ".buf.validate.FieldRules"),
                    field("values", 5, 1, MESSAGE, ".buf.validate.FieldRules"),
                ],
            ),
            rules(
                "AnyRules",
                &[
                    field("in", 2, 3, STRING, ""),
                    field("not_in", 3, 3, STRING, ""),
                ],
            ),
        ],
    )
}

/// A file of user types, in proto3.
fn user_file() -> Vec<u8> {
    let entry = message(
        "ScoresEntry",
        &[
            field("key", 1, 1, STRING, ""),
            field("value", 2, 1, INT32, ""),
        ],
        &[part(7, &number(7, 1))],
    );
    let mut email = field("email", 8, 1, STRING, "");
    email.extend(number(9, 0));
    let mut phone = field("phone", 9, 1, STRING, "");
    phone.extend(number(9, 0));
    // A proto3 `optional` field, with its synthetic oneof.
    let mut nick = field("nick", 10, 1, STRING, "");
    nick.extend(number(9, 1));
    nick.extend(part(10, b"nickName"));
    nick.extend(number(17, 1));
    let user = message(
        "User",
        &[
            field("name", 1, 1, STRING, ""),
            field("age", 2, 1, INT32, ""),
            field("tags", 3, 3, STRING, ""),
            field("scores", 4, 3, MESSAGE, ".test.User.ScoresEntry"),
            field("color", 5, 1, ENUM, ".test.Color"),
            field("home", 6, 1, MESSAGE, ".test.Address"),
            field("thing", 7, 1, MESSAGE, ".google.protobuf.Any"),
            email,
            phone,
            nick,
            field("homes", 11, 3, MESSAGE, ".test.Address"),
        ],
        &[
            part(3, &entry),
            part(8, &part(1, b"contact")),
            part(8, &part(1, b"_nick")),
        ],
    );
    let mut out = file(
        "user.proto",
        "test",
        &["google/protobuf/any.proto"],
        &[
            user,
            message("Address", &[field("street", 1, 1, STRING, "")], &[]),
        ],
    );
    let color = all(&[
        part(1, b"Color"),
        part(2, &all(&[part(1, b"RED"), number(2, 0)])),
        part(2, &all(&[part(1, b"BLUE"), number(2, 1)])),
    ]);
    out.extend(part(5, &color));
    out.extend(part(12, b"proto3"));
    out
}

fn any_file() -> Vec<u8> {
    let mut out = file(
        "google/protobuf/any.proto",
        "google.protobuf",
        &[],
        &[message(
            "Any",
            &[
                field("type_url", 1, 1, STRING, ""),
                field("value", 2, 1, 12, ""),
            ],
            &[],
        )],
    );
    out.extend(part(12, b"proto3"));
    out
}

fn formats() -> FormatTable {
    FormatTable { accepted: vec![] }
}

/// A reader that is told what is in which file, and says so once.
struct Told(RefCell<Vec<(Vec<u8>, FileOptions)>>);

impl OptionsReader for Told {
    fn read(&self, file: &[u8]) -> FileOptions {
        let mut told = self.0.borrow_mut();
        match told.iter().position(|(bytes, _)| bytes == file) {
            Some(i) => told.swap_remove(i).1,
            None => FileOptions {
                types: vec![],
                extensions: vec![],
            },
        }
    }
}

fn told(file: Vec<u8>, types: Vec<TypeOptions>, extensions: Vec<ExtensionRule>) -> Told {
    Told(RefCell::new(vec![(file, FileOptions { types, extensions })]))
}

fn base() -> Vec<Vec<u8>> {
    vec![schema_file(), any_file()]
}

type Loaded<C> = Validator<C, FormatTable, Told>;

fn opened<C: Engine, O: OptionsReader>(
    engine: C,
    reader: O,
    schema: &Vec<Vec<u8>>,
) -> Validator<C, FormatTable, O> {
    match Validator::new(engine, formats(), reader, schema) {
        Ok(validator) => validator,
        Err(error) => panic!("{}", error.text()),
    }
}

fn blank() -> Validator<NoCel, FormatTable, NoOptions> {
    opened(NoCel, NoOptions, &vec![])
}

fn validator_with<C: Engine>(engine: C, options: Vec<TypeOptions>) -> Loaded<C> {
    let mut validator = opened(engine, told(user_file(), options, vec![]), &base());
    match validator.add_file_descriptor_bytes(&user_file()) {
        Ok(()) => {}
        Err(error) => panic!("{}", error.text()),
    }
    validator
}

fn validator(options: Vec<TypeOptions>) -> Loaded<NoCel> {
    validator_with(NoCel, options)
}

fn rules(standard: RulesType, bytes: Vec<u8>) -> FieldRules {
    FieldRules {
        standard: Some(StandardRules {
            rules: standard,
            bytes,
        }),
        ..plain()
    }
}

fn plain() -> FieldRules {
    FieldRules {
        required: None,
        ignore: None,
        cel_expression: vec![],
        cel: vec![],
        standard: None,
    }
}

fn min_len(n: u64) -> FieldRules {
    rules(
        RulesType::String(StringRules {
            min_len: Some(n),
            ..strings()
        }),
        number(2, n),
    )
}

fn strings() -> StringRules {
    StringRules {
        constant: None,
        len: None,
        min_len: None,
        max_len: None,
        len_bytes: None,
        min_bytes: None,
        max_bytes: None,
        pattern: None,
        prefix: None,
        suffix: None,
        contains: None,
        not_contains: None,
        in_list: vec![],
        not_in: vec![],
        well_known: None,
        strict: None,
    }
}

fn above(n: i32) -> FieldRules {
    rules(
        RulesType::Int32(NumericRules {
            constant: None,
            less_than: None,
            greater_than: Some(GreaterThan::Gt(n)),
            in_list: vec![],
            not_in: vec![],
        }),
        number(4, n as u64),
    )
}

fn on(fields: Vec<(u32, FieldRules)>) -> TypeOptions {
    TypeOptions {
        full_name: "test.User".to_owned(),
        message: None,
        fields: fields
            .into_iter()
            .map(|(number, rules)| FieldOptions { number, rules })
            .collect(),
        oneofs: vec![],
    }
}

fn slot(number: u32, value: Value) -> Slot {
    Slot {
        number,
        set: true,
        value,
    }
}

fn text(s: &str) -> Value {
    Value::String(s.to_owned())
}

fn record(fields: Vec<Slot>) -> Rc<Record> {
    Rc::new(Record {
        fields,
        encoded: vec![1, 2, 3],
    })
}

/// A path as text: names with subscripts, dots between.
fn path_text(path: &Option<FieldPath>) -> String {
    let elements = match path {
        Some(path) => &path.elements,
        None => return String::new(),
    };
    let mut out = String::new();
    for element in elements {
        if !out.is_empty() {
            out.push('.');
        }
        out.push_str(element.field_name.as_deref().unwrap_or("?"));
        match &element.subscript {
            None => {}
            Some(Subscript::Index(i)) => out.push_str(&format!("[{}]", i)),
            Some(Subscript::BoolKey(b)) => out.push_str(&format!("[{}]", b)),
            Some(Subscript::IntKey(i)) => out.push_str(&format!("[{}]", i)),
            Some(Subscript::UintKey(u)) => out.push_str(&format!("[{}]", u)),
            Some(Subscript::StringKey(s)) => out.push_str(&format!("[\"{}\"]", s)),
        }
    }
    out
}

/// A violation as text: where, the rule's path, its id and its message.
fn shown(v: &Violation) -> String {
    format!(
        "{} | {} | {} | {}{}",
        path_text(&v.field),
        path_text(&v.rule),
        v.rule_id.as_deref().unwrap_or("?"),
        v.message.as_deref().unwrap_or("?"),
        if v.for_key == Some(true) { " (key)" } else { "" },
    )
}

fn found_by<C: Engine>(
    validator: &mut Loaded<C>,
    message: &Rc<Record>,
    fail_fast: bool,
) -> Vec<String> {
    match validator.run_at::<Memory>("test.User", message, fail_fast, Timestamp(0)) {
        Ok(violations) => violations.iter().map(shown).collect(),
        Err(error) => panic!("{:?}", error),
    }
}

fn found(options: TypeOptions, fields: Vec<Slot>) -> Vec<String> {
    found_by(&mut validator(vec![options]), &record(fields), false)
}

fn refused(options: TypeOptions) -> Error<String> {
    match validator(vec![options]).run_at::<Memory>(
        "test.User",
        &record(vec![]),
        false,
        Timestamp(0),
    ) {
        Ok(_) => panic!(),
        Err(error) => error,
    }
}

fn refusal(options: TypeOptions) -> String {
    match refused(options) {
        Error::Compilation(message) => message,
        error => panic!("{:?}", error),
    }
}

// Registering files.

#[test]
fn unknown_types_are_an_argument_error() {
    let mut validator = validator(vec![]);
    match validator.validate_message::<Memory>("test.Nobody", &record(vec![]), false) {
        Err(Error::Argument(message)) => assert_eq!(message, "unknown message type: test.Nobody"),
        _ => panic!(),
    }
    // A leading dot is left out of the name that is looked up.
    assert!(validator
        .validate_message::<Memory>(".test.User", &record(vec![]), false)
        .is_ok());
    match validator.validate_message::<Memory>("..test.User", &record(vec![]), false) {
        Err(Error::Argument(message)) => assert_eq!(message, "unknown message type: ..test.User"),
        _ => panic!(),
    }
}

#[test]
fn files_that_do_not_parse_are_refused() {
    let mut validator = blank();
    // The payload is shorter than its length says.
    assert!(validator
        .add_file_descriptor_bytes(&[0x0a, 0x05, 0x61])
        .is_err());
    match validator.validate_message::<Memory>("test.User", &record(vec![]), false) {
        Err(Error::Argument(_)) => {}
        _ => panic!(),
    }
}

#[test]
fn validators_know_the_schema() {
    // A file that imports the schema can be the first to be registered.
    let mut validator = opened(NoCel, NoOptions, &base());
    let importing = file(
        "a.proto",
        "a",
        &["buf/validate/validate.proto"],
        &[message("M", &[], &[])],
    );
    assert!(validator.add_file_descriptor_bytes(&importing).is_ok());
    // The schema is known, and adding it again changes nothing.
    assert!(validator.add_file_descriptor_bytes(&schema_file()).is_ok());
    // Standard rules compile.
    assert_eq!(
        found(on(vec![(1, min_len(2))]), vec![slot(1, text("a"))]),
        vec!["name | string.min_len | string.min_len | must be at least 2 characters"],
    );
}

#[test]
fn schemas_that_are_refused_make_no_validator() {
    let refusal = |schema: Vec<Vec<u8>>| match Validator::new(NoCel, formats(), NoOptions, &schema) {
        Ok(_) => panic!(),
        Err(error) => error.text().to_owned(),
    };
    // The user file imports one that comes behind it.
    assert_eq!(
        refusal(vec![schema_file(), user_file(), any_file()]),
        "import not registered: google/protobuf/any.proto",
    );
    assert!(!refusal(vec![schema_file(), vec![0x0a, 0x05, 0x61]]).is_empty());
    match Validator::new(Script, formats(), NoOptions, &vec![file("x", "x", &[], &[])]) {
        Ok(_) => panic!(),
        Err(error) => assert_eq!(error.text(), "what file?"),
    }
}

#[test]
fn imports_come_first() {
    let mut validator = opened(
        NoCel,
        told(user_file(), vec![on(vec![(1, min_len(2))])], vec![]),
        &vec![schema_file()],
    );
    assert!(validator.add_file_descriptor_bytes(&user_file()).is_err());
    assert!(validator.add_file_descriptor_bytes(&any_file()).is_ok());
    assert!(validator.add_file_descriptor_bytes(&user_file()).is_ok());
    assert_eq!(
        found_by(&mut validator, &record(vec![slot(1, text("a"))]), false),
        vec!["name | string.min_len | string.min_len | must be at least 2 characters"],
    );
}

#[test]
fn known_files_are_left_as_they_are() {
    let mut validator = validator(vec![on(vec![(1, min_len(2))])]);
    let valid = record(vec![slot(1, text("ab"))]);
    let broken = record(vec![slot(1, text("a"))]);
    // The reader would find no options in the file this time.
    assert!(validator.add_file_descriptor_bytes(&user_file()).is_ok());
    assert!(found_by(&mut validator, &valid, false).is_empty());
    assert_eq!(found_by(&mut validator, &broken, false).len(), 1);
    assert!(validator.add_file_descriptor_bytes(&user_file()).is_ok());
    assert_eq!(found_by(&mut validator, &broken, false).len(), 1);
}

#[test]
fn known_files_are_not_shown_to_the_engine() {
    let mut validator = validator_with(Script, vec![on(vec![(1, min_len(2))])]);
    // The engine refuses every file but those registered, and other bytes
    // under a name that is known are another file to it.
    let again = file("user.proto", "other", &["missing.proto"], &[]);
    assert!(validator.add_file_descriptor_bytes(&again).is_ok());
    assert!(found_by(&mut validator, &record(vec![slot(1, text("ab"))]), false).is_empty());
}

fn refused_file(bytes: &[u8]) -> String {
    let mut validator = blank();
    match validator.add_file_descriptor_bytes(bytes) {
        Err(error) => error.text().to_owned(),
        Ok(()) => panic!(),
    }
}

#[test]
fn imports_that_nothing_uses_have_to_be_registered_too() {
    let lonely = || file("a.proto", "a", &["b.proto", "c.proto"], &[message("M", &[], &[])]);
    assert_eq!(refused_file(&lonely()), "import not registered: b.proto");
    let mut validator = blank();
    let mut add = |bytes: &[u8]| validator.add_file_descriptor_bytes(bytes);
    assert!(add(&file("b.proto", "b", &[], &[])).is_ok());
    match add(&lonely()) {
        Err(error) => assert_eq!(error.text(), "import not registered: c.proto"),
        Ok(()) => panic!(),
    }
    assert!(add(&file("c.proto", "c", &[], &[])).is_ok());
    assert!(add(&lonely()).is_ok());
    assert!(validator
        .validate_message::<Memory>("a.M", &record(vec![]), false)
        .is_ok());
}

#[test]
fn full_names_that_begin_with_a_dot_are_refused() {
    let enumeration = |name: &str| {
        all(&[
            part(1, name.as_bytes()),
            part(2, &all(&[part(1, b"ZERO"), number(2, 0)])),
        ])
    };
    let with_enum = |package: &str, name: &str| {
        let mut out = file("e.proto", package, &[], &[]);
        out.extend(part(5, &enumeration(name)));
        out
    };
    let with_nested = |package: &str, outer: &str, name: &str| {
        let outer = message(outer, &[], &[part(4, &enumeration(name))]);
        file("e.proto", package, &[], &[outer])
    };
    let refusal = "a full name is empty or begins with a dot";
    assert_eq!(refused_file(&with_enum("", ".E")), refusal);
    assert_eq!(refused_file(&with_enum(".p", "E")), refusal);
    assert_eq!(refused_file(&with_nested("", ".M", "E")), refusal);
    assert_eq!(refused_file(&with_nested("", "", ".E")), refusal);
    assert_eq!(refused_file(&with_nested(".p", "M", "E")), refusal);
    for linked in [
        with_enum("", "E"),
        with_enum("p", ".E"),
        with_nested("", "M", ".E"),
        with_nested("p", ".M", "E"),
        with_nested("p", "", ".E"),
    ] {
        let mut validator = blank();
        match validator.add_file_descriptor_bytes(&linked) {
            Ok(()) => {}
            Err(error) => panic!("{}", error.text()),
        }
    }
}

// Fields.

#[test]
fn a_valid_message() {
    let mut validator = validator(vec![on(vec![(1, min_len(2)), (2, above(17))])]);
    let valid = record(vec![slot(1, text("ab")), slot(2, Value::Int(18))]);
    assert!(found_by(&mut validator, &valid, false).is_empty());
    assert!(validator
        .validate_message::<Memory>("test.User", &valid, false)
        .is_ok());
}

#[test]
fn violations_come_in_declaration_order() {
    let options = on(vec![(2, above(17)), (1, min_len(2))]);
    let fields = vec![slot(1, text("a")), slot(2, Value::Int(17))];
    assert_eq!(
        found(options, fields),
        vec![
            "name | string.min_len | string.min_len | must be at least 2 characters",
            "age | int32.gt | int32.gt | must be greater than 17",
        ],
    );
}

#[test]
fn fail_fast_stops_at_the_first_violation() {
    let mut validator = validator(vec![on(vec![(1, min_len(2)), (2, above(17))])]);
    let broken = record(vec![slot(1, text("a")), slot(2, Value::Int(17))]);
    let full = found_by(&mut validator, &broken, false);
    let fast = found_by(&mut validator, &broken, true);
    assert_eq!(full.len(), 2);
    assert_eq!(fast, vec![full[0].clone()]);
    let valid = record(vec![slot(1, text("ab")), slot(2, Value::Int(18))]);
    assert!(found_by(&mut validator, &valid, true).is_empty());
}

/// What a full validation finds, of which failing fast finds the first.
fn fast_finds_the_first(options: TypeOptions, fields: Vec<Slot>) -> Vec<String> {
    let mut validator = validator(vec![options]);
    let broken = record(fields);
    let full = found_by(&mut validator, &broken, false);
    let fast = found_by(&mut validator, &broken, true);
    assert_eq!(fast, vec![full[0].clone()]);
    full
}

#[test]
fn fail_fast_stops_within_an_any() {
    let any = rules(
        RulesType::Any(AnyRules {
            in_list: vec!["t/a".to_owned()],
            not_in: vec!["t/b".to_owned()],
        }),
        all(&[part(2, b"t/a"), part(3, b"t/b")]),
    );
    let thing = Value::Message(record(vec![slot(1, text("t/b"))]));
    assert_eq!(fast_finds_the_first(on(vec![(7, any)]), vec![slot(7, thing)]).len(), 2);
}

#[test]
fn fail_fast_stops_within_a_map_entry() {
    let map = rules(
        RulesType::Mapping(MapRules {
            min_pairs: None,
            max_pairs: None,
            keys: Some(Box::new(min_len(2))),
            values: Some(Box::new(above(0))),
        }),
        vec![],
    );
    let scores = Value::Mapping(Rc::new(vec![
        (Key::String("k".to_owned()), Value::Int(0)),
        (Key::String("l".to_owned()), Value::Int(0)),
    ]));
    let full = fast_finds_the_first(on(vec![(4, map)]), vec![slot(4, scores)]);
    assert_eq!(full.len(), 4);
    assert!(full[0].ends_with("(key)"));
}

#[test]
fn fail_fast_stops_before_the_items() {
    let repeated = rules(
        RulesType::Repeated(RepeatedRules {
            min_items: Some(3),
            max_items: None,
            unique: None,
            items: Some(Box::new(min_len(2))),
        }),
        number(1, 3),
    );
    let tags = || Value::List(Rc::new(vec![text("x"), text("y")]));
    let full = fast_finds_the_first(on(vec![(3, repeated)]), vec![slot(3, tags())]);
    assert_eq!(full.len(), 3);
    let repeated = rules(
        RulesType::Repeated(RepeatedRules {
            min_items: None,
            max_items: None,
            unique: None,
            items: Some(Box::new(min_len(2))),
        }),
        vec![],
    );
    let full = fast_finds_the_first(on(vec![(3, repeated)]), vec![slot(3, tags())]);
    assert_eq!(full.len(), 2);
}

#[test]
fn fail_fast_answers_with_the_first_violation() {
    let mut validator = validator(vec![on(vec![(1, min_len(2)), (2, above(17))])]);
    let broken = record(vec![slot(1, text("a")), slot(2, Value::Int(17))]);
    let full = match validator.run_at::<Memory>("test.User", &broken, false, Timestamp(0)) {
        Ok(violations) => violations,
        Err(error) => panic!("{:?}", error),
    };
    let first: Vec<Violation> = full.into_iter().take(1).collect();
    match validator.validate_message::<Memory>("test.User", &broken, true) {
        Err(Error::Validation(error)) => {
            assert_eq!(error.violations(), encode_violations(&first).as_slice());
        }
        _ => panic!(),
    }
}

#[test]
fn validation_errors_carry_the_violations() {
    let mut validator = validator(vec![on(vec![(2, above(17))])]);
    let broken = record(vec![]);
    let violations =
        match validator.run_at::<Memory>("test.User", &broken, false, Timestamp(0)) {
            Ok(violations) => violations,
            Err(error) => panic!("{:?}", error),
        };
    let element = &violations[0].field.as_ref().unwrap().elements[0];
    assert_eq!(element.field_number, Some(2));
    assert_eq!(element.field_type, Some(Type::Int32));
    let rule = &violations[0].rule.as_ref().unwrap().elements;
    assert_eq!(rule[0].field_number, Some(3));
    assert_eq!(rule[0].field_type, Some(Type::Message));
    assert_eq!(rule[1].field_number, Some(4));
    match validator.validate_message::<Memory>("test.User", &broken, false) {
        Err(Error::Validation(error)) => {
            assert_eq!(error.violations(), encode_violations(&violations).as_slice());
            assert!(!error.violations().is_empty());
            assert_eq!(error.text(), "validation failed");
        }
        _ => panic!(),
    }
}

#[test]
fn required_fields() {
    let required = FieldRules {
        required: Some(true),
        ..min_len(2)
    };
    let options = || {
        on(vec![
            (
                1,
                FieldRules {
                    required: Some(true),
                    ..min_len(2)
                },
            ),
        ])
    };
    // What is required and missing is not checked further.
    assert_eq!(
        found(options(), vec![slot(1, text(""))]),
        vec!["name | required | required | value is required"],
    );
    assert_eq!(
        found(on(vec![(1, required)]), vec![slot(1, text("a"))]),
        vec!["name | string.min_len | string.min_len | must be at least 2 characters"],
    );
}

#[test]
fn ignored_fields() {
    let ignoring = |ignore: Option<Ignore>| FieldRules {
        ignore,
        ..min_len(2)
    };
    let empty = || vec![slot(1, text(""))];
    assert_eq!(found(on(vec![(1, ignoring(None))]), empty()).len(), 1);
    assert_eq!(
        found(on(vec![(1, ignoring(Some(Ignore::Unspecified)))]), empty()).len(),
        1
    );
    assert!(found(on(vec![(1, ignoring(Some(Ignore::IfZeroValue)))]), empty()).is_empty());
    let short = || vec![slot(1, text("a"))];
    assert_eq!(
        found(on(vec![(1, ignoring(Some(Ignore::IfZeroValue)))]), short()).len(),
        1
    );
    assert!(found(on(vec![(1, ignoring(Some(Ignore::Always)))]), short()).is_empty());
}

#[test]
fn unset_fields_that_track_presence_are_ignored() {
    let unset = vec![Slot {
        number: 10,
        set: false,
        value: text(""),
    }];
    assert!(found(on(vec![(10, min_len(2))]), unset).is_empty());
    assert_eq!(
        found(on(vec![(10, min_len(2))]), vec![slot(10, text(""))]),
        vec!["nick | string.min_len | string.min_len | must be at least 2 characters"],
    );
}

#[test]
fn always_ignored_rules_are_not_compiled() {
    let wrong = FieldRules {
        ignore: Some(Ignore::Always),
        ..above(1)
    };
    assert!(found(on(vec![(1, wrong)]), vec![]).is_empty());
}

#[test]
fn rules_of_the_wrong_type() {
    assert_eq!(
        refusal(on(vec![(1, above(1))])),
        "field type does not match rule type: string != int32",
    );
    let repeated = rules(
        RulesType::Repeated(RepeatedRules {
            min_items: None,
            max_items: None,
            unique: None,
            items: None,
        }),
        vec![],
    );
    assert_eq!(
        refusal(on(vec![(1, repeated)])),
        "repeated field validator on non-repeated field",
    );
    let map = rules(
        RulesType::Mapping(MapRules {
            min_pairs: None,
            max_pairs: None,
            keys: None,
            values: None,
        }),
        vec![],
    );
    assert_eq!(
        refusal(on(vec![(3, map)])),
        "map field validator on non-map field",
    );
    let any = rules(
        RulesType::Any(AnyRules {
            in_list: vec![],
            not_in: vec![],
        }),
        vec![],
    );
    assert_eq!(
        refusal(on(vec![(6, any)])),
        "any field validator on non-any field",
    );
}

#[test]
fn rules_messages_are_read_as_their_descriptors_say() {
    // A field that the rules message does not have.
    let unknown = FieldRules {
        standard: Some(StandardRules {
            rules: RulesType::String(strings()),
            bytes: number(99, 1),
        }),
        ..plain()
    };
    assert_eq!(
        refusal(on(vec![(1, unknown)])),
        "unknown rules in buf.validate.StringRules",
    );
    // Bytes that are no message.
    let broken = FieldRules {
        standard: Some(StandardRules {
            rules: RulesType::String(strings()),
            bytes: vec![0x3a, 0x7f],
        }),
        ..plain()
    };
    assert!(refusal(on(vec![(1, broken)]))
        .starts_with("could not decode buf.validate.StringRules: "));
    // Only the rules that are set are checked.
    let unset = FieldRules {
        standard: Some(StandardRules {
            rules: RulesType::String(StringRules {
                min_len: Some(5),
                prefix: Some("x".to_owned()),
                ..strings()
            }),
            bytes: part(7, b"x"),
        }),
        ..plain()
    };
    assert_eq!(
        found(on(vec![(1, unset)]), vec![slot(1, text("a"))]),
        vec!["name | string.prefix | string.prefix | does not have prefix `x`"],
    );
    // Both, in field-number order whatever the order of the bytes.
    let both = FieldRules {
        standard: Some(StandardRules {
            rules: RulesType::String(StringRules {
                min_len: Some(5),
                prefix: Some("x".to_owned()),
                ..strings()
            }),
            bytes: all(&[part(7, b"x"), number(2, 5)]),
        }),
        ..plain()
    };
    assert_eq!(
        found(on(vec![(1, both)]), vec![slot(1, text("a"))]),
        vec![
            "name | string.min_len | string.min_len | must be at least 5 characters",
            "name | string.prefix | string.prefix | does not have prefix `x`",
        ],
    );
}

#[test]
fn rules_whose_type_is_not_registered() {
    let duration = rules(
        RulesType::Bool(protovalidate::validate::rules::BoolRules { constant: None }),
        vec![],
    );
    let mut options = on(vec![(1, duration)]);
    options.full_name = "bare.Flag".to_owned();
    let bare = file(
        "bare.proto",
        "bare",
        &[],
        &[message("Flag", &[field("on", 1, 1, BOOL, "")], &[])],
    );
    let mut validator = opened(NoCel, told(bare.clone(), vec![options], vec![]), &base());
    assert!(validator.add_file_descriptor_bytes(&bare).is_ok());
    match validator.run_at::<Memory>("bare.Flag", &record(vec![]), false, Timestamp(0)) {
        Err(Error::Unexpected(message)) => {
            assert_eq!(message, "buf.validate.BoolRules is not registered")
        }
        _ => panic!(),
    }
}

#[test]
fn patterns_that_do_not_compile_are_reported_every_time() {
    let bad = || {
        on(vec![(
            1,
            rules(
                RulesType::String(StringRules {
                    pattern: Some("(".to_owned()),
                    ..strings()
                }),
                part(6, b"("),
            ),
        )])
    };
    let mut validator = validator(vec![bad()]);
    for _ in 0..2 {
        match validator.validate_message::<Memory>("test.User", &record(vec![]), false) {
            Err(Error::Compilation(message)) => {
                assert!(message.starts_with("invalid regex pattern `(`: "))
            }
            _ => panic!(),
        }
    }
}

// Lists, maps, enums and Any.

#[test]
fn items_of_lists() {
    let repeated = rules(
        RulesType::Repeated(RepeatedRules {
            min_items: Some(3),
            max_items: None,
            unique: None,
            items: Some(Box::new(min_len(2))),
        }),
        number(1, 3),
    );
    let tags = vec![slot(
        3,
        Value::List(Rc::new(vec![text("ok"), text("x")])),
    )];
    assert_eq!(
        found(on(vec![(3, repeated)]), tags),
        vec![
            "tags | repeated.min_items | repeated.min_items | must contain at least 3 item(s)",
            "tags[1] | repeated.items.string.min_len | string.min_len | must be at least 2 characters",
        ],
    );
}

#[test]
fn keys_and_values_of_maps() {
    let map = rules(
        RulesType::Mapping(MapRules {
            min_pairs: None,
            max_pairs: None,
            keys: Some(Box::new(min_len(2))),
            values: Some(Box::new(above(0))),
        }),
        vec![],
    );
    let scores = vec![slot(
        4,
        Value::Mapping(Rc::new(vec![
            (Key::String("k".to_owned()), Value::Int(1)),
            (Key::String("key".to_owned()), Value::Int(0)),
        ])),
    )];
    let mut validator = validator(vec![on(vec![(4, map)])]);
    let message = record(scores);
    assert_eq!(
        found_by(&mut validator, &message, false),
        vec![
            "scores[\"k\"] | map.keys.string.min_len | string.min_len | must be at least 2 characters (key)",
            "scores[\"key\"] | map.values.int32.gt | int32.gt | must be greater than 0",
        ],
    );
    match validator.run_at::<Memory>("test.User", &message, false, Timestamp(0)) {
        Ok(violations) => {
            let element = &violations[0].field.as_ref().unwrap().elements[0];
            assert_eq!(element.key_type, Some(Type::String));
            assert_eq!(element.value_type, Some(Type::Int32));
        }
        Err(_) => panic!(),
    }
}

#[test]
fn enums_with_defined_values_only() {
    let defined = || {
        on(vec![(
            5,
            rules(
                RulesType::Enum(EnumRules {
                    constant: None,
                    defined_only: Some(true),
                    in_list: vec![],
                    not_in: vec![],
                }),
                number(2, 1),
            ),
        )])
    };
    assert!(found(defined(), vec![slot(5, Value::Enum(1))]).is_empty());
    assert_eq!(
        found(defined(), vec![slot(5, Value::Enum(7))]),
        vec!["color | enum.defined_only | enum.defined_only | value must be one of the defined enum values"],
    );
}

#[test]
fn types_of_any() {
    let any = || {
        on(vec![(
            7,
            rules(
                RulesType::Any(AnyRules {
                    in_list: vec!["t/a".to_owned()],
                    not_in: vec!["t/b".to_owned()],
                }),
                all(&[part(2, b"t/a"), part(3, b"t/b")]),
            ),
        )])
    };
    let thing = |url: &str| {
        vec![slot(
            7,
            Value::Message(record(vec![slot(1, text(url))])),
        )]
    };
    assert!(found(any(), thing("t/a")).is_empty());
    let broken = found(any(), thing("t/b"));
    assert_eq!(broken.len(), 2);
    assert!(broken[0].starts_with("thing | any.in | any.in | "));
    assert!(broken[1].starts_with("thing | any.not_in | any.not_in | "));
}

// Messages.

fn street() -> TypeOptions {
    TypeOptions {
        full_name: "test.Address".to_owned(),
        message: None,
        fields: vec![FieldOptions {
            number: 1,
            rules: min_len(1),
        }],
        oneofs: vec![],
    }
}

#[test]
fn nested_messages_are_validated_when_set() {
    let empty = || Value::Message(record(vec![slot(1, text(""))]));
    assert_eq!(
        found(street(), vec![slot(6, empty())]),
        vec!["home.street | string.min_len | string.min_len | must be at least 1 characters"],
    );
    let unset = vec![Slot {
        number: 6,
        set: false,
        value: empty(),
    }];
    assert!(found(street(), unset).is_empty());
    let homes = vec![slot(
        11,
        Value::List(Rc::new(vec![
            Value::Message(record(vec![slot(1, text("a"))])),
            empty(),
        ])),
    )];
    assert_eq!(
        found(street(), homes),
        vec!["homes[1].street | string.min_len | string.min_len | must be at least 1 characters"],
    );
}

#[test]
fn nested_messages_that_are_ignored() {
    let ignored = FieldRules {
        ignore: Some(Ignore::Always),
        ..plain()
    };
    let mut validator = validator(vec![on(vec![(6, ignored)]), street()]);
    let message = record(vec![slot(
        6,
        Value::Message(record(vec![slot(1, text(""))])),
    )]);
    assert!(found_by(&mut validator, &message, false).is_empty());
}

#[test]
fn rules_that_do_not_compile_below_the_root_are_reported() {
    let mut bad = street();
    bad.fields[0].rules = above(1);
    let mut validator = validator(vec![bad]);
    // No address is set, and still.
    match validator.validate_message::<Memory>("test.User", &record(vec![]), false) {
        Err(Error::Compilation(message)) => assert_eq!(
            message,
            "field type does not match rule type: string != int32"
        ),
        _ => panic!(),
    }
}

#[test]
fn required_oneofs() {
    let options = || TypeOptions {
        oneofs: vec![OneofOptions {
            name: "contact".to_owned(),
            rules: OneofRules {
                required: Some(true),
            },
        }],
        ..on(vec![])
    };
    assert_eq!(
        found(options(), vec![]),
        vec!["contact |  | required | exactly one field is required in oneof"],
    );
    assert!(found(options(), vec![slot(9, text(""))]).is_empty());
}

fn message_oneof(fields: &[&str], required: Option<bool>) -> TypeOptions {
    TypeOptions {
        message: Some(MessageRules {
            cel_expression: vec![],
            cel: vec![],
            oneof: vec![MessageOneofRule {
                fields: fields.iter().map(|s| (*s).to_owned()).collect(),
                required,
            }],
        }),
        ..on(vec![])
    }
}

#[test]
fn message_oneofs() {
    let both = || vec![slot(1, text("a")), slot(2, Value::Int(1))];
    assert_eq!(
        found(message_oneof(&["name", "age"], None), both()),
        vec![" |  | message.oneof | only one of name, age can be set"],
    );
    assert!(found(message_oneof(&["name", "age"], None), vec![]).is_empty());
    assert_eq!(
        found(message_oneof(&["name", "age"], Some(true)), vec![]),
        vec![" |  | message.oneof | one of name, age must be set"],
    );
    // A field goes by its JSON name too.
    assert!(found(message_oneof(&["nickName"], None), vec![]).is_empty());
}

#[test]
fn message_oneofs_that_are_refused() {
    assert_eq!(
        refusal(message_oneof(&[], None)),
        "at least one field must be specified in oneof rule for the message test.User",
    );
    assert_eq!(
        refusal(message_oneof(&["name", "name"], None)),
        "duplicate \"name\" in oneof rule for the message test.User",
    );
    assert_eq!(
        refusal(message_oneof(&["nobody"], None)),
        "field \"nobody\" not found in message test.User",
    );
}

#[test]
fn members_of_message_oneofs_are_ignored_when_unset() {
    let mut options = message_oneof(&["name", "age"], None);
    options.fields.push(FieldOptions {
        number: 1,
        rules: min_len(2),
    });
    assert!(found(options, vec![slot(1, text("")), slot(2, Value::Int(1))]).is_empty());
}

// Reads that fail.

#[test]
fn failed_reads_end_validation() {
    let mut validator = validator(vec![on(vec![(1, min_len(2)), (2, above(1))])]);
    let broken = record(vec![
        slot(1, Value::Broken("no".to_owned())),
        slot(2, Value::Int(0)),
    ]);
    match validator.validate_message::<Memory>("test.User", &broken, false) {
        Err(Error::Read(error)) => assert_eq!(error.inner(), "no"),
        _ => panic!(),
    }
    // With the violation first, failing fast does not get to the read.
    let late = record(vec![
        slot(1, text("")),
        slot(2, Value::Broken("late".to_owned())),
    ]);
    assert_eq!(found_by(&mut validator, &late, true).len(), 1);
    match validator.validate_message::<Memory>("test.User", &late, false) {
        Err(Error::Read(error)) => assert_eq!(error.into_inner(), "late"),
        _ => panic!(),
    }
}

#[test]
fn failed_reads_below_the_root_end_validation() {
    let mut validator = validator(vec![on(vec![]), street()]);
    let unread = || Value::Message(record(vec![slot(1, Value::Broken("street".to_owned()))]));
    let street = |s: &str| Value::Message(record(vec![slot(1, text(s))]));
    // The third of the messages cannot be read; those before it are valid.
    let homes = vec![street("a"), street("b"), unread(), street("")];
    let broken = record(vec![slot(11, Value::List(Rc::new(homes)))]);
    for fail_fast in [false, true] {
        match validator.validate_message::<Memory>("test.User", &broken, fail_fast) {
            Err(Error::Read(error)) => assert_eq!(error.inner(), "street"),
            _ => panic!(),
        }
    }
    // With a violation before it, failing fast does not get there.
    let late = record(vec![slot(
        11,
        Value::List(Rc::new(vec![street(""), unread()])),
    )]);
    assert_eq!(found_by(&mut validator, &late, true).len(), 1);
    match validator.validate_message::<Memory>("test.User", &late, false) {
        Err(Error::Read(error)) => assert_eq!(error.inner(), "street"),
        _ => panic!(),
    }
}

/// A runtime of `test.Atlas` and `test.Address` messages, whose maps cannot
/// be counted.
struct Uncounted;

#[derive(Clone)]
enum Page {
    Atlas(Vec<Result<(&'static str, &'static str), &'static str>>),
    Address(&'static str),
}

struct Nothing;

struct Pages(Vec<Result<(&'static str, &'static str), &'static str>>);

impl Runtime for Uncounted {
    type Error = String;
    type Message = Page;
    type List = Nothing;
    type Entries = Pages;
}

impl Message<Uncounted> for Page {
    fn has(&self, _: &Field) -> Result<bool, ReadError<String>> {
        Ok(true)
    }

    fn get(&self, _: &Field) -> Result<Option<Val<Uncounted>>, ReadError<String>> {
        Ok(Some(match self {
            Page::Atlas(pages) => Val::Mapping(Pages(pages.clone())),
            Page::Address(street) => Val::String((*street).to_owned()),
        }))
    }

    fn encode(&self) -> Result<Vec<u8>, ReadError<String>> {
        Err(ReadError::new("encoded".to_owned()))
    }
}

impl List<Uncounted> for Nothing {
    fn len(&self) -> Result<usize, ReadError<String>> {
        Ok(0)
    }

    fn get(&self, _: usize) -> Result<Option<Val<Uncounted>>, ReadError<String>> {
        Ok(None)
    }
}

impl Entries<Uncounted> for Pages {
    fn len(&self) -> Result<usize, ReadError<String>> {
        Err(ReadError::new("counted".to_owned()))
    }

    fn entry(&self, index: usize) -> Result<Option<(Key, Val<Uncounted>)>, ReadError<String>> {
        match self.0.get(index) {
            Some(Ok((key, street))) => Ok(Some((
                Key::String((*key).to_owned()),
                Val::Message(Page::Address(street)),
            ))),
            Some(Err(error)) => Err(ReadError::new((*error).to_owned())),
            None => Ok(None),
        }
    }
}

#[test]
fn maps_of_messages_are_walked_without_being_counted() {
    let entry = message(
        "PlacesEntry",
        &[
            field("key", 1, 1, STRING, ""),
            field("value", 2, 1, MESSAGE, ".test.Address"),
        ],
        &[part(7, &number(7, 1))],
    );
    let atlas = message(
        "Atlas",
        &[field("places", 1, 3, MESSAGE, ".test.Atlas.PlacesEntry")],
        &[part(3, &entry)],
    );
    let mut validator = validator(vec![street()]);
    assert!(validator
        .add_file_descriptor_bytes(&file("atlas.proto", "test", &["user.proto"], &[atlas]))
        .is_ok());
    let mut run = |pages: Page, fail_fast: bool| {
        validator.run_at::<Uncounted>("test.Atlas", &pages, fail_fast, Timestamp(0))
    };
    match run(Page::Atlas(vec![Ok(("a", "b")), Ok(("c", ""))]), false) {
        Ok(violations) => assert_eq!(
            violations.iter().map(shown).collect::<Vec<_>>(),
            vec!["places[\"c\"].street | string.min_len | string.min_len | must be at least 1 characters"],
        ),
        Err(error) => panic!("{:?}", error),
    }
    let late = || Page::Atlas(vec![Ok(("c", "")), Err("entry")]);
    match run(late(), false) {
        Err(Error::Read(error)) => assert_eq!(error.inner(), "entry"),
        _ => panic!(),
    }
    match run(late(), true) {
        Ok(violations) => assert_eq!(violations.len(), 1),
        Err(error) => panic!("{:?}", error),
    }
}

// Custom rules.

/// An engine whose expressions say themselves what they give: `yes`, `no`,
/// `say TEXT`, `fail`, `other`, `this` (whether `this` is a message of three
/// bytes), `size N` (whether `this` is a string of that many bytes) and
/// `bound` (whether `rules` is bound).
struct Script;

struct Compiled {
    expressions: Vec<String>,
    bound: Option<String>,
}

impl Engine for Script {
    type Program = Compiled;

    type Frame = (String, Vec<u8>);

    fn add_file(&mut self, file: &[u8]) -> Result<(), cel::Error> {
        if file == schema_file().as_slice() || file == any_file().as_slice() {
            return Ok(());
        }
        if file == user_file().as_slice() {
            return Ok(());
        }
        Err(cel::Error::Argument("what file?".to_owned()))
    }

    fn compile(
        &self,
        rules: &Option<Binding>,
        expressions: &Vec<Expression>,
    ) -> Result<Compiled, cel::Error> {
        if expressions.iter().any(|e| e.expression == "bad") {
            return Err(cel::Error::Compilation("bad expression".to_owned()));
        }
        Ok(Compiled {
            expressions: expressions
                .iter()
                .map(|e| format!("{}#{}", e.expression, e.rule_field_number))
                .collect(),
            bound: rules
                .as_ref()
                .map(|b| format!("{}:{:?}", b.full_name, b.bytes)),
        })
    }

    fn frame(&self, full_name: &str, bytes: &Vec<u8>) -> Result<(String, Vec<u8>), cel::Error> {
        Ok((full_name.to_owned(), bytes.clone()))
    }

    fn eval(
        &self,
        program: &Compiled,
        index: usize,
        this: &This<'_, (String, Vec<u8>)>,
    ) -> Result<cel::Value, cel::Error> {
        let (expression, rule) = program.expressions[index].split_once('#').unwrap();
        Ok(match expression.split_once(' ').unwrap_or((expression, "")) {
            ("yes", _) => cel::Value::Bool(true),
            ("no", _) => cel::Value::Bool(false),
            ("say", text) => cel::Value::String(text.to_owned()),
            ("other", _) => cel::Value::Other,
            ("this", name) => match this {
                This::Message(frame) => {
                    cel::Value::Bool(frame.0 == name && frame.1 == vec![1, 2, 3])
                }
                This::Field(frame, number) => {
                    cel::Value::Bool(format!("{}.{}", frame.0, number) == name)
                }
                This::Scalar(cel::Scalar::String(s)) => cel::Value::Bool(*s == name),
                _ => cel::Value::Bool(false),
            },
            ("bound", what) => cel::Value::Bool(
                program.bound.as_deref() == Some(what) && rule == "1000",
            ),
            _ => return Err(cel::Error::Runtime(format!("cannot {}", expression))),
        })
    }
}

fn rule(id: &str, message: &str, expression: &str) -> Rule {
    Rule {
        id: Some(id.to_owned()),
        message: Some(message.to_owned()),
        expression: Some(expression.to_owned()),
    }
}

fn cel_field(expressions: &[&str], cel: Vec<Rule>) -> FieldRules {
    FieldRules {
        cel_expression: expressions.iter().map(|s| (*s).to_owned()).collect(),
        cel,
        ..plain()
    }
}

fn scripted(options: TypeOptions, fields: Vec<Slot>) -> Vec<String> {
    found_by(
        &mut validator_with(Script, vec![options]),
        &record(fields),
        false,
    )
}

#[test]
fn custom_rules_need_a_runtime() {
    assert_eq!(
        refusal(on(vec![(1, cel_field(&["yes"], vec![]))])),
        "custom CEL rules require the `cel` feature of the protovalidate crate",
    );
}

#[test]
fn custom_rules_of_fields() {
    let options = on(vec![(
        1,
        cel_field(
            &["yes", "no"],
            vec![
                rule("a", "a is wrong", "no"),
                rule("b", "", "say so"),
                rule("c", "c is wrong", "say "),
                rule("d", "", "this x"),
            ],
        ),
    )]);
    assert_eq!(
        scripted(options, vec![slot(1, text("x"))]),
        vec![
            "name | cel_expression[1] | no | \"no\" returned false",
            "name | cel[0] | a | a is wrong",
            "name | cel[1] | b | so",
        ],
    );
}

#[test]
fn standard_rules_run_before_custom_ones() {
    let options = on(vec![(
        1,
        FieldRules {
            cel: vec![rule("a", "a is wrong", "no")],
            ..min_len(9)
        },
    )]);
    assert_eq!(
        scripted(options, vec![slot(1, text("x"))]),
        vec![
            "name | string.min_len | string.min_len | must be at least 9 characters",
            "name | cel[0] | a | a is wrong",
        ],
    );
}

#[test]
fn custom_rules_of_messages() {
    let options = TypeOptions {
        message: Some(MessageRules {
            cel_expression: vec!["this test.User".to_owned()],
            cel: vec![rule("m", "message is wrong", "no")],
            oneof: vec![],
        }),
        ..on(vec![])
    };
    assert_eq!(
        scripted(options, vec![]),
        vec![" |  | m | message is wrong"],
    );
}

#[test]
fn containers_are_bound_through_their_message() {
    let options = on(vec![(
        3,
        cel_field(&["this test.User.3", "this test.User.4"], vec![]),
    )]);
    let tags = vec![slot(3, Value::List(Rc::new(vec![text("a")])))];
    assert_eq!(
        scripted(options, tags),
        vec!["tags | cel_expression[1] | this test.User.4 | \"this test.User.4\" returned false"],
    );
}

#[test]
fn custom_rules_that_do_not_compile() {
    let mut validator = validator_with(Script, vec![on(vec![(1, cel_field(&["bad"], vec![]))])]);
    match validator.validate_message::<Memory>("test.User", &record(vec![]), false) {
        Err(Error::Compilation(message)) => assert_eq!(message, "bad expression"),
        _ => panic!(),
    }
}

#[test]
fn custom_rules_that_fail() {
    let mut validator = validator_with(Script, vec![on(vec![(1, cel_field(&["fail"], vec![]))])]);
    match validator.validate_message::<Memory>("test.User", &record(vec![]), false) {
        Err(error) => {
            assert_eq!(error.text().as_deref(), Some("evaluation error: cannot fail"))
        }
        _ => panic!(),
    }
}

#[test]
fn engines_can_refuse_files() {
    let mut validator = opened(Script, NoOptions, &vec![]);
    let other = file("other.proto", "other", &[], &[message("M", &[], &[])]);
    match validator.add_file_descriptor_bytes(&other) {
        Err(error) => assert_eq!(error.text(), "what file?"),
        Ok(()) => panic!(),
    }
}

/// A file with an extension of `StringRules`, numbered 1000.
fn extension_file() -> Vec<u8> {
    let mut extension = field("shouts", 1000, 1, BOOL, "");
    extension.extend(part(2, b".buf.validate.StringRules"));
    let mut out = file(
        "ext.proto",
        "ext",
        &["buf/validate/validate.proto"],
        &[],
    );
    out.extend(part(7, &extension));
    out
}

#[test]
fn predefined_rules_of_extensions() {
    let bytes = number(1000, 1);
    let bound = format!("bound buf.validate.StringRules:{:?}", bytes);
    let extension = ExtensionRule {
        extendee: "buf.validate.StringRules".to_owned(),
        full_name: "ext.shouts".to_owned(),
        number: 1000,
        ty: Type::Bool,
        predefined: Some(vec![
            rule("ext.bound", "not bound", &bound),
            rule("ext.shouts", "must shout", "no"),
        ]),
    };
    let options = on(vec![(1, rules(RulesType::String(strings()), bytes))]);
    let reader = told(extension_file(), vec![], vec![extension]);
    reader.0.borrow_mut().push((
        user_file(),
        FileOptions {
            types: vec![options],
            extensions: vec![],
        },
    ));
    let mut validator = opened(Script, reader, &base());
    // The engine does not know the file, and says so; the types are linked.
    assert!(validator
        .add_file_descriptor_bytes(&extension_file())
        .is_err());
    assert!(validator.add_file_descriptor_bytes(&user_file()).is_ok());
    assert_eq!(
        found_by(&mut validator, &record(vec![slot(1, text("x"))]), false),
        vec!["name | string.[ext.shouts] | ext.shouts | must shout"],
    );
}

#[test]
fn messages_are_serialized_only_for_custom_rules() {
    let options = || on(vec![(1, min_len(2))]);
    let fields = || vec![slot(1, text("a"))];
    let one = Rc::new(Record {
        fields: fields(),
        encoded: vec![],
    });
    let other = Rc::new(Record {
        fields: fields(),
        encoded: vec![9],
    });
    let mut validator = validator_with(Script, vec![options()]);
    assert_eq!(
        found_by(&mut validator, &one, false),
        found_by(&mut validator, &other, false),
    );
}

#[test]
fn messages_below_are_serialized_only_for_custom_rules() {
    let with_home = |encoded: Vec<u8>| {
        let home = Rc::new(Record {
            fields: vec![slot(1, text(""))],
            encoded,
        });
        record(vec![slot(6, Value::Message(home))])
    };
    let mut validator = validator_with(Script, vec![on(vec![]), street()]);
    let first = found_by(&mut validator, &with_home(vec![]), false);
    assert_eq!(first.len(), 1);
    assert_eq!(found_by(&mut validator, &with_home(vec![9]), false), first);
}

#[test]
fn types_registered_later_leave_what_is_compiled() {
    let mut validator = validator(vec![on(vec![(1, min_len(2))]), street()]);
    let broken = record(vec![
        slot(1, text("a")),
        slot(6, Value::Message(record(vec![slot(1, text(""))]))),
    ]);
    let first = found_by(&mut validator, &broken, false);
    let later = file("later.proto", "later", &["user.proto"], &[message("M", &[], &[])]);
    assert!(validator
        .add_file_descriptor_bytes(&later)
        .is_ok());
    assert_eq!(found_by(&mut validator, &broken, false), first);
    assert!(validator
        .validate_message::<Memory>("later.M", &record(vec![]), false)
        .is_ok());
}

#[test]
fn messages_without_rules_are_valid() {
    let mut validator = validator(vec![]);
    for name in ["test.Address", "test.User"] {
        match validator.run_at::<Memory>(name, &record(vec![]), false, Timestamp(0)) {
            Ok(violations) => assert!(violations.is_empty()),
            Err(error) => panic!("{:?}", error),
        }
    }
}

#[test]
fn validating_again_answers_the_same() {
    let mut validator = validator(vec![on(vec![(1, min_len(2))]), street()]);
    let broken = record(vec![
        slot(1, text("a")),
        slot(6, Value::Message(record(vec![slot(1, text(""))]))),
    ]);
    let first = found_by(&mut validator, &broken, false);
    assert_eq!(first.len(), 2);
    assert_eq!(found_by(&mut validator, &broken, false), first);
    // The address was compiled along with the user.
    match validator.run_at::<Memory>("test.Address", &record(vec![]), false, Timestamp(0)) {
        Ok(violations) => assert_eq!(violations.len(), 1),
        Err(error) => panic!("{:?}", error),
    }
}

#[test]
fn custom_rules_of_messages_need_a_runtime() {
    let options = TypeOptions {
        message: Some(MessageRules {
            cel_expression: vec!["yes".to_owned()],
            cel: vec![],
            oneof: vec![],
        }),
        ..on(vec![])
    };
    assert_eq!(
        refusal(options),
        "custom CEL rules require the `cel` feature of the protovalidate crate",
    );
}

#[test]
fn custom_rules_below_the_root_need_a_runtime() {
    let address = |rules: FieldRules| TypeOptions {
        full_name: "test.Address".to_owned(),
        message: None,
        fields: vec![FieldOptions { number: 1, rules }],
        oneofs: vec![],
    };
    let mut validator = validator(vec![on(vec![]), address(cel_field(&["yes"], vec![]))]);
    for _ in 0..2 {
        match validator.validate_message::<Memory>("test.User", &record(vec![]), false) {
            Err(Error::Compilation(message)) => assert_eq!(
                message,
                "custom CEL rules require the `cel` feature of the protovalidate crate",
            ),
            _ => panic!(),
        }
    }
}

#[test]
fn custom_rules_that_give_something_else() {
    let mut validator = validator_with(Script, vec![on(vec![(1, cel_field(&["other"], vec![]))])]);
    match validator.validate_message::<Memory>("test.User", &record(vec![]), false) {
        Err(Error::Evaluation(message)) => assert_eq!(message, "invalid result type"),
        _ => panic!(),
    }
}

#[test]
fn custom_rules_of_items() {
    let items = |rules: FieldRules| {
        rules_of(
            RulesType::Repeated(RepeatedRules {
                min_items: None,
                max_items: None,
                unique: None,
                items: Some(Box::new(rules)),
            }),
        )
    };
    let options = on(vec![
        (3, items(cel_field(&["this b"], vec![]))),
        (11, items(cel_field(&["this test.Address"], vec![]))),
    ]);
    let fields = vec![
        slot(3, Value::List(Rc::new(vec![text("a"), text("b")]))),
        slot(
            11,
            Value::List(Rc::new(vec![Value::Message(record(vec![]))])),
        ),
    ];
    assert_eq!(
        scripted(options, fields),
        vec!["tags[0] | repeated.items.cel_expression[0] | this b | \"this b\" returned false"],
    );
}

fn rules_of(standard: RulesType) -> FieldRules {
    rules(standard, vec![])
}
