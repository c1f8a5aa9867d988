//! Descriptors written by hand: what fields are told to runtimes as, the
//! evaluators built from them, and what reading a rules message gives.

use buffa_descriptor::DescriptorPool;
use protovalidate::cel::NoCel;
use protovalidate::descriptors::{
    extension_path_element, oneof_path_element, path_element, proto_type, Descriptors,
    EnumDescriptor, FieldDescriptor, FieldKind, FieldPresence, MessageDescriptor, SingularKind,
};
use protovalidate::protobuf::{Kind, Scalar, Singular};
use protovalidate::registry::{describe_messages, resolve_schema};
use protovalidate::rules::build::{Builder, Decoded};
use protovalidate::validate::rules::{
    ExtensionRule, FieldOptions, FieldRules, GreaterThan, NumericRules, Rule, RulesType,
    StandardRules, TypeOptions,
};
use protovalidate::validate::Type;
use protovalidate::Error;
use std::collections::HashMap;
use std::sync::Arc;

fn field(name: &str, number: u32, kind: FieldKind) -> FieldDescriptor {
    FieldDescriptor {
        name: name.to_owned(),
        json_name: format!("{}Json", name),
        number,
        kind,
        group: false,
        presence: FieldPresence::Implicit,
        oneof: None,
    }
}

fn scalar(scalar: Scalar) -> FieldKind {
    FieldKind::Singular(SingularKind::Scalar(scalar))
}

fn message(full_name: &str, fields: Vec<FieldDescriptor>) -> MessageDescriptor {
    MessageDescriptor {
        full_name: full_name.to_owned(),
        fields,
        oneofs: vec![],
    }
}

/// `t.A` has fields of `t.B`, `t.B` of itself; nothing has one of `t.C`.
fn descriptors() -> Descriptors {
    Descriptors {
        messages: vec![
            message(
                "t.A",
                vec![
                    field("n", 1, scalar(Scalar::Int32)),
                    field(
                        "later",
                        9,
                        FieldKind::Mapping {
                            key: Scalar::String,
                            value: SingularKind::Message(1),
                        },
                    ),
                    field("b", 4, FieldKind::Singular(SingularKind::Message(1))),
                    field("e", 5, FieldKind::List(SingularKind::Enum(0))),
                ],
            ),
            message(
                "t.B",
                vec![field("b", 1, FieldKind::List(SingularKind::Message(1)))],
            ),
            message(
                "buf.validate.Int32Rules",
                vec![field("gt", 4, scalar(Scalar::Int32))],
            ),
        ],
        enums: vec![EnumDescriptor {
            full_name: "t.E".to_owned(),
            values: vec![0, 2],
        }],
        options: vec![],
        extensions: vec![],
    }
}

fn above(n: i32) -> StandardRules {
    StandardRules {
        rules: RulesType::Int32(NumericRules {
            constant: None,
            less_than: None,
            greater_than: Some(GreaterThan::Gt(n)),
            in_list: vec![],
            not_in: vec![],
        }),
        bytes: vec![0x20, n as u8],
    }
}

#[test]
fn fields_as_runtimes_are_told() {
    let all = descriptors();
    let fields = &all.messages[0].fields;
    let told = all.field(&fields[1]);
    assert_eq!(told.number(), 9);
    assert_eq!(told.name(), "later");
    assert_eq!(
        told.kind(),
        Kind::Mapping {
            key: Scalar::String,
            value: Singular::Message
        }
    );
    assert_eq!(told.message_type(), Some("t.B"));
    assert!(!told.has_presence());
    let mut explicit = field("x", 1, scalar(Scalar::Bool));
    explicit.presence = FieldPresence::LegacyRequired;
    explicit.oneof = Some("one".to_owned());
    let told = all.field(&explicit);
    assert!(told.has_presence());
    assert_eq!(told.oneof(), Some("one"));
    assert_eq!(told.message_type(), None);
    assert_eq!(told.copy().name(), "x");
    // A list never tracks presence.
    let mut list = field("l", 1, FieldKind::List(SingularKind::Enum(0)));
    list.presence = FieldPresence::Explicit;
    assert!(!all.field(&list).has_presence());
}

#[test]
fn path_elements() {
    let all = descriptors();
    let element = path_element(&all.messages[0].fields[0]);
    assert_eq!(element.field_number, Some(1));
    assert_eq!(element.field_name.as_deref(), Some("n"));
    assert_eq!(element.field_type, Some(Type::Int32));
    assert_eq!(element.key_type, None);
    let mut group = field("g", 1, FieldKind::Singular(SingularKind::Message(0)));
    assert_eq!(proto_type(&group), Type::Message);
    group.group = true;
    assert_eq!(proto_type(&group), Type::Group);
    let element = oneof_path_element("o");
    assert_eq!(element.field_name.as_deref(), Some("o"));
    assert_eq!(element.field_number, None);
    let element = extension_path_element(&ExtensionRule {
        extendee: "x".to_owned(),
        full_name: "p.ext".to_owned(),
        number: 1000,
        ty: Type::Sint32,
        predefined: None,
    });
    assert_eq!(element.field_name.as_deref(), Some("[p.ext]"));
    assert_eq!(element.field_number, Some(1000));
    assert_eq!(element.field_type, Some(Type::Sint32));
}

#[test]
fn types_by_name() {
    let all = descriptors();
    assert_eq!(all.message_index("t.B"), Some(1));
    assert_eq!(all.message_index(".t.B"), Some(1));
    assert_eq!(all.message_index("t.X"), None);
    assert_eq!(all.full_name(0), "t.A");
    assert_eq!(all.full_name(7), "");
    assert!(all.numbered_field("t.A", 4).is_some());
    assert!(all.numbered_field("t.A", 2).is_none());
    assert!(all.numbered_field("t.X", 1).is_none());
}

#[test]
fn elements_of_rules_that_are_not_registered_go_by_name() {
    let all = descriptors();
    let schema = resolve_schema(&all);
    assert_eq!(schema.required.field_name.as_deref(), Some("required"));
    assert_eq!(schema.required.field_number, None);
    assert!(schema.types.is_empty());
    assert_eq!(
        schema.type_element("int32").field_name.as_deref(),
        Some("int32")
    );
}

#[test]
fn an_empty_pool_has_no_types() {
    assert!(describe_messages(&Arc::new(DescriptorPool::default())).is_empty());
}

#[test]
fn reachable_types_are_compiled_together() {
    let all = descriptors();
    let pool = Arc::new(DescriptorPool::default());
    let schema = resolve_schema(&all);
    let builder = Builder::new(&all, &pool, &schema, &NoCel);
    let built = match builder.build_closure::<String>(0, &HashMap::new()) {
        Ok(built) => built,
        Err(error) => panic!("{:?}", error),
    };
    let places: Vec<u64> = built.iter().map(|(place, _)| *place).collect();
    assert_eq!(places, vec![0, 1]);
    // Messages are validated in field-number order.
    let nested: Vec<u32> = built[0].1.nested.iter().map(|n| n.field.number()).collect();
    assert_eq!(nested, vec![4, 9]);
    let mut known = HashMap::new();
    for (place, evaluator) in built {
        if place == 1 {
            known.insert(place, evaluator);
        }
    }
    match builder.build_closure::<String>(0, &known) {
        Ok(built) => assert_eq!(built.len(), 1),
        Err(error) => panic!("{:?}", error),
    }
    match builder.build_closure::<String>(1, &known) {
        Ok(built) => assert!(built.is_empty()),
        Err(error) => panic!("{:?}", error),
    }
}

#[test]
fn options_go_by_type_and_number() {
    let rules = FieldRules {
        required: Some(true),
        ignore: None,
        cel_expression: vec![],
        cel: vec![],
        standard: None,
    };
    let mut all = descriptors();
    all.options.push(TypeOptions {
        full_name: "t.A".to_owned(),
        message: None,
        fields: vec![FieldOptions { number: 1, rules }],
        oneofs: vec![],
    });
    let pool = Arc::new(DescriptorPool::default());
    let schema = resolve_schema(&all);
    let builder = Builder::new(&all, &pool, &schema, &NoCel);
    match builder.build_message::<String>(&all.messages[0]) {
        Ok(evaluator) => {
            assert_eq!(evaluator.fields.len(), 1);
            assert_eq!(evaluator.fields[0].field.name(), "n");
            assert!(evaluator.fields[0].required);
            assert!(!evaluator.fields[0].rules.ignore_empty);
        }
        Err(error) => panic!("{:?}", error),
    }
    match builder.build_message::<String>(&all.messages[1]) {
        Ok(evaluator) => assert!(evaluator.fields.is_empty()),
        Err(error) => panic!("{:?}", error),
    }
}

#[test]
fn what_reading_a_rules_message_gives() {
    let mut all = descriptors();
    all.extensions.push(ExtensionRule {
        extendee: "buf.validate.Int32Rules".to_owned(),
        full_name: "p.even".to_owned(),
        number: 1000,
        ty: Type::Bool,
        predefined: Some(vec![Rule {
            id: Some("even".to_owned()),
            message: None,
            expression: Some("this % 2 == 0".to_owned()),
        }]),
    });
    let pool = Arc::new(DescriptorPool::default());
    let schema = resolve_schema(&all);
    let builder = Builder::new(&all, &pool, &schema, &NoCel);
    let standard = above(3);
    // A declared field, an extension with rules, and one without.
    let decoded = Decoded {
        unknown: false,
        numbers: vec![4, 1000, 1001],
    };
    match builder.decoded_rules::<String>(&standard, Ok(decoded)) {
        Ok((checks, compiled)) => {
            assert_eq!(checks.len(), 1);
            assert_eq!(checks[0].id, "int32.gt");
            assert_eq!(checks[0].rule_path[0].field_name.as_deref(), Some("gt"));
            assert_eq!(checks[0].rule_path[1].field_name.as_deref(), Some("int32"));
            assert_eq!(compiled.expressions.len(), 1);
            assert_eq!(compiled.expressions[0].expression, "this % 2 == 0");
            assert_eq!(compiled.expressions[0].rule_field_number, 1000);
            assert_eq!(compiled.metas[0].id, "even");
            assert_eq!(compiled.metas[0].message, "");
            match compiled.rules {
                Some(binding) => {
                    assert_eq!(binding.full_name, "buf.validate.Int32Rules");
                    assert_eq!(binding.bytes, vec![0x20, 3]);
                }
                None => panic!(),
            }
        }
        Err(error) => panic!("{:?}", error),
    }
    let unknown = Decoded {
        unknown: true,
        numbers: vec![4],
    };
    match builder.decoded_rules::<String>(&standard, Ok(unknown)) {
        Err(Error::Compilation(message)) => {
            assert_eq!(message, "unknown rules in buf.validate.Int32Rules")
        }
        _ => panic!(),
    }
    match builder.decoded_rules::<String>(&standard, Err("too short".to_owned())) {
        Err(Error::Compilation(message)) => assert_eq!(
            message,
            "could not decode buf.validate.Int32Rules: too short"
        ),
        _ => panic!(),
    }
    match builder.set_rules::<String>(&standard.rules, &vec![]) {
        Ok((checks, compiled)) => {
            assert!(checks.is_empty());
            assert!(compiled.expressions.is_empty());
            assert!(compiled.rules.is_none());
        }
        Err(error) => panic!("{:?}", error),
    }
}
