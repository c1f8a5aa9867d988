//! What the rules read off message types.

use crate::protobuf::{well_known_field, Field, FieldV, Kind, Scalar, Singular};
use crate::strings::{characters, same_text};
use crate::text::concat3;
use crate::validate::rules::{
    ExtensionRule, FieldOptions, FieldRules, MessageRules, OneofOptions, OneofRules, TypeOptions,
};
use crate::validate::{
    copy_text, path_of, text_of, FieldPathElement, FieldPathElementV, Type,
};
use vstd::prelude::*;

verus! {

/// The type of one value.
#[derive(Clone, Copy, Debug, PartialEq, Eq, Structural)]
pub enum SingularKind {
    Scalar(Scalar),
    /// The enum at this place among the descriptors.
    Enum(u64),
    /// The message type at this place among the descriptors.
    Message(u64),
}

/// How a field holds its values.
#[derive(Clone, Copy, Debug, PartialEq, Eq, Structural)]
pub enum FieldKind {
    Singular(SingularKind),
    List(SingularKind),
    Mapping { key: Scalar, value: SingularKind },
}

/// Whether a field tracks that it was set.
#[derive(Clone, Copy, Debug, PartialEq, Eq, Structural)]
pub enum FieldPresence {
    Explicit,
    Implicit,
    LegacyRequired,
}

/// A field of a message type.
#[derive(Debug)]
pub struct FieldDescriptor {
    pub name: String,
    pub json_name: String,
    pub number: u32,
    pub kind: FieldKind,
    /// Whether its messages are encoded as groups.
    pub group: bool,
    pub presence: FieldPresence,
    /// The oneof it is a member of, by name; the synthetic oneof of a proto3
    /// `optional` field does not count.
    pub oneof: Option<String>,
}

/// A oneof of a message type.
#[derive(Debug)]
pub struct OneofDescriptor {
    pub name: String,
    /// Its members, by their places among the fields.
    pub fields: Vec<u16>,
}

/// A message type.
#[derive(Debug)]
pub struct MessageDescriptor {
    pub full_name: String,
    pub fields: Vec<FieldDescriptor>,
    pub oneofs: Vec<OneofDescriptor>,
}

/// An enum, by the numbers it defines.
#[derive(Debug)]
pub struct EnumDescriptor {
    pub full_name: String,
    pub values: Vec<i32>,
}

/// The registered message types and enums, and the options they carry.
#[derive(Debug)]
pub struct Descriptors {
    pub messages: Vec<MessageDescriptor>,
    pub enums: Vec<EnumDescriptor>,
    pub options: Vec<TypeOptions>,
    pub extensions: Vec<ExtensionRule>,
}

/// The type of one value, as a runtime is told.
pub open spec fn singular_of(kind: SingularKind) -> Singular {
    match kind {
        SingularKind::Scalar(scalar) => Singular::Scalar(scalar),
        SingularKind::Enum(_) => Singular::Enum,
        SingularKind::Message(_) => Singular::Message,
    }
}

/// How a field holds its values, as a runtime is told.
pub open spec fn kind_of(kind: FieldKind) -> Kind {
    match kind {
        FieldKind::Singular(kind) => Kind::Singular(singular_of(kind)),
        FieldKind::List(kind) => Kind::List(singular_of(kind)),
        FieldKind::Mapping { key, value } => Kind::Mapping { key, value: singular_of(value) },
    }
}

/// The type of a field's values: a map's are its values.
pub open spec fn value_kind(kind: FieldKind) -> SingularKind {
    match kind {
        FieldKind::Singular(kind) => kind,
        FieldKind::List(kind) => kind,
        FieldKind::Mapping { value, .. } => value,
    }
}

/// The message type of a field's values, by its place among the descriptors.
pub open spec fn message_index(kind: FieldKind) -> Option<u64> {
    match value_kind(kind) {
        SingularKind::Message(index) => Some(index),
        _ => None,
    }
}

/// The `FieldDescriptorProto.Type` of a scalar type.
pub open spec fn type_of_scalar(scalar: Scalar) -> Type {
    match scalar {
        Scalar::Bool => Type::Bool,
        Scalar::Int32 => Type::Int32,
        Scalar::Int64 => Type::Int64,
        Scalar::Uint32 => Type::Uint32,
        Scalar::Uint64 => Type::Uint64,
        Scalar::Sint32 => Type::Sint32,
        Scalar::Sint64 => Type::Sint64,
        Scalar::Fixed32 => Type::Fixed32,
        Scalar::Fixed64 => Type::Fixed64,
        Scalar::Sfixed32 => Type::Sfixed32,
        Scalar::Sfixed64 => Type::Sfixed64,
        Scalar::Float => Type::Float,
        Scalar::Double => Type::Double,
        Scalar::String => Type::String,
        Scalar::Bytes => Type::Bytes,
    }
}

/// The `FieldDescriptorProto.Type` of one value.
pub open spec fn type_of_kind(kind: SingularKind) -> Type {
    match kind {
        SingularKind::Scalar(scalar) => type_of_scalar(scalar),
        SingularKind::Enum(_) => Type::Enum,
        SingularKind::Message(_) => Type::Message,
    }
}

/// The `FieldDescriptorProto.Type` of a field: a map's is that of its
/// entries, which are messages.
pub open spec fn type_of_field(field: FieldDescriptor) -> Type {
    match field.kind {
        FieldKind::Mapping { .. } => Type::Message,
        FieldKind::Singular(kind) => if field.group {
            Type::Group
        } else {
            type_of_kind(kind)
        },
        FieldKind::List(kind) => if field.group {
            Type::Group
        } else {
            type_of_kind(kind)
        },
    }
}

/// A field number as path elements have it.
pub open spec fn signed_number(number: u32) -> i32 {
    if number <= i32::MAX {
        number as i32
    } else {
        i32::MAX
    }
}

/// The path element of a field.
pub open spec fn field_element(field: FieldDescriptor) -> FieldPathElementV {
    FieldPathElementV {
        field_number: Some(signed_number(field.number)),
        field_name: Some(field.name@),
        field_type: Some(type_of_field(field)),
        key_type: None,
        value_type: None,
        subscript: None,
    }
}

/// The path element for a map field's entries, which carries the key and
/// value types alongside the field.
pub open spec fn map_element(field: FieldDescriptor) -> FieldPathElementV {
    match field.kind {
        FieldKind::Mapping { key, value } => FieldPathElementV {
            key_type: Some(type_of_scalar(key)),
            value_type: Some(type_of_kind(value)),
            ..field_element(field)
        },
        _ => field_element(field),
    }
}

/// A path element that has a name alone, as the one of a oneof.
pub open spec fn named_element(name: Seq<char>) -> FieldPathElementV {
    FieldPathElementV {
        field_number: None,
        field_name: Some(name),
        field_type: None,
        key_type: None,
        value_type: None,
        subscript: None,
    }
}

/// The type of one value, as a runtime is told.
fn singular(kind: SingularKind) -> (r: Singular)
    ensures
        r == singular_of(kind),
{
    match kind {
        SingularKind::Scalar(scalar) => Singular::Scalar(scalar),
        SingularKind::Enum(_) => Singular::Enum,
        SingularKind::Message(_) => Singular::Message,
    }
}

/// The type of a field's values: a map's are its values.
pub(crate) fn values_kind(kind: FieldKind) -> (r: SingularKind)
    ensures
        r == value_kind(kind),
{
    match kind {
        FieldKind::Singular(kind) => kind,
        FieldKind::List(kind) => kind,
        FieldKind::Mapping { value, .. } => value,
    }
}

/// The message type of a field's values, by its place among the descriptors.
pub fn message_type(field: &FieldDescriptor) -> (r: Option<u64>)
    ensures
        r == message_index(field.kind),
{
    match values_kind(field.kind) {
        SingularKind::Message(index) => Some(index),
        _ => None,
    }
}

/// The `FieldDescriptorProto.Type` of a scalar type.
pub fn scalar_type(scalar: Scalar) -> (r: Type)
    ensures
        r == type_of_scalar(scalar),
{
    match scalar {
        Scalar::Bool => Type::Bool,
        Scalar::Int32 => Type::Int32,
        Scalar::Int64 => Type::Int64,
        Scalar::Uint32 => Type::Uint32,
        Scalar::Uint64 => Type::Uint64,
        Scalar::Sint32 => Type::Sint32,
        Scalar::Sint64 => Type::Sint64,
        Scalar::Fixed32 => Type::Fixed32,
        Scalar::Fixed64 => Type::Fixed64,
        Scalar::Sfixed32 => Type::Sfixed32,
        Scalar::Sfixed64 => Type::Sfixed64,
        Scalar::Float => Type::Float,
        Scalar::Double => Type::Double,
        Scalar::String => Type::String,
        Scalar::Bytes => Type::Bytes,
    }
}

/// The `FieldDescriptorProto.Type` of one value.
pub(crate) fn singular_type(kind: SingularKind) -> (r: Type)
    ensures
        r == type_of_kind(kind),
{
    match kind {
        SingularKind::Scalar(scalar) => scalar_type(scalar),
        SingularKind::Enum(_) => Type::Enum,
        SingularKind::Message(_) => Type::Message,
    }
}

/// The `FieldDescriptorProto.Type` of a field: a map's is that of its
/// entries, which are messages.
pub fn proto_type(field: &FieldDescriptor) -> (r: Type)
    ensures
        r == type_of_field(*field),
{
    match field.kind {
        FieldKind::Mapping { .. } => Type::Message,
        FieldKind::Singular(kind) => if field.group {
            Type::Group
        } else {
            singular_type(kind)
        },
        FieldKind::List(kind) => if field.group {
            Type::Group
        } else {
            singular_type(kind)
        },
    }
}

/// A field number, as path elements hold it.
fn element_number(number: u32) -> (r: i32)
    ensures
        r == signed_number(number),
{
    if number <= 0x7fff_ffff {
        number as i32
    } else {
        i32::MAX
    }
}

/// The path element of a field.
pub fn path_element(field: &FieldDescriptor) -> (r: FieldPathElement)
    ensures
        r@ == field_element(*field),
{
    FieldPathElement {
        field_number: Some(element_number(field.number)),
        field_name: Some(field.name.clone()),
        field_type: Some(proto_type(field)),
        key_type: None,
        value_type: None,
        subscript: None,
    }
}

/// The path element for a map field's entries, which carries the key and
/// value types alongside the field.
pub(crate) fn entry_element(field: &FieldDescriptor) -> (r: FieldPathElement)
    ensures
        r@ == map_element(*field),
{
    let mut element = path_element(field);
    match field.kind {
        FieldKind::Mapping { key, value } => {
            element.key_type = Some(scalar_type(key));
            element.value_type = Some(singular_type(value));
        },
        _ => {},
    }
    element
}

/// The path element of a oneof.
pub fn oneof_path_element(name: &str) -> (r: FieldPathElement)
    ensures
        r@ == named_element(name@),
{
    FieldPathElement {
        field_number: None,
        field_name: Some(name.to_owned()),
        field_type: None,
        key_type: None,
        value_type: None,
        subscript: None,
    }
}

/// The element of the field of `FieldRules` that holds the standard rules
/// `name`.
pub open spec fn type_element_from(
    types: Seq<FieldPathElementV>,
    name: Seq<char>,
    i: int,
) -> FieldPathElementV
    decreases types.len() - i,
{
    if i < 0 || i >= types.len() {
        named_element(name)
    } else if types[i].field_name == Some(name) {
        types[i]
    } else {
        type_element_from(types, name, i + 1)
    }
}

impl SchemaV {
    /// The element of the field of `FieldRules` that holds the standard
    /// rules `name`.
    pub open spec fn type_element(self, name: Seq<char>) -> FieldPathElementV {
        type_element_from(self.types, name, 0)
    }
}

impl Schema {
    /// The element of the field of `FieldRules` that holds the standard
    /// rules `name`.
    pub fn type_element(&self, name: &str) -> (r: FieldPathElement)
        ensures
            r@ == self@.type_element(name@),
    {
        let ghost types = self@.types;
        let mut i: usize = 0;
        while i < self.types.len()
            invariant
                i <= self.types@.len(),
                types == path_of(self.types@),
                types == self@.types,
                type_element_from(types, name@, 0) == type_element_from(types, name@, i as int),
            decreases self.types@.len() - i,
        {
            assert(types[i as int] == self.types@[i as int]@);
            match &self.types[i].field_name {
                Some(found) => {
                    if same_text(found.as_str(), name) {
                        return self.types[i].copy();
                    }
                },
                None => {},
            }
            i += 1;
        }
        oneof_path_element(name)
    }
}

/// The position of the field numbered `number` from the `i`th on.
pub open spec fn field_numbered(fields: Seq<FieldDescriptor>, number: u32, i: int) -> Option<int>
    decreases fields.len() - i,
{
    if i < 0 || i >= fields.len() {
        None
    } else if fields[i].number == number {
        Some(i)
    } else {
        field_numbered(fields, number, i + 1)
    }
}

/// The position of the extension field numbered `number` of the rules
/// message `extendee` from the `i`th on.
pub open spec fn extension_from(
    extensions: Seq<ExtensionRule>,
    extendee: Seq<char>,
    number: u32,
    i: int,
) -> Option<int>
    decreases extensions.len() - i,
{
    if i < 0 || i >= extensions.len() {
        None
    } else if extensions[i].number == number && extensions[i].extendee@ == extendee {
        Some(i)
    } else {
        extension_from(extensions, extendee, number, i + 1)
    }
}

/// The path element of an extension field, which is named in brackets.
pub open spec fn extension_element(extension: ExtensionRule) -> FieldPathElementV {
    FieldPathElementV {
        field_number: Some(signed_number(extension.number)),
        field_name: Some("["@ + extension.full_name@ + "]"@),
        field_type: Some(extension.ty),
        key_type: None,
        value_type: None,
        subscript: None,
    }
}

/// The path element of an extension field, which is named in brackets.
pub fn extension_path_element(extension: &ExtensionRule) -> (r: FieldPathElement)
    ensures
        r@ == extension_element(*extension),
{
    FieldPathElement {
        field_number: Some(element_number(extension.number)),
        field_name: Some(concat3("[", extension.full_name.as_str(), "]")),
        field_type: Some(extension.ty),
        key_type: None,
        value_type: None,
        subscript: None,
    }
}

/// The position of the options of the type `name` from the `i`th on.
pub open spec fn options_from(options: Seq<TypeOptions>, name: Seq<char>, i: int) -> Option<int>
    decreases options.len() - i,
{
    if i < 0 || i >= options.len() {
        None
    } else if options[i].full_name@ == name {
        Some(i)
    } else {
        options_from(options, name, i + 1)
    }
}

/// The rules of the field numbered `number` from the `i`th on.
pub open spec fn field_rules_from(fields: Seq<FieldOptions>, number: u32, i: int) -> Option<
    FieldRules,
>
    decreases fields.len() - i,
{
    if i < 0 || i >= fields.len() {
        None
    } else if fields[i].number == number {
        Some(fields[i].rules)
    } else {
        field_rules_from(fields, number, i + 1)
    }
}

/// The rules of the oneof `name` from the `i`th on.
pub open spec fn oneof_rules_from(oneofs: Seq<OneofOptions>, name: Seq<char>, i: int) -> Option<
    OneofRules,
>
    decreases oneofs.len() - i,
{
    if i < 0 || i >= oneofs.len() {
        None
    } else if oneofs[i].name@ == name {
        Some(oneofs[i].rules)
    } else {
        oneof_rules_from(oneofs, name, i + 1)
    }
}

/// A name without its leading dot, if it has one.
pub open spec fn undotted(name: Seq<char>) -> Seq<char> {
    if name.len() > 0 && name[0] == '.' {
        name.skip(1)
    } else {
        name
    }
}

/// What a reference that may be there refers to.
pub open spec fn referred<T>(r: Option<&T>) -> Option<T> {
    match r {
        Some(value) => Some(*value),
        None => None,
    }
}

impl Descriptors {
    /// The field numbered `number` of the message type `name`.
    pub open spec fn field_of(self, name: Seq<char>, number: u32) -> Option<FieldDescriptor> {
        match self.index_from(name, 0) {
            Some(i) => {
                let fields = self.messages@[i as int].fields@;
                match field_numbered(fields, number, 0) {
                    Some(j) => Some(fields[j]),
                    None => None,
                }
            },
            None => None,
        }
    }

    /// The extension field numbered `number` of the rules message
    /// `extendee`.
    pub open spec fn extension_of(self, extendee: Seq<char>, number: u32) -> Option<
        ExtensionRule,
    > {
        match extension_from(self.extensions@, extendee, number, 0) {
            Some(i) => Some(self.extensions@[i]),
            None => None,
        }
    }

    /// The field numbered `number` of the message type `name`.
    pub fn numbered_field(&self, name: &str, number: u32) -> (r: Option<&FieldDescriptor>)
        ensures
            referred(r) == self.field_of(name@, number),
    {
        let index = match self.exact_index(name) {
            Some(index) => index,
            None => return None,
        };
        let count: usize = self.messages.len();
        assert(index < count);
        let fields = &self.messages[index as usize].fields;
        let mut i: usize = 0;
        while i < fields.len()
            invariant
                i <= fields@.len(),
                self.field_of(name@, number) == match field_numbered(fields@, number, i as int) {
                    Some(j) => Some(fields@[j]),
                    None => None,
                },
            decreases fields@.len() - i,
        {
            if fields[i].number == number {
                return Some(&fields[i]);
            }
            i += 1;
        }
        None
    }

    /// The extension field numbered `number` of the rules message
    /// `extendee`.
    pub fn extension(&self, extendee: &str, number: u32) -> (r: Option<&ExtensionRule>)
        ensures
            referred(r) == self.extension_of(extendee@, number),
    {
        let mut i: usize = 0;
        while i < self.extensions.len()
            invariant
                i <= self.extensions@.len(),
                extension_from(self.extensions@, extendee@, number, 0) == extension_from(
                    self.extensions@,
                    extendee@,
                    number,
                    i as int,
                ),
            decreases self.extensions@.len() - i,
        {
            if self.extensions[i].number == number && same_text(
                self.extensions[i].extendee.as_str(),
                extendee,
            ) {
                return Some(&self.extensions[i]);
            }
            i += 1;
        }
        None
    }

    /// The rules of a message type.
    pub open spec fn message_rules_of(self, message: MessageDescriptor) -> Option<MessageRules> {
        match options_from(self.options@, message.full_name@, 0) {
            Some(i) => self.options@[i].message,
            None => None,
        }
    }

    /// The rules of a field.
    pub open spec fn field_rules_of(
        self,
        message: MessageDescriptor,
        field: FieldDescriptor,
    ) -> Option<FieldRules> {
        match options_from(self.options@, message.full_name@, 0) {
            Some(i) => field_rules_from(self.options@[i].fields@, field.number, 0),
            None => None,
        }
    }

    /// The rules of a oneof.
    pub open spec fn oneof_rules_of(
        self,
        message: MessageDescriptor,
        oneof: OneofDescriptor,
    ) -> Option<OneofRules> {
        match options_from(self.options@, message.full_name@, 0) {
            Some(i) => oneof_rules_from(self.options@[i].oneofs@, oneof.name@, 0),
            None => None,
        }
    }

    /// The options of a message type.
    fn type_options(&self, name: &str) -> (r: Option<&TypeOptions>)
        ensures
            match (r, options_from(self.options@, name@, 0)) {
                (Some(options), Some(i)) => 0 <= i < self.options@.len() && *options
                    == self.options@[i],
                (None, None) => true,
                _ => false,
            },
    {
        let mut i: usize = 0;
        while i < self.options.len()
            invariant
                i <= self.options@.len(),
                options_from(self.options@, name@, 0) == options_from(
                    self.options@,
                    name@,
                    i as int,
                ),
            decreases self.options@.len() - i,
        {
            if same_text(self.options[i].full_name.as_str(), name) {
                return Some(&self.options[i]);
            }
            i += 1;
        }
        None
    }

    /// The rules of a message type.
    pub fn message_rules(&self, message: &MessageDescriptor) -> (r: Option<&MessageRules>)
        ensures
            referred(r) == self.message_rules_of(*message),
    {
        match self.type_options(message.full_name.as_str()) {
            Some(options) => match &options.message {
                Some(rules) => Some(rules),
                None => None,
            },
            None => None,
        }
    }

    /// The rules of a field.
    pub fn field_rules(&self, message: &MessageDescriptor, field: &FieldDescriptor) -> (r: Option<
        &FieldRules,
    >)
        ensures
            referred(r) == self.field_rules_of(*message, *field),
    {
        match self.type_options(message.full_name.as_str()) {
            Some(options) => {
                let fields = &options.fields;
                let mut i: usize = 0;
                while i < fields.len()
                    invariant
                        i <= fields@.len(),
                        self.field_rules_of(*message, *field) == field_rules_from(
                            fields@,
                            field.number,
                            i as int,
                        ),
                    decreases fields@.len() - i,
                {
                    if fields[i].number == field.number {
                        return Some(&fields[i].rules);
                    }
                    i += 1;
                }
                None
            },
            None => None,
        }
    }

    /// The rules of a oneof.
    pub fn oneof_rules(&self, message: &MessageDescriptor, oneof: &OneofDescriptor) -> (r: Option<
        &OneofRules,
    >)
        ensures
            referred(r) == self.oneof_rules_of(*message, *oneof),
    {
        match self.type_options(message.full_name.as_str()) {
            Some(options) => {
                let oneofs = &options.oneofs;
                let mut i: usize = 0;
                while i < oneofs.len()
                    invariant
                        i <= oneofs@.len(),
                        self.oneof_rules_of(*message, *oneof) == oneof_rules_from(
                            oneofs@,
                            oneof.name@,
                            i as int,
                        ),
                    decreases oneofs@.len() - i,
                {
                    if same_text(oneofs[i].name.as_str(), oneof.name.as_str()) {
                        return Some(&oneofs[i].rules);
                    }
                    i += 1;
                }
                None
            },
            None => None,
        }
    }

    /// The name of the message type at a place among the descriptors.
    pub open spec fn name_at(self, index: u64) -> Seq<char> {
        if index < self.messages@.len() {
            self.messages@[index as int].full_name@
        } else {
            Seq::empty()
        }
    }

    /// A field, as a runtime is told of it.
    pub open spec fn field_at(self, field: FieldDescriptor) -> FieldV {
        FieldV {
            number: field.number,
            name: field.name@,
            kind: kind_of(field.kind),
            message_type: match message_index(field.kind) {
                Some(index) => Some(self.name_at(index)),
                None => None,
            },
            has_presence: kind_of(field.kind) is Singular && field.presence
                != FieldPresence::Implicit,
            oneof: text_of(field.oneof),
        }
    }

    /// The place of the message type `name` from the `i`th on.
    pub open spec fn index_from(self, name: Seq<char>, i: int) -> Option<u64>
        decreases self.messages@.len() - i,
    {
        if i < 0 || i >= self.messages@.len() {
            None
        } else if self.messages@[i].full_name@ == name {
            Some(i as u64)
        } else {
            self.index_from(name, i + 1)
        }
    }

    /// The place of the message type `name`, which may have a leading dot.
    pub fn message_index(&self, name: &str) -> (r: Option<u64>)
        ensures
            r == self.index_from(undotted(name@), 0),
            r matches Some(index) ==> index < self.messages@.len(),
    {
        let all = characters(name);
        if all.len() > 0 && all[0] == '.' {
            return self.exact_index(name.substring_char(1, all.len()));
        }
        self.exact_index(name)
    }

    /// The place of the message type `name`.
    pub(crate) fn exact_index(&self, name: &str) -> (r: Option<u64>)
        ensures
            r == self.index_from(name@, 0),
            r matches Some(index) ==> index < self.messages@.len(),
    {
        let mut i: usize = 0;
        while i < self.messages.len()
            invariant
                i <= self.messages@.len(),
                self.index_from(name@, 0) == self.index_from(name@, i as int),
            decreases self.messages@.len() - i,
        {
            if same_text(self.messages[i].full_name.as_str(), name) {
                return Some(i as u64);
            }
            i += 1;
        }
        None
    }

    /// The name of the message type at a place among the descriptors.
    pub fn full_name(&self, index: u64) -> (r: String)
        ensures
            r@ == self.name_at(index),
    {
        if index < self.messages.len() as u64 {
            self.messages[index as usize].full_name.clone()
        } else {
            proof {
                reveal_strlit("");
                assert(""@ =~= Seq::<char>::empty());
            }
            "".to_owned()
        }
    }

    /// A field, as a runtime is told of it.
    pub fn field(&self, field: &FieldDescriptor) -> (r: Field)
        ensures
            r@ == self.field_at(*field),
    {
        let kind = match field.kind {
            FieldKind::Singular(kind) => Kind::Singular(singular(kind)),
            FieldKind::List(kind) => Kind::List(singular(kind)),
            FieldKind::Mapping { key, value } => Kind::Mapping { key, value: singular(value) },
        };
        let has_presence = match kind {
            Kind::Singular(_) => field.presence != FieldPresence::Implicit,
            _ => false,
        };
        Field::new(
            field.number,
            field.name.clone(),
            kind,
            match message_type(field) {
                Some(index) => Some(self.full_name(index)),
                None => None,
            },
            has_presence,
            copy_text(&field.oneof),
        )
    }

    /// The full name of each message type.
    pub open spec fn types(self) -> Seq<Seq<char>> {
        self.messages@.map_values(|m: MessageDescriptor| m.full_name@)
    }

    /// The numbers that each enum defines.
    pub open spec fn numbers(self) -> Seq<Seq<i32>> {
        self.enums@.map_values(|e: EnumDescriptor| e.values@)
    }
}

/// The path elements of the rules that the walk checks itself.
pub struct Schema {
    /// `FieldRules.required`.
    pub required: FieldPathElement,
    /// `FieldRules.any`, `AnyRules.in` and `AnyRules.not_in`.
    pub any: FieldPathElement,
    pub any_in: FieldPathElement,
    pub any_not_in: FieldPathElement,
    /// `FieldRules.enum` and `EnumRules.defined_only`.
    pub enumeration: FieldPathElement,
    pub enum_defined_only: FieldPathElement,
    /// `FieldRules.cel` and `FieldRules.cel_expression`.
    pub cel: FieldPathElement,
    pub cel_expression: FieldPathElement,
    /// `FieldRules.repeated` and `RepeatedRules.items`.
    pub repeated: FieldPathElement,
    pub repeated_items: FieldPathElement,
    /// `FieldRules.map`, `MapRules.keys` and `MapRules.values`.
    pub mapping: FieldPathElement,
    pub map_keys: FieldPathElement,
    pub map_values: FieldPathElement,
    /// The fields of `FieldRules` that hold the standard rules of a type.
    pub types: Vec<FieldPathElement>,
}

/// What a [`Schema`] holds.
pub struct SchemaV {
    pub required: FieldPathElementV,
    pub any: FieldPathElementV,
    pub any_in: FieldPathElementV,
    pub any_not_in: FieldPathElementV,
    pub enumeration: FieldPathElementV,
    pub enum_defined_only: FieldPathElementV,
    pub cel: FieldPathElementV,
    pub cel_expression: FieldPathElementV,
    pub repeated: FieldPathElementV,
    pub repeated_items: FieldPathElementV,
    pub mapping: FieldPathElementV,
    pub map_keys: FieldPathElementV,
    pub map_values: FieldPathElementV,
    pub types: Seq<FieldPathElementV>,
}

impl View for Schema {
    type V = SchemaV;

    open spec fn view(&self) -> SchemaV {
        SchemaV {
            required: self.required@,
            any: self.any@,
            any_in: self.any_in@,
            any_not_in: self.any_not_in@,
            enumeration: self.enumeration@,
            enum_defined_only: self.enum_defined_only@,
            cel: self.cel@,
            cel_expression: self.cel_expression@,
            repeated: self.repeated@,
            repeated_items: self.repeated_items@,
            mapping: self.mapping@,
            map_keys: self.map_keys@,
            map_values: self.map_values@,
            types: path_of(self.types@),
        }
    }
}

/// `google.protobuf.Duration.seconds`, and that of a `Timestamp`.
pub open spec fn seconds_field() -> FieldV {
    well_known_field(1, "seconds"@, Kind::Singular(Singular::Scalar(Scalar::Int64)))
}

/// `google.protobuf.Duration.nanos`, and that of a `Timestamp`.
pub open spec fn nanos_field() -> FieldV {
    well_known_field(2, "nanos"@, Kind::Singular(Singular::Scalar(Scalar::Int32)))
}

/// `google.protobuf.FieldMask.paths`.
pub open spec fn paths_field() -> FieldV {
    well_known_field(1, "paths"@, Kind::List(Singular::Scalar(Scalar::String)))
}

/// `google.protobuf.Any.type_url`.
pub open spec fn any_url_field() -> FieldV {
    well_known_field(1, "type_url"@, Kind::Singular(Singular::Scalar(Scalar::String)))
}

/// `google.protobuf.Duration.seconds`, and that of a `Timestamp`.
pub fn seconds() -> (r: Field)
    ensures
        r@ == seconds_field(),
{
    Field::well_known(1, "seconds", Kind::Singular(Singular::Scalar(Scalar::Int64)))
}

/// `google.protobuf.Duration.nanos`, and that of a `Timestamp`.
pub fn nanos() -> (r: Field)
    ensures
        r@ == nanos_field(),
{
    Field::well_known(2, "nanos", Kind::Singular(Singular::Scalar(Scalar::Int32)))
}

/// `google.protobuf.FieldMask.paths`.
pub fn field_mask_paths() -> (r: Field)
    ensures
        r@ == paths_field(),
{
    Field::well_known(1, "paths", Kind::List(Singular::Scalar(Scalar::String)))
}

/// `google.protobuf.Any.type_url`.
pub fn any_url() -> (r: Field)
    ensures
        r@ == any_url_field(),
{
    Field::well_known(1, "type_url", Kind::Singular(Singular::Scalar(Scalar::String)))
}

/// The first element of a kind is found: the place that is given is that of
/// one, and none stands before it; where none is given, there is none.
pub open spec fn first_of(place: Option<int>, len: nat, fits: spec_fn(int) -> bool) -> bool {
    match place {
        Some(i) => 0 <= i < len && fits(i) && forall|j: int| 0 <= j < i ==> !#[trigger] fits(j),
        None => forall|j: int| 0 <= j < len ==> !#[trigger] fits(j),
    }
}

proof fn lemma_numbered_from(fields: Seq<FieldDescriptor>, number: u32, k: int)
    requires
        0 <= k <= fields.len(),
    ensures
        match field_numbered(fields, number, k) {
            Some(i) => k <= i < fields.len() && fields[i].number == number && forall|j: int|
                k <= j < i ==> (#[trigger] fields[j]).number != number,
            None => forall|j: int|
                k <= j < fields.len() ==> (#[trigger] fields[j]).number != number,
        },
    decreases fields.len() - k,
{
    if k < fields.len() {
        lemma_numbered_from(fields, number, k + 1);
    }
}

/// A field is found by its number: the first that has it.
pub proof fn law_fields_are_found_by_number(fields: Seq<FieldDescriptor>, number: u32)
    ensures
        first_of(
            field_numbered(fields, number, 0),
            fields.len(),
            |i: int| fields[i].number == number,
        ),
{
    lemma_numbered_from(fields, number, 0);
}

proof fn lemma_options_from(options: Seq<TypeOptions>, name: Seq<char>, k: int)
    requires
        0 <= k <= options.len(),
    ensures
        match options_from(options, name, k) {
            Some(i) => k <= i < options.len() && options[i].full_name@ == name && forall|j: int|
                k <= j < i ==> (#[trigger] options[j]).full_name@ != name,
            None => forall|j: int|
                k <= j < options.len() ==> (#[trigger] options[j]).full_name@ != name,
        },
    decreases options.len() - k,
{
    if k < options.len() {
        lemma_options_from(options, name, k + 1);
    }
}

proof fn lemma_field_rules_from(fields: Seq<FieldOptions>, number: u32, k: int)
    requires
        0 <= k <= fields.len(),
    ensures
        field_rules_from(fields, number, k) is None ==> forall|j: int|
            k <= j < fields.len() ==> (#[trigger] fields[j]).number != number,
        field_rules_from(fields, number, k) is Some ==> exists|i: int|
            k <= i < fields.len() && (#[trigger] fields[i]).number == number && Some(
                fields[i].rules,
            ) == field_rules_from(fields, number, k) && forall|j: int|
                k <= j < i ==> (#[trigger] fields[j]).number != number,
    decreases fields.len() - k,
{
    if k < fields.len() {
        lemma_field_rules_from(fields, number, k + 1);
        if fields[k].number == number {
            assert(Some(fields[k].rules) == field_rules_from(fields, number, k));
        } else if field_rules_from(fields, number, k + 1) is Some {
            let i = choose|i: int|
                k + 1 <= i < fields.len() && (#[trigger] fields[i]).number == number && Some(
                    fields[i].rules,
                ) == field_rules_from(fields, number, k + 1) && forall|j: int|
                    k + 1 <= j < i ==> (#[trigger] fields[j]).number != number;
            assert(fields[i].number == number);
        }
    }
}

proof fn lemma_oneof_rules_from(oneofs: Seq<OneofOptions>, name: Seq<char>, k: int)
    requires
        0 <= k <= oneofs.len(),
    ensures
        oneof_rules_from(oneofs, name, k) is None ==> forall|j: int|
            k <= j < oneofs.len() ==> (#[trigger] oneofs[j]).name@ != name,
        oneof_rules_from(oneofs, name, k) is Some ==> exists|i: int|
            k <= i < oneofs.len() && (#[trigger] oneofs[i]).name@ == name && Some(oneofs[i].rules)
                == oneof_rules_from(oneofs, name, k) && forall|j: int|
                k <= j < i ==> (#[trigger] oneofs[j]).name@ != name,
    decreases oneofs.len() - k,
{
    if k < oneofs.len() {
        lemma_oneof_rules_from(oneofs, name, k + 1);
        if oneofs[k].name@ == name {
            assert(Some(oneofs[k].rules) == oneof_rules_from(oneofs, name, k));
        } else if oneof_rules_from(oneofs, name, k + 1) is Some {
            let i = choose|i: int|
                k + 1 <= i < oneofs.len() && (#[trigger] oneofs[i]).name@ == name && Some(
                    oneofs[i].rules,
                ) == oneof_rules_from(oneofs, name, k + 1) && forall|j: int|
                    k + 1 <= j < i ==> (#[trigger] oneofs[j]).name@ != name;
            assert(oneofs[i].name@ == name);
        }
    }
}

/// Whether these are the first options among the registered ones for a
/// message type.
pub open spec fn options_for(d: Descriptors, message: MessageDescriptor, i: int) -> bool {
    &&& 0 <= i < d.options@.len()
    &&& d.options@[i].full_name@ == message.full_name@
    &&& forall|j: int| 0 <= j < i ==> (#[trigger] d.options@[j]).full_name@ != message.full_name@
}

/// The rules of a message type, of its fields and of its oneofs are those
/// that the options for a type of its name hold: a field's by its number, and
/// a oneof's by its name. A type without options has no rules.
pub proof fn law_rules_are_those_of_the_options(
    d: Descriptors,
    message: MessageDescriptor,
    field: FieldDescriptor,
    oneof: OneofDescriptor,
    i: int,
)
    requires
        options_for(d, message, i),
    ensures
        d.message_rules_of(message) == d.options@[i].message,
        d.field_rules_of(message, field) is None ==> forall|j: int|
            0 <= j < d.options@[i].fields@.len() ==> (
            #[trigger] d.options@[i].fields@[j]).number != field.number,
        d.field_rules_of(message, field) is Some ==> exists|j: int|
            0 <= j < d.options@[i].fields@.len() && (
            #[trigger] d.options@[i].fields@[j]).number == field.number && d.field_rules_of(
                message,
                field,
            ) == Some(d.options@[i].fields@[j].rules),
        d.oneof_rules_of(message, oneof) is None ==> forall|j: int|
            0 <= j < d.options@[i].oneofs@.len() ==> (
            #[trigger] d.options@[i].oneofs@[j]).name@ != oneof.name@,
        d.oneof_rules_of(message, oneof) is Some ==> exists|j: int|
            0 <= j < d.options@[i].oneofs@.len() && (
            #[trigger] d.options@[i].oneofs@[j]).name@ == oneof.name@ && d.oneof_rules_of(
                message,
                oneof,
            ) == Some(d.options@[i].oneofs@[j].rules),
{
    lemma_options_from(d.options@, message.full_name@, 0);
    let found = options_from(d.options@, message.full_name@, 0);
    assert(found == Some(i)) by {
        if found is None {
            assert(d.options@[i].full_name@ != message.full_name@);
        } else if found->Some_0 < i {
            assert(d.options@[found->Some_0].full_name@ != message.full_name@);
        } else if found->Some_0 > i {
            assert(d.options@[i].full_name@ != message.full_name@);
        }
    }
    lemma_field_rules_from(d.options@[i].fields@, field.number, 0);
    lemma_oneof_rules_from(d.options@[i].oneofs@, oneof.name@, 0);
}

/// A type without options has no rules, nor have its fields and oneofs.
pub proof fn law_no_options_no_rules(
    d: Descriptors,
    message: MessageDescriptor,
    field: FieldDescriptor,
    oneof: OneofDescriptor,
)
    requires
        forall|j: int|
            0 <= j < d.options@.len() ==> (#[trigger] d.options@[j]).full_name@
                != message.full_name@,
    ensures
        d.message_rules_of(message) is None,
        d.field_rules_of(message, field) is None,
        d.oneof_rules_of(message, oneof) is None,
{
    lemma_options_from(d.options@, message.full_name@, 0);
}

proof fn lemma_index_from(d: Descriptors, name: Seq<char>, k: int)
    requires
        0 <= k <= d.messages@.len(),
        d.messages@.len() <= u64::MAX,
    ensures
        match d.index_from(name, k) {
            Some(i) => k <= i < d.messages@.len() && d.messages@[i as int].full_name@ == name
                && forall|j: int| k <= j < i ==> (#[trigger] d.messages@[j]).full_name@ != name,
            None => forall|j: int|
                k <= j < d.messages@.len() ==> (#[trigger] d.messages@[j]).full_name@ != name,
        },
    decreases d.messages@.len() - k,
{
    if k < d.messages@.len() {
        lemma_index_from(d, name, k + 1);
    }
}

/// A message type is found by its name, and the name of what is found is that
/// name; one leading dot makes no difference.
pub proof fn law_message_types_are_found_by_name(d: Descriptors, name: Seq<char>)
    requires
        d.messages@.len() <= u64::MAX,
    ensures
        d.index_from(name, 0) matches Some(i) ==> i < d.messages@.len() && d.name_at(i) == name,
        d.index_from(name, 0) is None ==> forall|j: int|
            0 <= j < d.messages@.len() ==> (#[trigger] d.messages@[j]).full_name@ != name,
        undotted(seq!['.'] + name) == name,
        name.len() == 0 || name[0] != '.' ==> undotted(name) == name,
{
    lemma_index_from(d, name, 0);
    assert((seq!['.'] + name).skip(1) =~= name);
}

proof fn lemma_extension_from(
    extensions: Seq<ExtensionRule>,
    extendee: Seq<char>,
    number: u32,
    k: int,
)
    requires
        0 <= k <= extensions.len(),
    ensures
        match extension_from(extensions, extendee, number, k) {
            Some(i) => k <= i < extensions.len() && extensions[i].number == number
                && extensions[i].extendee@ == extendee,
            None => forall|j: int|
                k <= j < extensions.len() ==> (#[trigger] extensions[j]).number != number
                    || extensions[j].extendee@ != extendee,
        },
    decreases extensions.len() - k,
{
    if k < extensions.len() {
        lemma_extension_from(extensions, extendee, number, k + 1);
    }
}

/// An extension field of a rules message is found by the message's name and
/// the field's number.
pub proof fn law_extensions_are_found_by_number(d: Descriptors, extendee: Seq<char>, number: u32)
    ensures
        d.extension_of(extendee, number) matches Some(e) ==> e.number == number && e.extendee@
            == extendee && d.extensions@.contains(e),
        d.extension_of(extendee, number) is None ==> forall|j: int|
            0 <= j < d.extensions@.len() ==> (#[trigger] d.extensions@[j]).number != number
                || d.extensions@[j].extendee@ != extendee,
{
    lemma_extension_from(d.extensions@, extendee, number, 0);
}

proof fn lemma_type_element(types: Seq<FieldPathElementV>, name: Seq<char>, k: int)
    requires
        0 <= k <= types.len(),
    ensures
        type_element_from(types, name, k).field_name == Some(name),
        (exists|j: int| k <= j < types.len() && (#[trigger] types[j]).field_name == Some(name))
            ==> types.contains(type_element_from(types, name, k)),
    decreases types.len() - k,
{
    if k < types.len() {
        lemma_type_element(types, name, k + 1);
    }
}

/// The path element of the standard rules of a type has the name of the field
/// that holds them, and is the one that `FieldRules` has where it has one.
pub proof fn law_type_elements_have_the_name(schema: SchemaV, name: Seq<char>)
    ensures
        schema.type_element(name).field_name == Some(name),
        (exists|j: int|
            0 <= j < schema.types.len() && (#[trigger] schema.types[j]).field_name == Some(name))
            ==> schema.types.contains(schema.type_element(name)),
{
    lemma_type_element(schema.types, name, 0);
}

/// The path element of a field has the field's number, name and type, and
/// nothing else; that of a map's entries has the types of its keys and values
/// too. Numbers that do not fit are brought down to the largest that does.
pub proof fn law_elements_describe_their_field(field: FieldDescriptor)
    ensures
        field.number <= i32::MAX ==> field_element(field).field_number == Some(
            field.number as i32,
        ),
        field.number > i32::MAX ==> field_element(field).field_number == Some(i32::MAX),
        field_element(field).field_name == Some(field.name@),
        field_element(field).field_type == Some(type_of_field(field)),
        field_element(field).key_type is None,
        field_element(field).value_type is None,
        field_element(field).subscript is None,
        map_element(field).field_number == field_element(field).field_number,
        map_element(field).field_name == field_element(field).field_name,
        map_element(field).field_type == field_element(field).field_type,
        map_element(field).subscript is None,
        field.kind matches FieldKind::Mapping { key, value } ==> map_element(field).key_type
            == Some(type_of_kind(SingularKind::Scalar(key))) && map_element(field).value_type
            == Some(type_of_kind(value)),
        !(field.kind is Mapping) ==> map_element(field) == field_element(field),
{
}

/// The path element of an extension field is named in brackets, by the full
/// name of the field, and that of a oneof has a name alone.
pub proof fn law_elements_of_extensions_and_oneofs(extension: ExtensionRule, name: Seq<char>)
    ensures
        extension.number <= i32::MAX ==> extension_element(extension).field_number == Some(
            extension.number as i32,
        ),
        extension_element(extension).field_name == Some(
            seq!['['] + extension.full_name@ + seq![']'],
        ),
        extension_element(extension).field_type == Some(extension.ty),
        extension_element(extension).subscript is None,
        named_element(name).field_name == Some(name),
        named_element(name).field_number is None,
        named_element(name).field_type is None,
        named_element(name).key_type is None,
        named_element(name).value_type is None,
        named_element(name).subscript is None,
{
    reveal_strlit("[");
    reveal_strlit("]");
    assert("["@ + extension.full_name@ + "]"@ =~= seq!['['] + extension.full_name@ + seq![']']);
}

/// A field is told of as it is: by its number and name, what it holds, and
/// that it tracks presence where it holds one value and is declared to.
pub proof fn law_fields_are_told_as_they_are(d: Descriptors, field: FieldDescriptor)
    ensures
        ({
            let told = d.field_at(field);
            &&& told.number == field.number
            &&& told.name == field.name@
            &&& told.has_presence <==> field.kind is Singular && field.presence
                != FieldPresence::Implicit
            &&& told.oneof matches Some(name) ==> field.oneof matches Some(oneof) && oneof@ == name
            &&& told.oneof is None ==> field.oneof is None
            &&& field.kind is Singular <==> told.kind is Singular
            &&& field.kind is List <==> told.kind is List
            &&& field.kind matches FieldKind::Mapping { key, value } ==> told.kind matches
                Kind::Mapping { key: told_key, value: told_value } && told_key == key && (
            told_value is Message <==> value is Message)
            &&& told.message_type is Some <==> value_kind(field.kind) is Message
            &&& value_kind(field.kind) matches SingularKind::Message(index) ==> (index
                < d.messages@.len() ==> told.message_type == Some(
                d.messages@[index as int].full_name@,
            ))
        }),
{
}

/// The fields of well-known messages that rules read, by their numbers, names
/// and types. None of them tracks presence.
pub proof fn law_well_known_fields()
    ensures
        seconds_field().number == 1,
        seconds_field().name == "seconds"@,
        seconds_field().kind == Kind::Singular(Singular::Scalar(Scalar::Int64)),
        nanos_field().number == 2,
        nanos_field().name == "nanos"@,
        nanos_field().kind == Kind::Singular(Singular::Scalar(Scalar::Int32)),
        paths_field().number == 1,
        paths_field().name == "paths"@,
        paths_field().kind == Kind::List(Singular::Scalar(Scalar::String)),
        any_url_field().number == 1,
        any_url_field().name == "type_url"@,
        any_url_field().kind == Kind::Singular(Singular::Scalar(Scalar::String)),
        !seconds_field().has_presence,
        !nanos_field().has_presence,
        !paths_field().has_presence,
        !any_url_field().has_presence,
{
}

/// What a field holds is told as it is: scalars by their type, enums and
/// messages as such, whether one, several, or as the values of a map.
pub proof fn law_kinds_are_told_as_they_are(d: Descriptors, field: FieldDescriptor)
    ensures
        ({
            let told = d.field_at(field).kind;
            let value = match told {
                Kind::Singular(value) => value,
                Kind::List(value) => value,
                Kind::Mapping { value, .. } => value,
            };
            let held = match field.kind {
                FieldKind::Singular(held) => held,
                FieldKind::List(held) => held,
                FieldKind::Mapping { value: held, .. } => held,
            };
            &&& held matches SingularKind::Scalar(scalar) ==> value == Singular::Scalar(scalar)
            &&& held is Enum <==> value is Enum
            &&& held is Message <==> value is Message
        }),
{
}

/// A field of a message type is found by the name of the type and the number
/// of the field, and what is found is a field of that type with that number.
pub proof fn law_fields_of_types_are_found(d: Descriptors, name: Seq<char>, number: u32)
    requires
        d.messages@.len() <= u64::MAX,
    ensures
        d.field_of(name, number) matches Some(field) ==> field.number == number && exists|i: int|
            0 <= i < d.messages@.len() && (#[trigger] d.messages@[i]).full_name@ == name
                && d.messages@[i].fields@.contains(field),
        d.index_from(name, 0) matches Some(i) ==> (d.field_of(name, number) is None ==> forall|j:
            int|
            0 <= j < d.messages@[i as int].fields@.len() ==> (
            #[trigger] d.messages@[i as int].fields@[j]).number != number),
{
    lemma_index_from(d, name, 0);
    if let Some(i) = d.index_from(name, 0) {
        lemma_numbered_from(d.messages@[i as int].fields@, number, 0);
        assert(d.messages@[i as int].full_name@ == name);
    }
}

} // verus!
