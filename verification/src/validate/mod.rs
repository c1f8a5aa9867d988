//! The `buf.validate` messages: violations, which validation reports, and
//! the rules, which it checks.

use vstd::prelude::*;

pub mod rules;
pub mod wire;

verus! {

/// A `google.protobuf.FieldDescriptorProto.Type`.
#[derive(Clone, Copy, Debug, PartialEq, Eq, Structural)]
pub enum Type {
    Double,
    Float,
    Int64,
    Uint64,
    Int32,
    Fixed64,
    Fixed32,
    Bool,
    String,
    Group,
    Message,
    Bytes,
    Uint32,
    Enum,
    Sfixed32,
    Sfixed64,
    Sint32,
    Sint64,
}

/// Which item of a repeated field or map a path element names.
#[derive(Debug)]
pub enum Subscript {
    Index(u64),
    BoolKey(bool),
    IntKey(i64),
    UintKey(u64),
    StringKey(String),
}

/// What a [`Subscript`] holds.
pub enum SubscriptV {
    Index(u64),
    BoolKey(bool),
    IntKey(i64),
    UintKey(u64),
    StringKey(Seq<char>),
}

impl View for Subscript {
    type V = SubscriptV;

    open spec fn view(&self) -> SubscriptV {
        match self {
            Subscript::Index(i) => SubscriptV::Index(*i),
            Subscript::BoolKey(b) => SubscriptV::BoolKey(*b),
            Subscript::IntKey(i) => SubscriptV::IntKey(*i),
            Subscript::UintKey(u) => SubscriptV::UintKey(*u),
            Subscript::StringKey(s) => SubscriptV::StringKey(s@),
        }
    }
}

impl Subscript {
    pub fn copy(&self) -> (r: Subscript)
        ensures
            r@ == self@,
    {
        match self {
            Subscript::Index(i) => Subscript::Index(*i),
            Subscript::BoolKey(b) => Subscript::BoolKey(*b),
            Subscript::IntKey(i) => Subscript::IntKey(*i),
            Subscript::UintKey(u) => Subscript::UintKey(*u),
            Subscript::StringKey(s) => Subscript::StringKey(s.clone()),
        }
    }
}

/// One step of a path from a message to a field, or to a rule.
#[derive(Debug)]
pub struct FieldPathElement {
    pub field_number: Option<i32>,
    pub field_name: Option<String>,
    pub field_type: Option<Type>,
    pub key_type: Option<Type>,
    pub value_type: Option<Type>,
    pub subscript: Option<Subscript>,
}

/// What a [`FieldPathElement`] holds.
pub struct FieldPathElementV {
    pub field_number: Option<i32>,
    pub field_name: Option<Seq<char>>,
    pub field_type: Option<Type>,
    pub key_type: Option<Type>,
    pub value_type: Option<Type>,
    pub subscript: Option<SubscriptV>,
}

/// What an optional string holds.
pub open spec fn text_of(s: Option<String>) -> Option<Seq<char>> {
    match s {
        Some(s) => Some(s@),
        None => None,
    }
}

impl View for FieldPathElement {
    type V = FieldPathElementV;

    open spec fn view(&self) -> FieldPathElementV {
        FieldPathElementV {
            field_number: self.field_number,
            field_name: text_of(self.field_name),
            field_type: self.field_type,
            key_type: self.key_type,
            value_type: self.value_type,
            subscript: match self.subscript {
                Some(s) => Some(s@),
                None => None,
            },
        }
    }
}

impl FieldPathElement {
    pub fn copy(&self) -> (r: FieldPathElement)
        ensures
            r@ == self@,
    {
        FieldPathElement {
            field_number: self.field_number,
            field_name: copy_text(&self.field_name),
            field_type: self.field_type,
            key_type: self.key_type,
            value_type: self.value_type,
            subscript: match &self.subscript {
                Some(s) => Some(s.copy()),
                None => None,
            },
        }
    }
}

/// What the elements of a path hold.
pub open spec fn path_of(elements: Seq<FieldPathElement>) -> Seq<FieldPathElementV> {
    elements.map_values(|e: FieldPathElement| e@)
}

/// A copy of an optional string.
pub fn copy_text(s: &Option<String>) -> (r: Option<String>)
    ensures
        text_of(r) == text_of(*s),
{
    match s {
        Some(s) => Some(s.clone()),
        None => None,
    }
}

/// A copy of the elements of a path.
pub fn copy_path(elements: &Vec<FieldPathElement>) -> (r: Vec<FieldPathElement>)
    ensures
        path_of(r@) == path_of(elements@),
{
    let mut copied: Vec<FieldPathElement> = Vec::new();
    let mut i: usize = 0;
    while i < elements.len()
        invariant
            i <= elements@.len(),
            path_of(copied@) =~= path_of(elements@).take(i as int),
        decreases elements@.len() - i,
    {
        let ghost before = copied@;
        copied.push(elements[i].copy());
        assert(path_of(copied@) =~= path_of(before).push(elements@[i as int]@));
        i += 1;
    }
    assert(path_of(elements@).take(i as int) =~= path_of(elements@));
    copied
}

/// A path from a message to a field, or to a rule.
#[derive(Debug)]
pub struct FieldPath {
    pub elements: Vec<FieldPathElement>,
}

/// A rule that a message broke.
#[derive(Debug)]
pub struct Violation {
    /// Where in the message; none for a rule of the message itself.
    pub field: Option<FieldPath>,
    /// Where in the rules; none for a rule of the message itself.
    pub rule: Option<FieldPath>,
    pub rule_id: Option<String>,
    pub message: Option<String>,
    /// Whether it is a map key that broke the rule.
    pub for_key: Option<bool>,
}

/// What a [`Violation`] holds.
pub struct ViolationV {
    pub field: Option<Seq<FieldPathElementV>>,
    pub rule: Option<Seq<FieldPathElementV>>,
    pub rule_id: Option<Seq<char>>,
    pub message: Option<Seq<char>>,
    pub for_key: Option<bool>,
}

/// What an optional path holds.
pub open spec fn optional_path(path: Option<FieldPath>) -> Option<Seq<FieldPathElementV>> {
    match path {
        Some(path) => Some(path_of(path.elements@)),
        None => None,
    }
}

impl View for Violation {
    type V = ViolationV;

    open spec fn view(&self) -> ViolationV {
        ViolationV {
            field: optional_path(self.field),
            rule: optional_path(self.rule),
            rule_id: text_of(self.rule_id),
            message: text_of(self.message),
            for_key: self.for_key,
        }
    }
}

/// What the violations hold.
pub open spec fn violations_of(violations: Seq<Violation>) -> Seq<ViolationV> {
    violations.map_values(|v: Violation| v@)
}

/// What is known of a violation is what it holds, part by part.
pub proof fn law_violations_hold_what_is_known(v: Violation)
    ensures
        v@.for_key == v.for_key,
        v@.rule_id is Some <==> v.rule_id is Some,
        v.rule_id matches Some(id) ==> v@.rule_id == Some(id@),
        v@.message is Some <==> v.message is Some,
        v.message matches Some(message) ==> v@.message == Some(message@),
        v@.field is Some <==> v.field is Some,
        v.field matches Some(path) ==> v@.field->Some_0.len() == path.elements@.len() && forall|
            i: int,
        |
            0 <= i < path.elements@.len() ==> #[trigger] v@.field->Some_0[i] == path.elements@[i]@,
        v@.rule is Some <==> v.rule is Some,
        v.rule matches Some(path) ==> v@.rule->Some_0.len() == path.elements@.len() && forall|
            i: int,
        |
            0 <= i < path.elements@.len() ==> #[trigger] v@.rule->Some_0[i] == path.elements@[i]@,
{
}

/// What is known of a path element is what it holds, part by part.
pub proof fn law_elements_hold_what_is_known(e: FieldPathElement)
    ensures
        e@.field_number == e.field_number,
        e@.field_type == e.field_type,
        e@.key_type == e.key_type,
        e@.value_type == e.value_type,
        e@.field_name is Some <==> e.field_name is Some,
        e.field_name matches Some(name) ==> e@.field_name == Some(name@),
        e@.subscript is Some <==> e.subscript is Some,
        e.subscript matches Some(Subscript::Index(i)) ==> e@.subscript == Some(
            SubscriptV::Index(i),
        ),
        e.subscript matches Some(Subscript::BoolKey(b)) ==> e@.subscript == Some(
            SubscriptV::BoolKey(b),
        ),
        e.subscript matches Some(Subscript::IntKey(i)) ==> e@.subscript == Some(
            SubscriptV::IntKey(i),
        ),
        e.subscript matches Some(Subscript::UintKey(u)) ==> e@.subscript == Some(
            SubscriptV::UintKey(u),
        ),
        e.subscript matches Some(Subscript::StringKey(s)) ==> e@.subscript == Some(
            SubscriptV::StringKey(s@),
        ),
{
}

} // verus!
