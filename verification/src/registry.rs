//! The descriptors of the linked types, and the path elements of the rules
//! among them.

use crate::descriptors::{
    field_element, law_message_types_are_found_by_name, named_element, oneof_path_element,
    path_element, type_of_scalar, value_kind, Descriptors, EnumDescriptor, FieldDescriptor,
    FieldKind, FieldPresence, MessageDescriptor, OneofDescriptor, Schema, SchemaV, SingularKind,
};
use crate::pool::{
    enum_count, enum_name, enum_number, enum_value_count, field_cardinality, field_count,
    field_delimited, field_implicit, field_json_name, field_key, field_name, field_number,
    field_oneof, field_value, message_count, message_name, oneof_count, oneof_fields, oneof_name,
    oneof_synthetic, pool_enums, pool_messages, Cardinality, Linked, LinkedEnum, LinkedField,
    LinkedMessage, LinkedOneof, LinkedV,
};
use crate::protobuf::Scalar;
use crate::rules::closure::{field_types, types_in};
use crate::rules::plan::field_named;
use crate::strings::same_text;
use crate::text::texts;
use crate::validate::{path_of, text_of, FieldPathElement, FieldPathElementV};
use std::sync::Arc;
use vstd::prelude::*;

verus! {

/// A scalar type, by its place in the order in which `buffa-descriptor`
/// declares them.
pub open spec fn scalar_coded(code: u8) -> Scalar {
    if code == 0 {
        Scalar::Double
    } else if code == 1 {
        Scalar::Float
    } else if code == 2 {
        Scalar::Int64
    } else if code == 3 {
        Scalar::Uint64
    } else if code == 4 {
        Scalar::Int32
    } else if code == 5 {
        Scalar::Fixed64
    } else if code == 6 {
        Scalar::Fixed32
    } else if code == 7 {
        Scalar::Bool
    } else if code == 8 {
        Scalar::String
    } else if code == 9 {
        Scalar::Bytes
    } else if code == 10 {
        Scalar::Uint32
    } else if code == 11 {
        Scalar::Sfixed32
    } else if code == 12 {
        Scalar::Sfixed64
    } else if code == 13 {
        Scalar::Sint32
    } else {
        Scalar::Sint64
    }
}

/// The first place of a name in a list from the `i`th on; the length of the
/// list where it is not there.
pub open spec fn place_from(names: Seq<Seq<char>>, name: Seq<char>, i: int) -> u64
    decreases names.len() - i,
{
    if i < 0 || i >= names.len() {
        names.len() as u64
    } else if names[i] == name {
        i as u64
    } else {
        place_from(names, name, i + 1)
    }
}

/// The full names of linked message types.
pub open spec fn message_names(messages: Seq<LinkedMessage>) -> Seq<Seq<char>> {
    messages.map_values(|m: LinkedMessage| m.full_name)
}

/// The full names of linked enums.
pub open spec fn enum_names(enums: Seq<LinkedEnum>) -> Seq<Seq<char>> {
    enums.map_values(|e: LinkedEnum| e.full_name)
}

/// The type of one value, with enums and message types by their places.
pub open spec fn placed_kind(
    value: LinkedV,
    messages: Seq<Seq<char>>,
    enums: Seq<Seq<char>>,
) -> SingularKind {
    match value {
        LinkedV::Scalar(code) => SingularKind::Scalar(scalar_coded(code)),
        LinkedV::Enum(name) => SingularKind::Enum(place_from(enums, name, 0)),
        LinkedV::Message(name) => SingularKind::Message(place_from(messages, name, 0)),
    }
}

/// How a linked field holds its values.
pub open spec fn placed_field_kind(
    field: LinkedField,
    messages: Seq<Seq<char>>,
    enums: Seq<Seq<char>>,
) -> FieldKind {
    let value = placed_kind(field.value, messages, enums);
    match field.cardinality {
        Cardinality::Singular => FieldKind::Singular(value),
        Cardinality::List => FieldKind::List(value),
        Cardinality::Mapping => FieldKind::Mapping { key: scalar_coded(field.key), value },
    }
}

/// The oneof that a linked field is a member of; the synthetic oneof of a
/// proto3 `optional` field does not count.
pub open spec fn oneof_of(oneofs: Seq<LinkedOneof>, oneof: Option<u16>) -> Option<Seq<char>> {
    match oneof {
        Some(k) => if k < oneofs.len() && !oneofs[k as int].synthetic {
            Some(oneofs[k as int].name)
        } else {
            None
        },
        None => None,
    }
}

/// Whether a descriptor is that of a linked field.
pub open spec fn field_described(
    d: FieldDescriptor,
    field: LinkedField,
    oneofs: Seq<LinkedOneof>,
    messages: Seq<Seq<char>>,
    enums: Seq<Seq<char>>,
) -> bool {
    &&& d.name@ == field.name
    &&& d.json_name@ == field.json_name
    &&& d.number == field.number
    &&& d.kind == placed_field_kind(field, messages, enums)
    &&& d.group == (field.delimited && field.value is Message)
    &&& d.presence == if field.implicit {
        FieldPresence::Implicit
    } else {
        FieldPresence::Explicit
    }
    &&& text_of(d.oneof) == oneof_of(oneofs, field.oneof)
    &&& field.value matches LinkedV::Message(name) ==> messages.contains(name)
}

/// Whether a descriptor is that of a linked message type.
pub open spec fn message_described(
    d: MessageDescriptor,
    message: LinkedMessage,
    messages: Seq<Seq<char>>,
    enums: Seq<Seq<char>>,
) -> bool {
    &&& d.full_name@ == message.full_name
    &&& d.fields@.len() == message.fields.len()
    &&& forall|j: int|
        0 <= j < d.fields@.len() ==> field_described(
            #[trigger] d.fields@[j],
            message.fields[j],
            message.oneofs,
            messages,
            enums,
        )
    &&& d.oneofs@.len() == message.oneofs.len()
    &&& forall|j: int|
        0 <= j < d.oneofs@.len() ==> (#[trigger] d.oneofs@[j]).name@ == message.oneofs[j].name
            && d.oneofs@[j].fields@ == message.oneofs[j].fields
}

/// Whether descriptors are those of the message types of a pool, in its
/// order.
pub open spec fn messages_described(
    descriptors: Seq<MessageDescriptor>,
    pool: buffa_descriptor::DescriptorPool,
) -> bool {
    &&& descriptors.len() == pool_messages(pool).len()
    &&& forall|i: int|
        0 <= i < descriptors.len() ==> message_described(
            #[trigger] descriptors[i],
            pool_messages(pool)[i],
            message_names(pool_messages(pool)),
            enum_names(pool_enums(pool)),
        )
}

/// Whether descriptors are those of the enums of a pool, in its order.
pub open spec fn enums_described(
    descriptors: Seq<EnumDescriptor>,
    pool: buffa_descriptor::DescriptorPool,
) -> bool {
    &&& descriptors.len() == pool_enums(pool).len()
    &&& forall|i: int|
        0 <= i < descriptors.len() ==> (#[trigger] descriptors[i]).full_name@ == pool_enums(
            pool,
        )[i].full_name && descriptors[i].values@ == pool_enums(pool)[i].numbers
}

/// A scalar type, by its place in the order in which `buffa-descriptor`
/// declares them.
fn coded_scalar(code: u8) -> (r: Scalar)
    ensures
        r == scalar_coded(code),
{
    match code {
        0 => Scalar::Double,
        1 => Scalar::Float,
        2 => Scalar::Int64,
        3 => Scalar::Uint64,
        4 => Scalar::Int32,
        5 => Scalar::Fixed64,
        6 => Scalar::Fixed32,
        7 => Scalar::Bool,
        8 => Scalar::String,
        9 => Scalar::Bytes,
        10 => Scalar::Uint32,
        11 => Scalar::Sfixed32,
        12 => Scalar::Sfixed64,
        13 => Scalar::Sint32,
        _ => Scalar::Sint64,
    }
}

/// The first place of a name in a list; the length of the list where it is
/// not there.
fn place(names: &Vec<String>, name: &str) -> (r: u64)
    ensures
        r == place_from(texts(names@), name@, 0),
{
    let ghost all = texts(names@);
    let mut i: usize = 0;
    while i < names.len()
        invariant
            i <= names@.len(),
            all == texts(names@),
            place_from(all, name@, 0) == place_from(all, name@, i as int),
        decreases names@.len() - i,
    {
        assert(all[i as int] == names@[i as int]@);
        if same_text(names[i].as_str(), name) {
            return i as u64;
        }
        i += 1;
    }
    names.len() as u64
}

/// The type of one value, with enums and message types by their places.
fn kind_of_value(value: &Linked, messages: &Vec<String>, enums: &Vec<String>) -> (r: SingularKind)
    ensures
        r == placed_kind(value@, texts(messages@), texts(enums@)),
{
    match value {
        Linked::Scalar(code) => SingularKind::Scalar(coded_scalar(*code)),
        Linked::Enum(name) => SingularKind::Enum(place(enums, name.as_str())),
        Linked::Message(name) => SingularKind::Message(place(messages, name.as_str())),
    }
}

/// The descriptor of a linked field.
fn describe_field(
    pool: &Arc<buffa_descriptor::DescriptorPool>,
    i: usize,
    j: usize,
    messages: &Vec<String>,
    enums: &Vec<String>,
) -> (r: FieldDescriptor)
    requires
        i < pool_messages(**pool).len(),
        j < pool_messages(**pool)[i as int].fields.len(),
        texts(messages@) == message_names(pool_messages(**pool)),
    ensures
        field_described(
            r,
            pool_messages(**pool)[i as int].fields[j as int],
            pool_messages(**pool)[i as int].oneofs,
            texts(messages@),
            texts(enums@),
        ),
{
    let linked = field_value(pool, i, j);
    assert forall|k: int| 0 <= k < pool_messages(**pool).len() implies texts(messages@).contains(
        #[trigger] pool_messages(**pool)[k].full_name,
    ) by {
        assert(texts(messages@)[k] == pool_messages(**pool)[k].full_name);
    }
    let value = kind_of_value(&linked, messages, enums);
    let is_message = match linked {
        Linked::Message(_) => true,
        _ => false,
    };
    let kind = match field_cardinality(pool, i, j) {
        Cardinality::Singular => FieldKind::Singular(value),
        Cardinality::List => FieldKind::List(value),
        Cardinality::Mapping => FieldKind::Mapping {
            key: coded_scalar(field_key(pool, i, j)),
            value,
        },
    };
    let oneof = match field_oneof(pool, i, j) {
        Some(k) => if (k as usize) < oneof_count(pool, i) && !oneof_synthetic(
            pool,
            i,
            k as usize,
        ) {
            Some(oneof_name(pool, i, k as usize))
        } else {
            None
        },
        None => None,
    };
    FieldDescriptor {
        name: field_name(pool, i, j),
        json_name: field_json_name(pool, i, j),
        number: field_number(pool, i, j),
        kind,
        group: field_delimited(pool, i, j) && is_message,
        presence: if field_implicit(pool, i, j) {
            FieldPresence::Implicit
        } else {
            FieldPresence::Explicit
        },
        oneof,
    }
}

/// The message type at a place in a pool.
spec fn linked_message(
    pool: &Arc<buffa_descriptor::DescriptorPool>,
    i: usize,
) -> LinkedMessage {
    pool_messages(**pool)[i as int]
}

/// The descriptor of a linked message type.
fn describe_message(
    pool: &Arc<buffa_descriptor::DescriptorPool>,
    i: usize,
    messages: &Vec<String>,
    enums: &Vec<String>,
) -> (r: MessageDescriptor)
    requires
        i < pool_messages(**pool).len(),
        texts(messages@) == message_names(pool_messages(**pool)),
    ensures
        message_described(
            r,
            pool_messages(**pool)[i as int],
            texts(messages@),
            texts(enums@),
        ),
{
    let ghost linked = linked_message(pool, i);
    let mut fields: Vec<FieldDescriptor> = Vec::new();
    let n: usize = field_count(pool, i);
    let mut j: usize = 0;
    while j < n
        invariant
            j <= n,
            i < pool_messages(**pool).len(),
            linked == linked_message(pool, i),
            n == linked.fields.len(),
            texts(messages@) == message_names(pool_messages(**pool)),
            fields@.len() == j,
            forall|k: int|
                0 <= k < j ==> field_described(
                    #[trigger] fields@[k],
                    linked.fields[k],
                    linked.oneofs,
                    texts(messages@),
                    texts(enums@),
                ),
        decreases n - j,
    {
        fields.push(describe_field(pool, i, j, messages, enums));
        j += 1;
    }
    let mut oneofs: Vec<OneofDescriptor> = Vec::new();
    let m: usize = oneof_count(pool, i);
    j = 0;
    while j < m
        invariant
            j <= m,
            i < pool_messages(**pool).len(),
            linked == linked_message(pool, i),
            m == linked.oneofs.len(),
            oneofs@.len() == j,
            forall|k: int|
                0 <= k < j ==> (#[trigger] oneofs@[k]).name@ == linked.oneofs[k].name
                    && oneofs@[k].fields@ == linked.oneofs[k].fields,
        decreases m - j,
    {
        oneofs.push(
            OneofDescriptor { name: oneof_name(pool, i, j), fields: oneof_fields(pool, i, j) },
        );
        j += 1;
    }
    MessageDescriptor { full_name: message_name(pool, i), fields, oneofs }
}

/// The full names of the linked message types.
fn linked_messages(pool: &Arc<buffa_descriptor::DescriptorPool>) -> (r: Vec<String>)
    ensures
        texts(r@) == message_names(pool_messages(**pool)),
{
    let mut names: Vec<String> = Vec::new();
    let n: usize = message_count(pool);
    let mut i: usize = 0;
    while i < n
        invariant
            i <= n,
            n == pool_messages(**pool).len(),
            names@.len() == i,
            forall|k: int|
                0 <= k < i ==> (#[trigger] names@[k])@ == pool_messages(**pool)[k].full_name,
        decreases n - i,
    {
        names.push(message_name(pool, i));
        i += 1;
    }
    assert(texts(names@) =~= message_names(pool_messages(**pool)));
    names
}

/// The full names of the linked enums.
fn linked_enums(pool: &Arc<buffa_descriptor::DescriptorPool>) -> (r: Vec<String>)
    ensures
        texts(r@) == enum_names(pool_enums(**pool)),
{
    let mut names: Vec<String> = Vec::new();
    let n: usize = enum_count(pool);
    let mut i: usize = 0;
    while i < n
        invariant
            i <= n,
            n == pool_enums(**pool).len(),
            names@.len() == i,
            forall|k: int|
                0 <= k < i ==> (#[trigger] names@[k])@ == pool_enums(**pool)[k].full_name,
        decreases n - i,
    {
        names.push(enum_name(pool, i));
        i += 1;
    }
    assert(texts(names@) =~= enum_names(pool_enums(**pool)));
    names
}

/// The descriptors of the linked message types.
pub fn describe_messages(pool: &Arc<buffa_descriptor::DescriptorPool>) -> (r: Vec<
    MessageDescriptor,
>)
    ensures
        messages_described(r@, **pool),
{
    let messages = linked_messages(pool);
    let enums = linked_enums(pool);
    let mut described: Vec<MessageDescriptor> = Vec::new();
    let n: usize = message_count(pool);
    let mut i: usize = 0;
    while i < n
        invariant
            i <= n,
            n == pool_messages(**pool).len(),
            texts(messages@) == message_names(pool_messages(**pool)),
            texts(enums@) == enum_names(pool_enums(**pool)),
            described@.len() == i,
            forall|k: int|
                0 <= k < i ==> message_described(
                    #[trigger] described@[k],
                    pool_messages(**pool)[k],
                    texts(messages@),
                    texts(enums@),
                ),
        decreases n - i,
    {
        described.push(describe_message(pool, i, &messages, &enums));
        i += 1;
    }
    described
}

/// The descriptors of the linked enums.
pub fn describe_enums(pool: &Arc<buffa_descriptor::DescriptorPool>) -> (r: Vec<EnumDescriptor>)
    ensures
        enums_described(r@, **pool),
{
    let mut described: Vec<EnumDescriptor> = Vec::new();
    let n: usize = enum_count(pool);
    let mut i: usize = 0;
    while i < n
        invariant
            i <= n,
            n == pool_enums(**pool).len(),
            described@.len() == i,
            forall|k: int|
                0 <= k < i ==> (#[trigger] described@[k]).full_name@ == pool_enums(
                    **pool,
                )[k].full_name && described@[k].values@ == pool_enums(**pool)[k].numbers,
        decreases n - i,
    {
        let mut values: Vec<i32> = Vec::new();
        let m: usize = enum_value_count(pool, i);
        let mut j: usize = 0;
        while j < m
            invariant
                j <= m,
                i < pool_enums(**pool).len(),
                m == pool_enums(**pool)[i as int].numbers.len(),
                values@.len() == j,
                forall|k: int|
                    0 <= k < j ==> #[trigger] values@[k] == pool_enums(
                        **pool,
                    )[i as int].numbers[k],
            decreases m - j,
        {
            values.push(enum_number(pool, i, j));
            j += 1;
        }
        assert(values@ =~= pool_enums(**pool)[i as int].numbers);
        described.push(EnumDescriptor { full_name: enum_name(pool, i), values });
        i += 1;
    }
    described
}

/// A name that is there keeps its first place when more names come behind.
proof fn lemma_place_kept(names: Seq<Seq<char>>, more: Seq<Seq<char>>, name: Seq<char>, i: int)
    requires
        0 <= i,
        names.is_prefix_of(more),
        exists|j: int| i <= j < names.len() && #[trigger] names[j] == name,
    ensures
        place_from(names, name, i) == place_from(more, name, i),
    decreases names.len() - i,
{
    if i < names.len() {
        assert(names[i] == more[i]);
        if names[i] != name {
            lemma_place_kept(names, more, name, i + 1);
        }
    }
}

/// The fields of a type stay of the types they were of when more types are
/// linked behind.
proof fn lemma_field_types_kept(
    fields: Seq<FieldDescriptor>,
    later: Seq<FieldDescriptor>,
    message: LinkedMessage,
    names: Seq<Seq<char>>,
    more: Seq<Seq<char>>,
    enums: Seq<Seq<char>>,
    more_enums: Seq<Seq<char>>,
    n: nat,
)
    requires
        n <= fields.len() == later.len() == message.fields.len(),
        names.is_prefix_of(more),
        forall|j: int|
            0 <= j < fields.len() ==> field_described(
                #[trigger] fields[j],
                message.fields[j],
                message.oneofs,
                names,
                enums,
            ),
        forall|j: int|
            0 <= j < later.len() ==> field_described(
                #[trigger] later[j],
                message.fields[j],
                message.oneofs,
                more,
                more_enums,
            ),
    ensures
        field_types(fields, n) == field_types(later, n),
    decreases n,
{
    if n > 0 {
        lemma_field_types_kept(
            fields,
            later,
            message,
            names,
            more,
            enums,
            more_enums,
            (n - 1) as nat,
        );
        assert(field_described(
            fields[n - 1],
            message.fields[n - 1],
            message.oneofs,
            names,
            enums,
        ));
        assert(field_described(
            later[n - 1],
            message.fields[n - 1],
            message.oneofs,
            more,
            more_enums,
        ));
        if let LinkedV::Message(name) = message.fields[n - 1].value {
            let j = choose|j: int| 0 <= j < names.len() && names[j] == name;
            lemma_place_kept(names, more, name, 0);
        }
    }
}

/// Linking more types leaves the types linked before with fields of the same
/// types.
pub proof fn law_linked_fields_stay(
    before: Seq<MessageDescriptor>,
    pool: buffa_descriptor::DescriptorPool,
    after: Seq<MessageDescriptor>,
    grown: buffa_descriptor::DescriptorPool,
    i: int,
)
    requires
        messages_described(before, pool),
        messages_described(after, grown),
        pool_messages(pool).is_prefix_of(pool_messages(grown)),
        0 <= i < before.len(),
    ensures
        i < after.len(),
        types_in(before[i]) == types_in(after[i]),
{
    let names = message_names(pool_messages(pool));
    let more = message_names(pool_messages(grown));
    assert(pool_messages(pool)[i] == pool_messages(grown)[i]);
    assert(names.is_prefix_of(more)) by {
        assert forall|j: int| 0 <= j < names.len() implies names[j] == more[j] by {
            assert(pool_messages(pool)[j] == pool_messages(grown)[j]);
        }
        assert(names =~= more.subrange(0, names.len() as int));
    }
    assert(message_described(
        before[i],
        pool_messages(pool)[i],
        names,
        enum_names(pool_enums(pool)),
    ));
    assert(message_described(
        after[i],
        pool_messages(grown)[i],
        more,
        enum_names(pool_enums(grown)),
    ));
    lemma_field_types_kept(
        before[i].fields@,
        after[i].fields@,
        pool_messages(pool)[i],
        names,
        more,
        enum_names(pool_enums(pool)),
        enum_names(pool_enums(grown)),
        before[i].fields@.len(),
    );
}

/// A name that is there has a place in the list.
proof fn lemma_place_there(names: Seq<Seq<char>>, name: Seq<char>, i: int)
    requires
        0 <= i,
        names.len() <= u64::MAX,
        exists|j: int| i <= j < names.len() && #[trigger] names[j] == name,
    ensures
        place_from(names, name, i) < names.len(),
    decreases names.len() - i,
{
    if names[i] != name {
        lemma_place_there(names, name, i + 1);
    }
}

/// The message types of the first fields of a linked type have places among
/// the linked types.
proof fn lemma_field_types_there(
    fields: Seq<FieldDescriptor>,
    message: LinkedMessage,
    names: Seq<Seq<char>>,
    enums: Seq<Seq<char>>,
    n: nat,
)
    requires
        n <= fields.len() == message.fields.len(),
        names.len() <= u64::MAX,
        forall|j: int|
            0 <= j < fields.len() ==> field_described(
                #[trigger] fields[j],
                message.fields[j],
                message.oneofs,
                names,
                enums,
            ),
    ensures
        forall|j: int|
            0 <= j < field_types(fields, n).len() ==> #[trigger] field_types(fields, n)[j]
                < names.len(),
    decreases n,
{
    if n > 0 {
        lemma_field_types_there(fields, message, names, enums, (n - 1) as nat);
        assert(field_described(
            fields[n - 1],
            message.fields[n - 1],
            message.oneofs,
            names,
            enums,
        ));
        if let LinkedV::Message(name) = message.fields[n - 1].value {
            let j = choose|j: int| 0 <= j < names.len() && names[j] == name;
            lemma_place_there(names, name, 0);
        }
        let front = field_types(fields, (n - 1) as nat);
        assert forall|j: int| 0 <= j < field_types(fields, n).len() implies #[trigger] field_types(
            fields,
            n,
        )[j] < names.len() by {
            if j < front.len() {
                assert(field_types(fields, n)[j] == front[j]);
            }
        }
    }
}

/// The message types that a registered type has fields of are registered.
pub proof fn law_field_types_are_linked(
    descriptors: Seq<MessageDescriptor>,
    pool: buffa_descriptor::DescriptorPool,
    i: int,
    index: u64,
)
    requires
        messages_described(descriptors, pool),
        descriptors.len() <= u64::MAX,
        0 <= i < descriptors.len(),
        types_in(descriptors[i]).contains(index),
    ensures
        index < descriptors.len(),
{
    let names = message_names(pool_messages(pool));
    assert(message_described(
        descriptors[i],
        pool_messages(pool)[i],
        names,
        enum_names(pool_enums(pool)),
    ));
    lemma_field_types_there(
        descriptors[i].fields@,
        pool_messages(pool)[i],
        names,
        enum_names(pool_enums(pool)),
        descriptors[i].fields@.len(),
    );
    let j = choose|j: int|
        0 <= j < types_in(descriptors[i]).len() && types_in(descriptors[i])[j] == index;
    assert(field_types(descriptors[i].fields@, descriptors[i].fields@.len())[j] == index);
}

/// A message type is registered under its full name: what the pool has
/// linked, and nothing else, is found.
pub proof fn law_linked_types_are_registered(
    descriptors: Descriptors,
    pool: buffa_descriptor::DescriptorPool,
    name: Seq<char>,
)
    requires
        messages_described(descriptors.messages@, pool),
    ensures
        descriptors.index_from(name, 0) is Some <==> message_names(pool_messages(pool)).contains(
            name,
        ),
{
    let names = message_names(pool_messages(pool));
    assert(descriptors.messages.len() == descriptors.messages@.len());
    lemma_found(descriptors, name, 0);
    if names.contains(name) {
        let i = choose|i: int| 0 <= i < names.len() && names[i] == name;
        assert(descriptors.messages@[i].full_name@ == name);
    }
    if let Some(k) = descriptors.index_from(name, 0) {
        assert(names[k as int] == descriptors.messages@[k as int].full_name@);
    }
}

/// A message type is found when one from the `i`th on has the name.
pub proof fn lemma_found(descriptors: Descriptors, name: Seq<char>, i: int)
    requires
        0 <= i,
        descriptors.messages@.len() <= u64::MAX,
    ensures
        match descriptors.index_from(name, i) {
            Some(k) => i <= k < descriptors.messages@.len()
                && descriptors.messages@[k as int].full_name@ == name,
            None => forall|j: int|
                i <= j < descriptors.messages@.len() ==> (
                #[trigger] descriptors.messages@[j]).full_name@ != name,
        },
    decreases descriptors.messages@.len() - i,
{
    if i < descriptors.messages@.len() {
        lemma_found(descriptors, name, i + 1);
    }
}

/// The path element of a field of a `buf.validate` message; by its name
/// alone while the message is not registered.
pub open spec fn rule_element(
    descriptors: Descriptors,
    full_name: Seq<char>,
    name: Seq<char>,
) -> FieldPathElementV {
    match descriptors.index_from(full_name, 0) {
        Some(i) => {
            let fields = descriptors.messages@[i as int].fields@;
            match field_named(fields, name, 0) {
                Some(j) => field_element(fields[j]),
                None => named_element(name),
            }
        },
        None => named_element(name),
    }
}

/// The path elements of the fields of a message type.
pub open spec fn field_elements(descriptors: Descriptors, full_name: Seq<char>) -> Seq<
    FieldPathElementV,
> {
    match descriptors.index_from(full_name, 0) {
        Some(i) => descriptors.messages@[i as int].fields@.map_values(
            |f: FieldDescriptor| field_element(f),
        ),
        None => Seq::empty(),
    }
}

/// The path elements of rules, as the registered `buf.validate` messages
/// have them.
pub open spec fn schema_of(descriptors: Descriptors) -> SchemaV {
    let field = "buf.validate.FieldRules"@;
    let any = "buf.validate.AnyRules"@;
    let map = "buf.validate.MapRules"@;
    SchemaV {
        required: rule_element(descriptors, field, "required"@),
        any: rule_element(descriptors, field, "any"@),
        any_in: rule_element(descriptors, any, "in"@),
        any_not_in: rule_element(descriptors, any, "not_in"@),
        enumeration: rule_element(descriptors, field, "enum"@),
        enum_defined_only: rule_element(
            descriptors,
            "buf.validate.EnumRules"@,
            "defined_only"@,
        ),
        cel: rule_element(descriptors, field, "cel"@),
        cel_expression: rule_element(descriptors, field, "cel_expression"@),
        repeated: rule_element(descriptors, field, "repeated"@),
        repeated_items: rule_element(descriptors, "buf.validate.RepeatedRules"@, "items"@),
        mapping: rule_element(descriptors, field, "map"@),
        map_keys: rule_element(descriptors, map, "keys"@),
        map_values: rule_element(descriptors, map, "values"@),
        types: field_elements(descriptors, field),
    }
}

/// The path element of a field of a `buf.validate` message; by its name
/// alone while the message is not registered.
fn resolve_element(descriptors: &Descriptors, full_name: &str, name: &str) -> (r: FieldPathElement)
    ensures
        r@ == rule_element(*descriptors, full_name@, name@),
{
    let index = match descriptors.exact_index(full_name) {
        Some(index) => index,
        None => return oneof_path_element(name),
    };
    let count: usize = descriptors.messages.len();
    assert(index < count);
    let fields = &descriptors.messages[index as usize].fields;
    let mut j: usize = 0;
    while j < fields.len()
        invariant
            j <= fields@.len(),
            rule_element(*descriptors, full_name@, name@) == match field_named(
                fields@,
                name@,
                j as int,
            ) {
                Some(k) => field_element(fields@[k]),
                None => named_element(name@),
            },
        decreases fields@.len() - j,
    {
        if same_text(fields[j].name.as_str(), name) || same_text(
            fields[j].json_name.as_str(),
            name,
        ) {
            return path_element(&fields[j]);
        }
        j += 1;
    }
    oneof_path_element(name)
}

/// The path elements of the fields of a message type.
fn resolve_elements(descriptors: &Descriptors, full_name: &str) -> (r: Vec<FieldPathElement>)
    ensures
        path_of(r@) == field_elements(*descriptors, full_name@),
{
    let mut elements: Vec<FieldPathElement> = Vec::new();
    let index = match descriptors.exact_index(full_name) {
        Some(index) => index,
        None => {
            assert(path_of(elements@) =~= Seq::empty());
            return elements;
        },
    };
    let count: usize = descriptors.messages.len();
    assert(index < count);
    let fields = &descriptors.messages[index as usize].fields;
    let mut j: usize = 0;
    while j < fields.len()
        invariant
            j <= fields@.len(),
            elements@.len() == j,
            forall|k: int| 0 <= k < j ==> (#[trigger] elements@[k])@ == field_element(fields@[k]),
        decreases fields@.len() - j,
    {
        elements.push(path_element(&fields[j]));
        j += 1;
    }
    assert(path_of(elements@) =~= fields@.map_values(|f: FieldDescriptor| field_element(f)));
    elements
}

/// The path elements of rules, as the registered `buf.validate` messages
/// have them.
pub fn resolve_schema(descriptors: &Descriptors) -> (r: Schema)
    ensures
        r@ == schema_of(*descriptors),
{
    let field = "buf.validate.FieldRules";
    let any = "buf.validate.AnyRules";
    let map = "buf.validate.MapRules";
    Schema {
        required: resolve_element(descriptors, field, "required"),
        any: resolve_element(descriptors, field, "any"),
        any_in: resolve_element(descriptors, any, "in"),
        any_not_in: resolve_element(descriptors, any, "not_in"),
        enumeration: resolve_element(descriptors, field, "enum"),
        enum_defined_only: resolve_element(
            descriptors,
            "buf.validate.EnumRules",
            "defined_only",
        ),
        cel: resolve_element(descriptors, field, "cel"),
        cel_expression: resolve_element(descriptors, field, "cel_expression"),
        repeated: resolve_element(descriptors, field, "repeated"),
        repeated_items: resolve_element(descriptors, "buf.validate.RepeatedRules", "items"),
        mapping: resolve_element(descriptors, field, "map"),
        map_keys: resolve_element(descriptors, map, "keys"),
        map_values: resolve_element(descriptors, map, "values"),
        types: resolve_elements(descriptors, field),
    }
}

/// The codes of the scalar types go in the order of
/// `FieldDescriptorProto.Type`, less the types that are no scalars.
pub proof fn law_scalars_are_coded_in_order(code: u8)
    ensures
        ({
            let number = crate::validate::wire::type_number(
                type_of_scalar(scalar_coded(code)),
            );
            &&& code <= 8 ==> number == code + 1
            &&& 9 <= code <= 10 ==> number == code + 3
            &&& 11 <= code <= 14 ==> number == code + 4
        }),
{
}

proof fn lemma_place_from(names: Seq<Seq<char>>, name: Seq<char>, k: int)
    requires
        0 <= k <= names.len(),
        names.len() <= u64::MAX,
    ensures
        place_from(names, name, k) < names.len() ==> names[place_from(names, name, k) as int]
            == name,
        place_from(names, name, k) >= names.len() ==> forall|j: int|
            k <= j < names.len() ==> #[trigger] names[j] != name,
    decreases names.len() - k,
{
    if k < names.len() {
        lemma_place_from(names, name, k + 1);
    }
}

/// A field that is linked to a type is placed at a type of that name.
pub proof fn law_placed_types_have_the_name(
    name: Seq<char>,
    messages: Seq<Seq<char>>,
    enums: Seq<Seq<char>>,
)
    requires
        messages.len() <= u64::MAX,
        enums.len() <= u64::MAX,
    ensures
        messages.contains(name) ==> (placed_kind(LinkedV::Message(name), messages, enums) matches
            SingularKind::Message(i) && i < messages.len() && messages[i as int] == name),
        enums.contains(name) ==> (placed_kind(LinkedV::Enum(name), messages, enums) matches
            SingularKind::Enum(i) && i < enums.len() && enums[i as int] == name),
{
    lemma_place_from(messages, name, 0);
    lemma_place_from(enums, name, 0);
}

/// A field that is described holds what the linked field holds: one value,
/// several, or entries with keys of the same type; it tracks presence unless
/// that is implicit, and is a member of the oneof it is linked to, unless
/// that is one of its own.
pub proof fn law_described_fields_are_the_linked_ones(
    d: FieldDescriptor,
    field: LinkedField,
    oneofs: Seq<LinkedOneof>,
    messages: Seq<Seq<char>>,
    enums: Seq<Seq<char>>,
)
    requires
        field_described(d, field, oneofs, messages, enums),
    ensures
        d.name@ == field.name,
        d.json_name@ == field.json_name,
        d.number == field.number,
        field.cardinality is Singular <==> d.kind is Singular,
        field.cardinality is List <==> d.kind is List,
        field.cardinality is Mapping <==> d.kind is Mapping,
        d.kind matches FieldKind::Mapping { key, .. } ==> key == scalar_coded(field.key),
        field.value is Message <==> value_kind(d.kind) is Message,
        field.value is Enum <==> value_kind(d.kind) is Enum,
        field.value matches LinkedV::Scalar(code) ==> value_kind(d.kind) == SingularKind::Scalar(
            scalar_coded(code),
        ),
        field.implicit <==> d.presence == FieldPresence::Implicit,
        d.group ==> field.delimited && value_kind(d.kind) is Message,
        field.delimited && value_kind(d.kind) is Message ==> d.group,
        field.oneof is None ==> d.oneof is None,
        field.oneof matches Some(k) ==> (k < oneofs.len() ==> {
            &&& oneofs[k as int].synthetic ==> d.oneof is None
            &&& !oneofs[k as int].synthetic ==> d.oneof is Some && d.oneof->Some_0@
                == oneofs[k as int].name
        }),
{
}

/// Whether an element is that of the named field of a message type, or has the
/// name alone where there is no such field.
pub open spec fn element_named(
    descriptors: Descriptors,
    message: Seq<char>,
    name: Seq<char>,
    e: FieldPathElementV,
) -> bool {
    ||| e == named_element(name)
    ||| exists|i: int, j: int|
        0 <= i < descriptors.messages@.len() && 0 <= j < descriptors.messages@[i].fields@.len()
            && descriptors.messages@[i].full_name@ == message && (
        descriptors.messages@[i].fields@[j].name@ == name
            || descriptors.messages@[i].fields@[j].json_name@ == name) && e
            == #[trigger] field_element(descriptors.messages@[i].fields@[j])
}

proof fn lemma_named_field(fields: Seq<FieldDescriptor>, name: Seq<char>, k: int)
    requires
        0 <= k <= fields.len(),
    ensures
        field_named(fields, name, k) matches Some(i) ==> k <= i < fields.len() && (fields[i].name@
            == name || fields[i].json_name@ == name),
    decreases fields.len() - k,
{
    if k < fields.len() {
        lemma_named_field(fields, name, k + 1);
    }
}

proof fn lemma_rule_element(descriptors: Descriptors, message: Seq<char>, name: Seq<char>)
    requires
        descriptors.messages@.len() <= u64::MAX,
    ensures
        element_named(descriptors, message, name, rule_element(descriptors, message, name)),
{
    law_message_types_are_found_by_name(descriptors, message);
    if let Some(i) = descriptors.index_from(message, 0) {
        let fields = descriptors.messages@[i as int].fields@;
        lemma_named_field(fields, name, 0);
    }
}

/// The elements of rule paths are those of the rule fields that they are
/// named after, in the message of `buf.validate` that has them.
pub proof fn law_rule_paths_name_rule_fields(descriptors: Descriptors)
    requires
        descriptors.messages@.len() <= u64::MAX,
    ensures
        element_named(
            descriptors,
            "buf.validate.FieldRules"@,
            "required"@,
            schema_of(descriptors).required,
        ),
        element_named(
            descriptors,
            "buf.validate.FieldRules"@,
            "any"@,
            schema_of(descriptors).any,
        ),
        element_named(
            descriptors,
            "buf.validate.AnyRules"@,
            "in"@,
            schema_of(descriptors).any_in,
        ),
        element_named(
            descriptors,
            "buf.validate.AnyRules"@,
            "not_in"@,
            schema_of(descriptors).any_not_in,
        ),
        element_named(
            descriptors,
            "buf.validate.FieldRules"@,
            "enum"@,
            schema_of(descriptors).enumeration,
        ),
        element_named(
            descriptors,
            "buf.validate.EnumRules"@,
            "defined_only"@,
            schema_of(descriptors).enum_defined_only,
        ),
        element_named(
            descriptors,
            "buf.validate.FieldRules"@,
            "cel"@,
            schema_of(descriptors).cel,
        ),
        element_named(
            descriptors,
            "buf.validate.FieldRules"@,
            "cel_expression"@,
            schema_of(descriptors).cel_expression,
        ),
        element_named(
            descriptors,
            "buf.validate.FieldRules"@,
            "repeated"@,
            schema_of(descriptors).repeated,
        ),
        element_named(
            descriptors,
            "buf.validate.RepeatedRules"@,
            "items"@,
            schema_of(descriptors).repeated_items,
        ),
        element_named(
            descriptors,
            "buf.validate.FieldRules"@,
            "map"@,
            schema_of(descriptors).mapping,
        ),
        element_named(
            descriptors,
            "buf.validate.MapRules"@,
            "keys"@,
            schema_of(descriptors).map_keys,
        ),
        element_named(
            descriptors,
            "buf.validate.MapRules"@,
            "values"@,
            schema_of(descriptors).map_values,
        ),
{
    lemma_rule_element(descriptors, "buf.validate.FieldRules"@, "required"@);
    lemma_rule_element(descriptors, "buf.validate.FieldRules"@, "any"@);
    lemma_rule_element(descriptors, "buf.validate.AnyRules"@, "in"@);
    lemma_rule_element(descriptors, "buf.validate.AnyRules"@, "not_in"@);
    lemma_rule_element(descriptors, "buf.validate.FieldRules"@, "enum"@);
    lemma_rule_element(descriptors, "buf.validate.EnumRules"@, "defined_only"@);
    lemma_rule_element(descriptors, "buf.validate.FieldRules"@, "cel"@);
    lemma_rule_element(descriptors, "buf.validate.FieldRules"@, "cel_expression"@);
    lemma_rule_element(descriptors, "buf.validate.FieldRules"@, "repeated"@);
    lemma_rule_element(descriptors, "buf.validate.RepeatedRules"@, "items"@);
    lemma_rule_element(descriptors, "buf.validate.FieldRules"@, "map"@);
    lemma_rule_element(descriptors, "buf.validate.MapRules"@, "keys"@);
    lemma_rule_element(descriptors, "buf.validate.MapRules"@, "values"@);
}

/// Where the message of `buf.validate` that has a rule field is registered,
/// the element is that of the field, with its number; and the elements of the
/// standard rules are those of all fields of `FieldRules`, in order.
pub proof fn law_rule_paths_have_the_numbers(
    descriptors: Descriptors,
    message: Seq<char>,
    name: Seq<char>,
    i: int,
    j: int,
)
    requires
        descriptors.messages@.len() <= u64::MAX,
        0 <= i < descriptors.messages@.len(),
        descriptors.messages@[i].full_name@ == message,
        forall|k: int|
            0 <= k < i ==> (#[trigger] descriptors.messages@[k]).full_name@ != message,
        0 <= j < descriptors.messages@[i].fields@.len(),
        descriptors.messages@[i].fields@[j].name@ == name,
        forall|k: int|
            0 <= k < j ==> (#[trigger] descriptors.messages@[i].fields@[k]).name@ != name
                && descriptors.messages@[i].fields@[k].json_name@ != name,
    ensures
        rule_element(descriptors, message, name) == field_element(
            descriptors.messages@[i].fields@[j],
        ),
        message == "buf.validate.FieldRules"@ ==> schema_of(descriptors).types.len()
            == descriptors.messages@[i].fields@.len() && schema_of(descriptors).types[j]
            == field_element(descriptors.messages@[i].fields@[j]),
{
    lemma_first_index(descriptors, message, 0, i);
    lemma_first_named(descriptors.messages@[i].fields@, name, 0, j);
}

proof fn lemma_first_index(descriptors: Descriptors, message: Seq<char>, k: int, i: int)
    requires
        0 <= k <= i < descriptors.messages@.len() <= u64::MAX,
        descriptors.messages@[i].full_name@ == message,
        forall|j: int|
            k <= j < i ==> (#[trigger] descriptors.messages@[j]).full_name@ != message,
    ensures
        descriptors.index_from(message, k) == Some(i as u64),
    decreases i - k,
{
    if k < i {
        lemma_first_index(descriptors, message, k + 1, i);
    }
}

proof fn lemma_first_named(fields: Seq<FieldDescriptor>, name: Seq<char>, k: int, j: int)
    requires
        0 <= k <= j < fields.len(),
        fields[j].name@ == name,
        forall|i: int|
            k <= i < j ==> (#[trigger] fields[i]).name@ != name && fields[i].json_name@ != name,
    ensures
        field_named(fields, name, k) == Some(j),
    decreases j - k,
{
    if k < j {
        lemma_first_named(fields, name, k + 1, j);
    }
}

} // verus!
