//! The registered message types and enums, as `buffa-descriptor` links them.
//!
//! Everything here is a call into that crate: a [`DescriptorPool`] links
//! serialized files, and is read one descriptor at a time. What it holds is
//! named by [`pool_messages`], [`pool_enums`] and [`pool_files`].
//!
//! [`DescriptorPool`]: buffa_descriptor::DescriptorPool

use crate::files::{FileHead, FileHeadV};
use buffa::Message as _;
use buffa_descriptor::reflect::ReflectMessage as _;
use std::sync::Arc;
use vstd::prelude::*;

verus! {

/// The linked types of `buffa-descriptor`.
#[verifier::external_type_specification]
#[verifier::external_body]
pub struct ExDescriptorPool(buffa_descriptor::DescriptorPool);

/// A parsed file of `buffa-descriptor`.
#[verifier::external_type_specification]
#[verifier::external_body]
pub struct ExFileDescriptorProto(
    buffa_descriptor::generated::descriptor::FileDescriptorProto,
);

/// A message that `buffa-descriptor` parsed by its descriptor.
#[verifier::external_type_specification]
#[verifier::external_body]
pub struct ExDynamicMessage(buffa_descriptor::reflect::DynamicMessage);

/// Whether a field holds one value, a list or a map.
#[derive(Clone, Copy, Debug, PartialEq, Eq, Structural)]
pub enum Cardinality {
    Singular,
    List,
    Mapping,
}

/// What a value of a field is: a scalar, by the place of its type in the
/// order in which `buffa-descriptor` declares them, or an enum or a message,
/// by name.
#[derive(Debug)]
pub enum Linked {
    Scalar(u8),
    Enum(String),
    Message(String),
}

/// What a [`Linked`] holds.
pub enum LinkedV {
    Scalar(u8),
    Enum(Seq<char>),
    Message(Seq<char>),
}

impl View for Linked {
    type V = LinkedV;

    open spec fn view(&self) -> LinkedV {
        match *self {
            Linked::Scalar(code) => LinkedV::Scalar(code),
            Linked::Enum(name) => LinkedV::Enum(name@),
            Linked::Message(name) => LinkedV::Message(name@),
        }
    }
}

/// A linked field.
pub struct LinkedField {
    pub name: Seq<char>,
    pub json_name: Seq<char>,
    pub number: u32,
    pub cardinality: Cardinality,
    /// The type of a map's keys, by the place of the type in the order in
    /// which `buffa-descriptor` declares them.
    pub key: u8,
    /// A map's values, and otherwise the field's.
    pub value: LinkedV,
    pub delimited: bool,
    /// Whether its presence is implicit: it is set when not the default.
    pub implicit: bool,
    /// The oneof it is in, by its place among the oneofs.
    pub oneof: Option<u16>,
}

/// A linked oneof.
pub struct LinkedOneof {
    pub name: Seq<char>,
    /// Its members, by their places among the fields.
    pub fields: Seq<u16>,
    pub synthetic: bool,
}

/// A linked message type.
pub struct LinkedMessage {
    pub full_name: Seq<char>,
    pub fields: Seq<LinkedField>,
    pub oneofs: Seq<LinkedOneof>,
}

/// A linked enum.
pub struct LinkedEnum {
    pub full_name: Seq<char>,
    pub numbers: Seq<i32>,
}

/// The message types that a pool has linked, in its order.
pub uninterp spec fn pool_messages(pool: buffa_descriptor::DescriptorPool) -> Seq<LinkedMessage>;

/// The enums that a pool has linked, in its order.
pub uninterp spec fn pool_enums(pool: buffa_descriptor::DescriptorPool) -> Seq<LinkedEnum>;

/// The names of the files that a pool has linked.
pub uninterp spec fn pool_files(pool: buffa_descriptor::DescriptorPool) -> Set<Seq<char>>;

/// What `buffa::Message::decode_from_slice` makes of bytes as a
/// `FileDescriptorProto`: the file, or what is wrong with them.
pub uninterp spec fn file_in(bytes: Seq<u8>) -> Result<
    buffa_descriptor::generated::descriptor::FileDescriptorProto,
    Seq<char>,
>;

/// The names in a file.
pub uninterp spec fn head_of(
    file: buffa_descriptor::generated::descriptor::FileDescriptorProto,
) -> FileHeadV;

/// What is wrong with adding a file to a pool; none when it links.
pub uninterp spec fn link_error(
    pool: buffa_descriptor::DescriptorPool,
    file: buffa_descriptor::generated::descriptor::FileDescriptorProto,
) -> Option<Seq<char>>;

/// A pool with a file added that links.
pub uninterp spec fn pool_with(
    pool: buffa_descriptor::DescriptorPool,
    file: buffa_descriptor::generated::descriptor::FileDescriptorProto,
) -> buffa_descriptor::DescriptorPool;

/// Calls `DescriptorPool::default`, which has linked nothing.
#[verifier::external_body]
pub(crate) fn empty_pool() -> (r: Arc<buffa_descriptor::DescriptorPool>)
    ensures
        pool_messages(*r) == Seq::<LinkedMessage>::empty(),
        pool_enums(*r) == Seq::<LinkedEnum>::empty(),
        pool_files(*r) == Set::<Seq<char>>::empty(),
{
    Arc::new(buffa_descriptor::DescriptorPool::default())
}

/// Calls `buffa::Message::decode_from_slice` for a `FileDescriptorProto`.
#[verifier::external_body]
pub(crate) fn decode_file(bytes: &[u8]) -> (r: Result<
    buffa_descriptor::generated::descriptor::FileDescriptorProto,
    String,
>)
    ensures
        match r {
            Ok(file) => file_in(bytes@) == Ok::<
                buffa_descriptor::generated::descriptor::FileDescriptorProto,
                Seq<char>,
            >(file),
            Err(error) => file_in(bytes@) == Err::<
                buffa_descriptor::generated::descriptor::FileDescriptorProto,
                Seq<char>,
            >(error@),
        },
{
    buffa_descriptor::generated::descriptor::FileDescriptorProto::decode_from_slice(bytes)
        .map_err(|error| error.to_string())
}

/// Whether a pool has linked a file of that name.
pub open spec fn file_known(
    pool: buffa_descriptor::DescriptorPool,
    file: buffa_descriptor::generated::descriptor::FileDescriptorProto,
) -> bool {
    head_of(file).name is Some && pool_files(pool).contains(head_of(file).name->Some_0)
}

/// Calls `DescriptorPool::file_by_name`, which finds a linked file by its
/// name.
#[verifier::external_body]
pub(crate) fn has_file(pool: &Arc<buffa_descriptor::DescriptorPool>, name: &str) -> (r: bool)
    ensures
        r == pool_files(**pool).contains(name@),
{
    pool.file_by_name(name).is_some()
}

/// Reads the fields of a `FileDescriptorProto` that hold its `name` and
/// `package`, its `dependency` list, and the names of its `message_type` and
/// `enum_type` descriptors.
#[verifier::external_body]
pub(crate) fn read_head(
    file: &buffa_descriptor::generated::descriptor::FileDescriptorProto,
) -> (r: FileHead)
    ensures
        r@ == head_of(*file),
{
    FileHead {
        name: file.name.clone(),
        package: file.package.clone(),
        imports: file.dependency.clone(),
        messages: file.message_type.iter().map(|message| message.name.clone()).collect(),
        enums: file.enum_type.iter().map(|enumeration| enumeration.name.clone()).collect(),
    }
}

/// Calls `DescriptorPool::add_file_descriptor_set` with a set of the one
/// file. Its types and enums come behind those linked before, which stay as
/// they are, or, when it does not link, the pool stays as it is. An enum is
/// looked up by its full name while it is linked, and not found under one
/// that begins with a dot: such files are left out.
#[verifier::external_body]
pub(crate) fn add_file(
    pool: &mut Arc<buffa_descriptor::DescriptorPool>,
    file: buffa_descriptor::generated::descriptor::FileDescriptorProto,
) -> (r: Result<(), String>)
    requires
        head_of(file).well_named(),
    ensures
        match r {
            Ok(_) => link_error(**old(pool), file) is None && **final(pool) == pool_with(
                **old(pool),
                file,
            ),
            Err(error) => link_error(**old(pool), file) == Some(error@) && **final(pool) == **old(
                pool,
            ),
        },
        pool_messages(**old(pool)).is_prefix_of(pool_messages(**final(pool))),
        pool_enums(**old(pool)).is_prefix_of(pool_enums(**final(pool))),
        r is Ok ==> pool_files(**final(pool)) == match head_of(file).name {
            Some(name) => pool_files(**old(pool)).insert(name),
            None => pool_files(**old(pool)),
        },
{
    let mut set = buffa_descriptor::generated::descriptor::FileDescriptorSet::default();
    set.file.push(file);
    Arc::make_mut(pool).add_file_descriptor_set(set).map_err(|error| error.to_string())
}

/// Calls `DescriptorPool::messages` and gives their number.
#[verifier::external_body]
pub(crate) fn message_count(pool: &Arc<buffa_descriptor::DescriptorPool>) -> (r: usize)
    ensures
        r == pool_messages(**pool).len(),
{
    pool.messages().len()
}

/// Calls `MessageDescriptor::full_name`.
#[verifier::external_body]
pub(crate) fn message_name(pool: &Arc<buffa_descriptor::DescriptorPool>, i: usize) -> (r: String)
    requires
        i < pool_messages(**pool).len(),
    ensures
        r@ == pool_messages(**pool)[i as int].full_name,
{
    pool.messages()[i].full_name().to_owned()
}

/// Calls `MessageDescriptor::fields` and gives their number.
#[verifier::external_body]
pub(crate) fn field_count(pool: &Arc<buffa_descriptor::DescriptorPool>, i: usize) -> (r: usize)
    requires
        i < pool_messages(**pool).len(),
    ensures
        r == pool_messages(**pool)[i as int].fields.len(),
{
    pool.messages()[i].fields().len()
}

/// Calls `FieldDescriptor::name`.
#[verifier::external_body]
pub(crate) fn field_name(pool: &Arc<buffa_descriptor::DescriptorPool>, i: usize, j: usize) -> (r:
    String)
    requires
        i < pool_messages(**pool).len(),
        j < pool_messages(**pool)[i as int].fields.len(),
    ensures
        r@ == pool_messages(**pool)[i as int].fields[j as int].name,
{
    pool.messages()[i].fields()[j].name().to_owned()
}

/// Calls `FieldDescriptor::json_name`.
#[verifier::external_body]
pub(crate) fn field_json_name(
    pool: &Arc<buffa_descriptor::DescriptorPool>,
    i: usize,
    j: usize,
) -> (r: String)
    requires
        i < pool_messages(**pool).len(),
        j < pool_messages(**pool)[i as int].fields.len(),
    ensures
        r@ == pool_messages(**pool)[i as int].fields[j as int].json_name,
{
    pool.messages()[i].fields()[j].json_name().to_owned()
}

/// Calls `FieldDescriptor::number`.
#[verifier::external_body]
pub(crate) fn field_number(pool: &Arc<buffa_descriptor::DescriptorPool>, i: usize, j: usize) -> (r:
    u32)
    requires
        i < pool_messages(**pool).len(),
        j < pool_messages(**pool)[i as int].fields.len(),
    ensures
        r == pool_messages(**pool)[i as int].fields[j as int].number,
{
    pool.messages()[i].fields()[j].number()
}

/// Calls `FieldDescriptor::kind` and gives its cardinality.
#[verifier::external_body]
pub(crate) fn field_cardinality(
    pool: &Arc<buffa_descriptor::DescriptorPool>,
    i: usize,
    j: usize,
) -> (r: Cardinality)
    requires
        i < pool_messages(**pool).len(),
        j < pool_messages(**pool)[i as int].fields.len(),
    ensures
        r == pool_messages(**pool)[i as int].fields[j as int].cardinality,
{
    match pool.messages()[i].fields()[j].kind() {
        buffa_descriptor::FieldKind::Singular(_) => Cardinality::Singular,
        buffa_descriptor::FieldKind::List(_) => Cardinality::List,
        buffa_descriptor::FieldKind::Map { .. } => Cardinality::Mapping,
    }
}

/// Calls `FieldDescriptor::kind` and gives the key type of a map; 0 for
/// another field.
#[verifier::external_body]
pub(crate) fn field_key(pool: &Arc<buffa_descriptor::DescriptorPool>, i: usize, j: usize) -> (r: u8)
    requires
        i < pool_messages(**pool).len(),
        j < pool_messages(**pool)[i as int].fields.len(),
    ensures
        r == pool_messages(**pool)[i as int].fields[j as int].key,
{
    match pool.messages()[i].fields()[j].kind() {
        buffa_descriptor::FieldKind::Map { key, .. } => key as u8,
        buffa_descriptor::FieldKind::Singular(_) => 0,
        buffa_descriptor::FieldKind::List(_) => 0,
    }
}

/// Calls `FieldDescriptor::kind` and gives the type of the field's values,
/// a map's being its values; an enum or message by its `full_name`. A message
/// is one that the pool has linked.
#[verifier::external_body]
pub(crate) fn field_value(pool: &Arc<buffa_descriptor::DescriptorPool>, i: usize, j: usize) -> (r:
    Linked)
    requires
        i < pool_messages(**pool).len(),
        j < pool_messages(**pool)[i as int].fields.len(),
    ensures
        r@ == pool_messages(**pool)[i as int].fields[j as int].value,
        r@ matches LinkedV::Message(name) ==> exists|k: int|
            0 <= k < pool_messages(**pool).len() && #[trigger] pool_messages(**pool)[k].full_name
                == name,
{
    let kind = match pool.messages()[i].fields()[j].kind() {
        buffa_descriptor::FieldKind::Singular(kind) => kind,
        buffa_descriptor::FieldKind::List(kind) => kind,
        buffa_descriptor::FieldKind::Map { value, .. } => value,
    };
    match kind {
        buffa_descriptor::SingularKind::Scalar(scalar) => Linked::Scalar(scalar as u8),
        buffa_descriptor::SingularKind::Enum(e) => Linked::Enum(
            pool.enumeration(e).full_name().to_owned()),
        buffa_descriptor::SingularKind::Message(m) => Linked::Message(
            pool.message(m).full_name().to_owned()),
    }
}

/// Calls `FieldDescriptor::is_delimited`.
#[verifier::external_body]
pub(crate) fn field_delimited(
    pool: &Arc<buffa_descriptor::DescriptorPool>,
    i: usize,
    j: usize,
) -> (r: bool)
    requires
        i < pool_messages(**pool).len(),
        j < pool_messages(**pool)[i as int].fields.len(),
    ensures
        r == pool_messages(**pool)[i as int].fields[j as int].delimited,
{
    pool.messages()[i].fields()[j].is_delimited()
}

/// Calls `FieldDescriptor::presence` and says whether it is implicit.
#[verifier::external_body]
pub(crate) fn field_implicit(
    pool: &Arc<buffa_descriptor::DescriptorPool>,
    i: usize,
    j: usize,
) -> (r: bool)
    requires
        i < pool_messages(**pool).len(),
        j < pool_messages(**pool)[i as int].fields.len(),
    ensures
        r == pool_messages(**pool)[i as int].fields[j as int].implicit,
{
    pool.messages()[i].fields()[j].presence() == buffa::editions::FieldPresence::Implicit
}

/// Calls `FieldDescriptor::oneof_index`.
#[verifier::external_body]
pub(crate) fn field_oneof(pool: &Arc<buffa_descriptor::DescriptorPool>, i: usize, j: usize) -> (r:
    Option<u16>)
    requires
        i < pool_messages(**pool).len(),
        j < pool_messages(**pool)[i as int].fields.len(),
    ensures
        r == pool_messages(**pool)[i as int].fields[j as int].oneof,
{
    pool.messages()[i].fields()[j].oneof_index()
}

/// Calls `MessageDescriptor::oneofs` and gives their number.
#[verifier::external_body]
pub(crate) fn oneof_count(pool: &Arc<buffa_descriptor::DescriptorPool>, i: usize) -> (r: usize)
    requires
        i < pool_messages(**pool).len(),
    ensures
        r == pool_messages(**pool)[i as int].oneofs.len(),
{
    pool.messages()[i].oneofs().len()
}

/// Calls `OneofDescriptor::name`.
#[verifier::external_body]
pub(crate) fn oneof_name(pool: &Arc<buffa_descriptor::DescriptorPool>, i: usize, j: usize) -> (r:
    String)
    requires
        i < pool_messages(**pool).len(),
        j < pool_messages(**pool)[i as int].oneofs.len(),
    ensures
        r@ == pool_messages(**pool)[i as int].oneofs[j as int].name,
{
    pool.messages()[i].oneofs()[j].name().to_owned()
}

/// Calls `OneofDescriptor::field_indices`.
#[verifier::external_body]
pub(crate) fn oneof_fields(pool: &Arc<buffa_descriptor::DescriptorPool>, i: usize, j: usize) -> (r:
    Vec<u16>)
    requires
        i < pool_messages(**pool).len(),
        j < pool_messages(**pool)[i as int].oneofs.len(),
    ensures
        r@ == pool_messages(**pool)[i as int].oneofs[j as int].fields,
{
    pool.messages()[i].oneofs()[j].field_indices().to_vec()
}

/// Calls `OneofDescriptor::is_synthetic`.
#[verifier::external_body]
pub(crate) fn oneof_synthetic(
    pool: &Arc<buffa_descriptor::DescriptorPool>,
    i: usize,
    j: usize,
) -> (r: bool)
    requires
        i < pool_messages(**pool).len(),
        j < pool_messages(**pool)[i as int].oneofs.len(),
    ensures
        r == pool_messages(**pool)[i as int].oneofs[j as int].synthetic,
{
    pool.messages()[i].oneofs()[j].is_synthetic()
}

/// Calls `DescriptorPool::enums` and gives their number.
#[verifier::external_body]
pub(crate) fn enum_count(pool: &Arc<buffa_descriptor::DescriptorPool>) -> (r: usize)
    ensures
        r == pool_enums(**pool).len(),
{
    pool.enums().len()
}

/// Calls `EnumDescriptor::full_name`.
#[verifier::external_body]
pub(crate) fn enum_name(pool: &Arc<buffa_descriptor::DescriptorPool>, i: usize) -> (r: String)
    requires
        i < pool_enums(**pool).len(),
    ensures
        r@ == pool_enums(**pool)[i as int].full_name,
{
    pool.enums()[i].full_name().to_owned()
}

/// Calls `EnumDescriptor::values` and gives their number.
#[verifier::external_body]
pub(crate) fn enum_value_count(pool: &Arc<buffa_descriptor::DescriptorPool>, i: usize) -> (r: usize)
    requires
        i < pool_enums(**pool).len(),
    ensures
        r == pool_enums(**pool)[i as int].numbers.len(),
{
    pool.enums()[i].values().len()
}

/// Calls `EnumValueDescriptor::number`.
#[verifier::external_body]
pub(crate) fn enum_number(pool: &Arc<buffa_descriptor::DescriptorPool>, i: usize, j: usize) -> (r:
    i32)
    requires
        i < pool_enums(**pool).len(),
        j < pool_enums(**pool)[i as int].numbers.len(),
    ensures
        r == pool_enums(**pool)[i as int].numbers[j as int],
{
    pool.enums()[i].values()[j].number()
}

/// The place of a linked message type, of `buffa-descriptor`.
#[verifier::external_type_specification]
#[verifier::external_body]
pub struct ExMessageIndex(buffa_descriptor::MessageIndex);

/// The place of the type of a name among those that a pool has linked.
pub uninterp spec fn index_in(
    pool: buffa_descriptor::DescriptorPool,
    full_name: Seq<char>,
) -> Option<buffa_descriptor::MessageIndex>;

/// What `DynamicMessage::decode` makes of bytes as a message of a linked
/// type: the message, or what is wrong with them.
pub uninterp spec fn dynamic_in(
    pool: buffa_descriptor::DescriptorPool,
    index: buffa_descriptor::MessageIndex,
    bytes: Seq<u8>,
) -> Result<buffa_descriptor::reflect::DynamicMessage, Seq<char>>;

/// Whether a parsed message has fields that its descriptor does not.
pub uninterp spec fn has_unknown(message: buffa_descriptor::reflect::DynamicMessage) -> bool;

/// The numbers of the fields that a parsed message sets.
pub uninterp spec fn set_numbers(message: buffa_descriptor::reflect::DynamicMessage) -> Seq<u32>;

/// Calls `DescriptorPool::message_index`, which finds a type by its name.
#[verifier::external_body]
pub(crate) fn linked_index(
    pool: &Arc<buffa_descriptor::DescriptorPool>,
    full_name: &str,
) -> (r: Option<buffa_descriptor::MessageIndex>)
    ensures
        r == index_in(**pool, full_name@),
{
    pool.message_index(full_name)
}

/// Calls `DynamicMessage::decode`. The place has to be one that the pool
/// gave, as `linked_index` does.
#[verifier::external_body]
pub(crate) fn decode_dynamic(
    pool: &Arc<buffa_descriptor::DescriptorPool>,
    index: buffa_descriptor::MessageIndex,
    bytes: &[u8],
) -> (r: Result<buffa_descriptor::reflect::DynamicMessage, String>)
    requires
        exists|full_name: Seq<char>| #[trigger] index_in(**pool, full_name) == Some(index),
    ensures
        match r {
            Ok(message) => dynamic_in(**pool, index, bytes@) == Ok::<
                buffa_descriptor::reflect::DynamicMessage,
                Seq<char>,
            >(message),
            Err(error) => dynamic_in(**pool, index, bytes@) == Err::<
                buffa_descriptor::reflect::DynamicMessage,
                Seq<char>,
            >(error@),
        },
{
    buffa_descriptor::reflect::DynamicMessage::decode(Arc::clone(pool), index, bytes)
        .map_err(|error| error.to_string())
}

/// Calls `DynamicMessage::unknown_fields` and `UnknownFields::is_empty`.
#[verifier::external_body]
pub(crate) fn unknown_fields(message: &buffa_descriptor::reflect::DynamicMessage) -> (r: bool)
    ensures
        r == has_unknown(*message),
{
    !message.unknown_fields().is_empty()
}

/// Calls `DynamicMessage::for_each_set`, which visits the fields that are
/// set, extensions among them, and gives their numbers in ascending order.
#[verifier::external_body]
pub(crate) fn set_fields(message: &buffa_descriptor::reflect::DynamicMessage) -> (r: Vec<u32>)
    ensures
        r@ == set_numbers(*message),
        forall|i: int, j: int| 0 <= i < j < r@.len() ==> #[trigger] r@[i] < #[trigger] r@[j],
{
    let mut numbers = Vec::new();
    message.for_each_set(&mut |field, _| numbers.push(field.number()));
    numbers
}

} // verus!
