//! Protocol Buffer message validation.
//!
//! Validation rules are written in `.proto` files with the `buf.validate`
//! extensions. This crate evaluates them against messages: the standard
//! rules natively, custom CEL expressions through an [`Engine`].
//!
//! A [`Validator`] caches compiled rules; create one and keep it. It is given
//! the files of the `buf.validate` schema, and an [`OptionsReader`] for the
//! rules in the options of files. Descriptors are registered serialized, and
//! a message is read in place through a [`Runtime`] the caller implements
//! over its own Protobuf runtime. Register
//! descriptors up front, and validate messages as they arrive: a message that
//! breaks its rules is an [`Error::Validation`], which carries a serialized
//! `buf.validate.Violations`; every other error means that validation itself
//! failed.
//!
//! With [`NoCel`] for an engine, a custom CEL rule is reported as
//! [`Error::Compilation`] when its message type is first validated.
//!
//! What a validation reports is said by [`rules::outcome`], what building the
//! rules of a message type gives by [`rules::plan`], and what holds of every
//! validation by the proof functions whose names begin with `law_`.
//!
//! [`Engine`]: cel::Engine
//! [`NoCel`]: cel::NoCel
//! [`OptionsReader`]: options::OptionsReader
//! [`Runtime`]: protobuf::Runtime

pub mod cel;
pub mod descriptors;
pub mod double;
pub mod error;
pub mod files;
pub mod options;
pub mod pool;
pub mod protobuf;
pub mod registry;
pub mod rules;
pub mod strings;
pub mod text;
pub mod validate;
pub mod validator;

pub use error::{DescriptorError, Error, ValidationError};
pub use validator::Validator;
