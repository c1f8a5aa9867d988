//! Building evaluators from a message type's `buf.validate` options.
//!
//! Standard rules are checked with directly. Only custom CEL reaches the CEL
//! backend: message- and field-level `cel` options, and user-defined
//! predefined rules on extension fields, whose expressions are compiled with
//! `rules` bound to the rules message and `rule` to that field. The
//! structural rules -- `required`, `ignore`, `enum.defined_only`,
//! `any.in`/`not_in`, and the oneof rules -- are checked by the walker
//! directly.

use crate::cel::Engine;
use crate::descriptors::{Descriptors, Schema};
use crate::rules::plan::Source;
use std::sync::Arc;
use vstd::prelude::*;

pub mod assembly;
mod cel;
mod closure;
pub mod laws;
mod message;
mod names;
pub mod suits;
mod value;

pub use cel::Compiled;
pub use closure::{fallible_loaded, loaded_of};
pub use message::{fallible_evaluator, fallible_field, fallible_fields};

pub use value::{Built, Decoded};

verus! {

/// Compiles the rules of message types.
pub struct Builder<'a, C> {
    pub(crate) descriptors: &'a Descriptors,
    pub(crate) pool: &'a Arc<buffa_descriptor::DescriptorPool>,
    pub(crate) schema: &'a Schema,
    pub(crate) engine: &'a C,
}

impl<'a, C: Engine> Builder<'a, C> {
    /// What the builder goes by.
    pub closed spec fn source(self) -> Source<C> {
        Source {
            descriptors: *self.descriptors,
            pool: **self.pool,
            schema: self.schema@,
            engine: *self.engine,
        }
    }

    /// A builder over the registered types.
    pub fn new(
        descriptors: &'a Descriptors,
        pool: &'a Arc<buffa_descriptor::DescriptorPool>,
        schema: &'a Schema,
        engine: &'a C,
    ) -> (r: Builder<'a, C>)
        ensures
            r.source() == (Source {
                descriptors: *descriptors,
                pool: **pool,
                schema: schema@,
                engine: *engine,
            }),
    {
        Builder { descriptors, pool, schema, engine }
    }

    /// The registered types.
    pub(crate) fn descriptors(&self) -> (r: &'a Descriptors)
        ensures
            *r == self.source().descriptors,
    {
        self.descriptors
    }

    /// The linked types.
    pub(crate) fn pool(&self) -> (r: &'a Arc<buffa_descriptor::DescriptorPool>)
        ensures
            **r == self.source().pool,
    {
        self.pool
    }

    /// The path elements of rules.
    pub(crate) fn schema(&self) -> (r: &'a Schema)
        ensures
            r@ == self.source().schema,
    {
        self.schema
    }

    /// The CEL runtime.
    pub(crate) fn engine(&self) -> (r: &'a C)
        ensures
            *r == self.source().engine,
    {
        self.engine
    }
}

} // verus!
