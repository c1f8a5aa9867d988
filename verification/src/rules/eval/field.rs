//! The rules of one field.

use super::report::violation;
use super::values::{field_number, is_set, scalar_of};
use super::walker::{added, lemma_regroup, lemma_rest, step, LazyFrame, Walker};
use crate::cel::{Engine, This};
use crate::error::Error;
use crate::protobuf::reads::{get_field, has_field, list_len, map_len};
use crate::protobuf::{
    message_of, optional, optional_ref, shapes, Entries, List, Message, Runtime, Val,
};
use crate::rules::outcome::on_field;
use crate::rules::standard::wellknown::Formats;
use crate::rules::{FieldEvaluator, Shape};
use crate::validate::ViolationV;
use vstd::prelude::*;

verus! {

/// A value behind a reference.
fn seen<R: Runtime>(value: &Option<Val<R>>) -> (r: Option<&Val<R>>)
    ensures
        optional_ref::<R>(r) == optional::<R>(*value),
{
    match value {
        Some(value) => Some(value),
        None => None,
    }
}

impl<'a, R, F, C> Walker<'a, R, F, C> where
    R: Runtime,
    F: Formats,
    C: Engine,
    R::Message: Message<R>,
    R::List: List<R>,
    R::Entries: Entries<R>,
 {
    /// Whether a field is not there to be checked, after reporting one that
    /// has to be.
    fn absent(
        &mut self,
        message: &R::Message,
        field: &FieldEvaluator<C::Program>,
        value: &Option<Val<R>>,
    ) -> (r: Result<bool, Error<R::Error>>)
        ensures
            final(self).setting() == old(self).setting(),
            match old(self).setting().absent(
                message_of::<R>(*message),
                field@,
                optional::<R>(*value),
            ) {
                Some(out) => added(old(self).found(), step(r), final(self).found(), out)
                    && r !== Ok::<bool, Error<R::Error>>(false),
                None => r === Ok::<bool, Error<R::Error>>(false) && final(self).found() == old(
                    self,
                ).found(),
            },
    {
        proof {
            shapes::<R>();
            assert(self.found() =~= self.found() + Seq::<ViolationV>::empty());
        }
        match field.shape {
            Shape::List | Shape::Mapping { .. } => {
                let len: usize = match value {
                    Some(Val::List(list)) => match list_len::<R>(list) {
                        Ok(len) => len,
                        Err(error) => return Err(error),
                    },
                    Some(Val::Mapping(map)) => match map_len::<R>(map) {
                        Ok(len) => len,
                        Err(error) => return Err(error),
                    },
                    _ => 0,
                };
                if len == 0 {
                    if field.rules.ignore_empty {
                        return Ok(true);
                    }
                    if field.required {
                        self.required(field);
                        return Ok(true);
                    }
                }
            },
            Shape::Singular => {
                let set = if field.field.has_presence() {
                    match has_field::<R>(message, &field.field) {
                        Ok(set) => set,
                        Err(error) => return Err(error),
                    }
                } else {
                    match is_set::<R>(value) {
                        Ok(set) => set,
                        Err(error) => return Err(error),
                    }
                };
                if !set {
                    if field.required {
                        self.required(field);
                        return Ok(true);
                    }
                    if field.rules.ignore_empty {
                        return Ok(true);
                    }
                }
            },
        }
        Ok(false)
    }

    /// Binds `this` to a field's value, and runs the field's CEL.
    fn field_cel(
        &mut self,
        message: &R::Message,
        frame: &mut LazyFrame<'_, C>,
        field: &FieldEvaluator<C::Program>,
        value: &Option<Val<R>>,
    ) -> (r: Result<(), Error<R::Error>>)
        requires
            old(frame).of(old(self).setting().engine, message_of::<R>(*message)),
        ensures
            final(self).setting() == old(self).setting(),
            final(frame).name() == old(frame).name(),
            final(frame).of(old(self).setting().engine, message_of::<R>(*message)),
            added(
                old(self).found(),
                r,
                final(self).found(),
                old(self).setting().field_cel(
                    message_of::<R>(*message),
                    old(frame).name(),
                    field@,
                    optional::<R>(*value),
                ),
            ),
    {
        match &field.rules.programs {
            None => {
                assert(self.found() =~= self.found() + Seq::<ViolationV>::empty());
                Ok(())
            },
            Some(programs) => match (field.shape, field.rules.scalar) {
                (Shape::Singular, Some(kind)) => self.run(
                    programs,
                    This::Scalar(scalar_of::<R>(seen::<R>(value), kind)),
                ),
                // CEL only sees the message if a custom rule needs it.
                _ => match frame.parse::<R>(self.engine(), message) {
                    Ok(()) => self.run(
                        programs,
                        This::Field(frame.get(), field_number(field.field.number())),
                    ),
                    Err(error) => Err(error),
                },
            },
        }
    }

    /// The checks and CEL of a field.
    fn field_rules(
        &mut self,
        message: &R::Message,
        frame: &mut LazyFrame<'_, C>,
        field: &FieldEvaluator<C::Program>,
        value: &Option<Val<R>>,
    ) -> (r: Result<(), Error<R::Error>>)
        requires
            !old(self).stopping(),
            old(frame).of(old(self).setting().engine, message_of::<R>(*message)),
        ensures
            final(self).setting() == old(self).setting(),
            final(frame).name() == old(frame).name(),
            final(frame).of(old(self).setting().engine, message_of::<R>(*message)),
            added(
                old(self).found(),
                r,
                final(self).found(),
                old(self).setting().field_rules(
                    message_of::<R>(*message),
                    old(frame).name(),
                    field@,
                    optional::<R>(*value),
                ),
            ),
    {
        let ghost start = self.found();
        let from: usize = self.count();
        match self.checks(&field.rules.checks, &field.rules.wrapper, seen::<R>(value)) {
            Ok(()) => {},
            Err(error) => return Err(error),
        }
        let ghost checked = self.found();
        assert(checked =~= checked + Seq::<ViolationV>::empty());
        if !self.should_return() {
            match self.field_cel(message, frame, field, value) {
                Ok(()) => {},
                Err(error) => return Err(error),
            }
        }
        let ghost all = self.found();
        proof {
            lemma_rest(start, checked);
            lemma_rest(checked, all);
            lemma_regroup(start, checked, all);
            lemma_rest(start, all);
        }
        if self.count() > from {
            self.append_field(from, &field.element);
        }
        proof {
            let more = all.skip(start.len() as int);
            assert(self.found() =~= start + on_field(more, field@.element));
        }
        Ok(())
    }

    /// Checks `enum.defined_only`.
    fn defined_only(&mut self, field: &FieldEvaluator<C::Program>, value: &Option<Val<R>>)
        ensures
            final(self).setting() == old(self).setting(),
            added(
                old(self).found(),
                Ok::<(), Error<R::Error>>(()),
                final(self).found(),
                old(self).setting().defined_only(field@, optional::<R>(*value)),
            ),
    {
        proof {
            shapes::<R>();
            assert(self.found() =~= self.found() + Seq::<ViolationV>::empty());
        }
        match (field.defined_only, value) {
            (Some(index), Some(Val::Enum(number))) => {
                if !self.defines(index, *number) {
                    self.report(
                        violation(
                            "enum.defined_only",
                            "value must be one of the defined enum values",
                            Some(&field.element),
                            super::report::pair(
                                &self.schema().enum_defined_only,
                                &self.schema().enumeration,
                            ),
                        ),
                    );
                }
            },
            _ => {},
        }
    }

    /// The rules of a repeated field's elements.
    fn field_list(&mut self, field: &FieldEvaluator<C::Program>, value: &Option<Val<R>>) -> (r:
        Result<(), Error<R::Error>>)
        requires
            !old(self).stopping(),
        ensures
            final(self).setting() == old(self).setting(),
            added(
                old(self).found(),
                r,
                final(self).found(),
                old(self).setting().field_list(field@, optional::<R>(*value)),
            ),
    {
        proof {
            shapes::<R>();
            assert(self.found() =~= self.found() + Seq::<ViolationV>::empty());
        }
        match (&field.items, value) {
            (Some(items), Some(Val::List(list))) => self.items(field, items, list),
            _ => Ok(()),
        }
    }

    /// The rules of a map field's entries.
    fn field_entries(&mut self, field: &FieldEvaluator<C::Program>, value: &Option<Val<R>>) -> (r:
        Result<(), Error<R::Error>>)
        requires
            !old(self).stopping(),
        ensures
            final(self).setting() == old(self).setting(),
            added(
                old(self).found(),
                r,
                final(self).found(),
                old(self).setting().field_entries(
                    field@,
                    optional::<R>(*value),
                ),
            ),
    {
        proof {
            shapes::<R>();
            assert(self.found() =~= self.found() + Seq::<ViolationV>::empty());
        }
        if field.keys.is_some() || field.values.is_some() {
            match value {
                Some(Val::Mapping(map)) => return self.map(field, map),
                _ => {},
            }
        }
        Ok(())
    }

    /// The rules of a field that is there, after its `any` rules.
    fn present_field(
        &mut self,
        message: &R::Message,
        frame: &mut LazyFrame<'_, C>,
        field: &FieldEvaluator<C::Program>,
        value: &Option<Val<R>>,
    ) -> (r: Result<(), Error<R::Error>>)
        requires
            !old(self).stopping(),
            old(frame).of(old(self).setting().engine, message_of::<R>(*message)),
        ensures
            final(self).setting() == old(self).setting(),
            final(frame).name() == old(frame).name(),
            final(frame).of(old(self).setting().engine, message_of::<R>(*message)),
            added(
                old(self).found(),
                r,
                final(self).found(),
                old(self).setting().present_field(
                    message_of::<R>(*message),
                    old(frame).name(),
                    field@,
                    optional::<R>(*value),
                ),
            ),
    {
        let ghost start = self.found();
        match self.field_rules(message, frame, field, value) {
            Ok(()) => {},
            Err(error) => return Err(error),
        }
        let ghost checked = self.found();
        if self.should_return() {
            return Ok(());
        }
        self.defined_only(field, value);
        let ghost defined = self.found();
        proof {
            lemma_rest(start, checked);
            lemma_rest(checked, defined);
            lemma_regroup(start, checked, defined);
        }
        if self.should_return() {
            return Ok(());
        }
        match self.field_list(field, value) {
            Ok(()) => {},
            Err(error) => return Err(error),
        }
        let ghost listed = self.found();
        proof {
            lemma_rest(start, defined);
            lemma_rest(defined, listed);
            lemma_regroup(start, defined, listed);
        }
        if self.should_return() {
            return Ok(());
        }
        let done = self.field_entries(field, value);
        proof {
            lemma_rest(start, listed);
            if done is Ok {
                lemma_rest(listed, self.found());
                lemma_regroup(start, listed, self.found());
            }
        }
        done
    }

    /// The rules of one field: presence, the checks and CEL programs, then
    /// the enum, repeated and map rules.
    pub(crate) fn field(
        &mut self,
        message: &R::Message,
        frame: &mut LazyFrame<'_, C>,
        field: &FieldEvaluator<C::Program>,
    ) -> (r: Result<(), Error<R::Error>>)
        requires
            !old(self).stopping(),
            old(frame).of(old(self).setting().engine, message_of::<R>(*message)),
        ensures
            final(self).setting() == old(self).setting(),
            final(frame).name() == old(frame).name(),
            final(frame).of(old(self).setting().engine, message_of::<R>(*message)),
            added(
                old(self).found(),
                r,
                final(self).found(),
                old(self).setting().field(message_of::<R>(*message), old(frame).name(), field@),
            ),
    {
        proof {
            shapes::<R>();
        }
        let ghost start = self.found();
        let value = match get_field::<R>(message, &field.field) {
            Ok(value) => value,
            Err(error) => return Err(error),
        };
        match self.absent(message, field, &value) {
            Ok(true) => return Ok(()),
            Ok(false) => {},
            Err(error) => return Err(error),
        }
        assert(self.found() =~= self.found() + Seq::<ViolationV>::empty());
        match field.shape {
            Shape::Singular => match (&field.rules.any, &value) {
                (Some(check), Some(Val::Message(any))) => match self.any(
                    Some(&field.element),
                    any,
                    check,
                ) {
                    Ok(()) => {},
                    Err(error) => return Err(error),
                },
                _ => {},
            },
            _ => {},
        }
        let ghost middle = self.found();
        if self.should_return() {
            return Ok(());
        }
        let done = self.present_field(message, frame, field, &value);
        proof {
            lemma_rest(start, middle);
            if done is Ok {
                lemma_rest(middle, self.found());
                lemma_regroup(start, middle, self.found());
            }
        }
        done
    }
}

} // verus!
