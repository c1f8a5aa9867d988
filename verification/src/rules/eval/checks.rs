//! The rules of one value, and those of oneofs.

use super::report::{pair, violation};
use super::values::{has, is_empty_text};
use super::walker::{added, lemma_begin, lemma_step, Walker};
use crate::rules::outcome::{cat, Out, Setting};
use crate::rules::standard::wellknown::Formats;
use crate::rules::standard::{checks_of, Check};
use crate::rules::{field_view, AnyCheck, FieldEvaluator, MessageOneof, OneofRequired, ProgramSet};
use crate::cel::{Engine, This, Value};
use crate::descriptors::any_url;
use crate::error::{Error, ErrorV};
use crate::protobuf::reads::get_field;
use crate::protobuf::{
    fields_of, message_of, optional_ref, shapes, Entries, Field, List, Message, Runtime, Val,
};
use crate::strings::has_text;
use crate::text::{concat3, texts};
use crate::validate::{copy_path, path_of, FieldPathElement, ViolationV};
use vstd::prelude::*;

verus! {

impl<'a, R, F, C> Walker<'a, R, F, C> where
    R: Runtime,
    F: Formats,
    C: Engine,
    R::Message: Message<R>,
    R::List: List<R>,
    R::Entries: Entries<R>,
 {
    /// Runs the standard rules against a value, stopping at the first
    /// violation when failing fast.
    pub(crate) fn run_checks(&mut self, checks: &Vec<Check>, value: Option<&Val<R>>) -> (r: Result<
        (),
        Error<R::Error>,
    >)
        ensures
            final(self).setting() == old(self).setting(),
            added(
                old(self).found(),
                r,
                final(self).found(),
                old(self).setting().checks_from(
                    checks_of(checks@),
                    optional_ref::<R>(value),
                    0,
                ),
            ),
    {
        let ghost s = self.setting();
        let ghost start = self.found();
        let ghost rules = checks_of(checks@);
        let ghost v = optional_ref::<R>(value);
        let ghost mut so_far = Seq::<ViolationV>::empty();
        let mut i: usize = 0;
        proof {
            lemma_begin(s.checks_from(rules, v, 0));
        }
        while i < checks.len()
            invariant
                i <= checks@.len(),
                self.setting() == s,
                s == old(self).setting(),
                start == old(self).found(),
                rules == checks_of(checks@),
                v == optional_ref::<R>(value),
                self.found() =~= start + so_far,
                s.fast ==> so_far.len() == 0,
                s.checks_from(rules, v, 0) == cat(so_far, s.checks_from(rules, v, i as int)),
            decreases checks@.len() - i,
        {
            let check = &checks[i];
            proof {
                assert(rules[i as int] == check@);
                lemma_step(
                    s.fast,
                    so_far,
                    s.check(check@, v),
                    s.checks_from(rules, v, i + 1),
                );
            }
            match check.test.fails::<R, F>(value, self.formats(), self.now()) {
                Ok(true) => {
                    self.report(
                        violation(
                            check.id.as_str(),
                            check.message.as_str(),
                            None,
                            copy_path(&check.rule_path),
                        ),
                    );
                    proof {
                        so_far = so_far + s.check(check@, v)->Ok_0;
                    }
                    if self.fails_fast() {
                        return Ok(());
                    }
                },
                Ok(false) => {
                    proof {
                        assert(so_far + s.check(check@, v)->Ok_0 =~= so_far);
                    }
                },
                Err(error) => return Err(error),
            }
            i += 1;
        }
        Ok(())
    }

    /// Runs the standard rules against a value. A wrapper message is checked
    /// by its `value` field, as CEL unboxes it.
    pub(crate) fn checks(
        &mut self,
        checks: &Vec<Check>,
        wrapper: &Option<Field>,
        value: Option<&Val<R>>,
    ) -> (r: Result<(), Error<R::Error>>)
        ensures
            final(self).setting() == old(self).setting(),
            added(
                old(self).found(),
                r,
                final(self).found(),
                old(self).setting().checks(
                    checks_of(checks@),
                    field_view(*wrapper),
                    optional_ref::<R>(value),
                ),
            ),
    {
        proof {
            shapes::<R>();
        }
        match wrapper {
            Some(wrapper) => match value {
                Some(Val::Message(message)) => match get_field::<R>(message, wrapper) {
                    Ok(Some(unboxed)) => self.run_checks(checks, Some(&unboxed)),
                    Ok(None) => self.run_checks(checks, None),
                    Err(error) => Err(error),
                },
                _ => self.run_checks(checks, None),
            },
            None => self.run_checks(checks, value),
        }
    }

    /// Runs each expression against `this`, recording its failures as
    /// violations. One passes by producing `true` or an empty string;
    /// `false` fails with the rule's own message, and a non-empty string
    /// fails with that string as the message.
    pub(crate) fn run(
        &mut self,
        programs: &ProgramSet<C::Program>,
        this: This<'_, C::Frame>,
    ) -> (r: Result<(), Error<R::Error>>)
        ensures
            final(self).setting() == old(self).setting(),
            added(
                old(self).found(),
                r,
                final(self).found(),
                old(self).setting().programs_from(programs@, this@, 0),
            ),
    {
        let ghost s = self.setting();
        let ghost start = self.found();
        let ghost mut so_far = Seq::<ViolationV>::empty();
        let mut index: usize = 0;
        proof {
            lemma_begin(s.programs_from::<R::Error>(programs@, this@, 0));
        }
        while index < programs.rules.len()
            invariant
                index <= programs.rules@.len(),
                self.setting() == s,
                s == old(self).setting(),
                start == old(self).found(),
                self.found() =~= start + so_far,
                s.fast ==> so_far.len() == 0,
                s.programs_from::<R::Error>(programs@, this@, 0) == cat(
                    so_far,
                    s.programs_from::<R::Error>(programs@, this@, index as int),
                ),
            decreases programs.rules@.len() - index,
        {
            let meta = &programs.rules[index];
            let ghost part: Out<R::Error> = s.program(programs@, this@, index as int);
            proof {
                assert(programs@.rules[index as int] == meta@);
                lemma_step(
                    s.fast,
                    so_far,
                    part,
                    s.programs_from::<R::Error>(programs@, this@, index + 1),
                );
            }
            let message: Option<String> = match self.engine().eval(&programs.program, index, &this) {
                Ok(Value::Bool(true)) => None,
                Ok(Value::Bool(false)) => if is_empty_text(meta.message.as_str()) {
                    Some(concat3("\"", meta.expression.as_str(), "\" returned false"))
                } else {
                    Some(meta.message.clone())
                },
                Ok(Value::String(text)) => if is_empty_text(text.as_str()) {
                    None
                } else {
                    Some(text)
                },
                Ok(Value::Other) => {
                    return Err(Error::Evaluation("invalid result type".to_owned()));
                },
                Err(error) => return Err(Error::from_cel(error)),
            };
            match message {
                Some(message) => {
                    self.report(
                        violation(
                            meta.id.as_str(),
                            message.as_str(),
                            None,
                            copy_path(&meta.rule_path),
                        ),
                    );
                    proof {
                        so_far = so_far + part->Ok_0;
                    }
                    if self.fails_fast() {
                        return Ok(());
                    }
                },
                None => {
                    proof {
                        assert(so_far + part->Ok_0 =~= so_far);
                    }
                },
            }
            index += 1;
        }
        Ok(())
    }

    /// Checks a `(buf.validate.message).oneof` rule.
    pub(crate) fn message_oneof(&mut self, message: &R::Message, oneof: &MessageOneof) -> (r: Result<
        (),
        Error<R::Error>,
    >)
        ensures
            final(self).setting() == old(self).setting(),
            added(
                old(self).found(),
                r,
                final(self).found(),
                old(self).setting().message_oneof(message_of::<R>(*message), oneof@),
            ),
    {
        let ghost m = message_of::<R>(*message);
        let ghost fields = oneof@.fields;
        let mut set: usize = 0;
        let mut i: usize = 0;
        while i < oneof.fields.len()
            invariant
                i <= oneof.fields@.len(),
                set <= i,
                m == message_of::<R>(*message),
                fields == fields_of(oneof.fields@),
                fields == oneof@.fields,
                match Setting::<F, C>::set_from(m, fields, i as int) {
                    Ok(more) => Setting::<F, C>::set_from(m, fields, 0) == Ok::<
                        nat,
                        ErrorV<R::Error>,
                    >((set + more) as nat),
                    Err(e) => Setting::<F, C>::set_from(m, fields, 0) == Err::<
                        nat,
                        ErrorV<R::Error>,
                    >(e),
                },
            decreases oneof.fields@.len() - i,
        {
            assert(fields[i as int] == oneof.fields@[i as int]@);
            match has::<R>(message, &oneof.fields[i]) {
                Ok(true) => {
                    set += 1;
                },
                Ok(false) => {},
                Err(error) => return Err(error),
            }
            i += 1;
        }
        let none: Vec<FieldPathElement> = Vec::new();
        assert(path_of(none@) =~= Seq::empty());
        if set > 1 {
            let text = concat3("only one of ", oneof.names.as_str(), " can be set");
            self.report(violation("message.oneof", text.as_str(), None, none));
        } else if oneof.required && set == 0 {
            let text = concat3("one of ", oneof.names.as_str(), " must be set");
            self.report(violation("message.oneof", text.as_str(), None, none));
        } else {
            assert(self.found() =~= old(self).found() + Seq::<ViolationV>::empty());
        }
        Ok(())
    }

    /// Checks a `(buf.validate.oneof).required` rule.
    pub(crate) fn oneof(&mut self, message: &R::Message, oneof: &OneofRequired) -> (r: Result<
        (),
        Error<R::Error>,
    >)
        ensures
            final(self).setting() == old(self).setting(),
            added(
                old(self).found(),
                r,
                final(self).found(),
                old(self).setting().oneof(message_of::<R>(*message), oneof@),
            ),
    {
        let ghost m = message_of::<R>(*message);
        let ghost members = oneof@.members;
        let mut i: usize = 0;
        assert(self.found() =~= old(self).found() + Seq::<ViolationV>::empty());
        while i < oneof.members.len()
            invariant
                i <= oneof.members@.len(),
                m == message_of::<R>(*message),
                members == fields_of(oneof.members@),
                members == oneof@.members,
                *self == *old(self),
                self.found() == old(self).found() + Seq::<ViolationV>::empty(),
                Setting::<F, C>::any_set_from(m, members, i as int) == Setting::<
                    F,
                    C,
                >::any_set_from(m, members, 0),
            decreases oneof.members@.len() - i,
        {
            assert(members[i as int] == oneof.members@[i as int]@);
            match has::<R>(message, &oneof.members[i]) {
                Ok(true) => return Ok(()),
                Ok(false) => {},
                Err(error) => return Err(error),
            }
            i += 1;
        }
        let none: Vec<FieldPathElement> = Vec::new();
        assert(path_of(none@) =~= Seq::empty());
        self.report(
            violation(
                "required",
                "exactly one field is required in oneof",
                Some(&oneof.element),
                none,
            ),
        );
        Ok(())
    }

    /// Reports a field that is not set, and has to be.
    pub(crate) fn required(&mut self, field: &FieldEvaluator<C::Program>)
        ensures
            final(self).setting() == old(self).setting(),
            added(
                old(self).found(),
                Ok::<(), Error<R::Error>>(()),
                final(self).found(),
                old(self).setting().required(field@),
            ),
    {
        let mut rule: Vec<FieldPathElement> = Vec::new();
        rule.push(self.schema().required.copy());
        assert(path_of(rule@) =~= seq![self.setting().schema.required]);
        self.report(violation("required", "value is required", Some(&field.element), rule));
    }

    /// Checks `any.in` and `any.not_in`.
    pub(crate) fn any(
        &mut self,
        field: Option<&FieldPathElement>,
        any: &R::Message,
        check: &AnyCheck,
    ) -> (r: Result<(), Error<R::Error>>)
        requires
            !old(self).stopping(),
        ensures
            final(self).setting() == old(self).setting(),
            added(
                old(self).found(),
                r,
                final(self).found(),
                old(self).setting().any(
                    match field {
                        Some(element) => Some(element@),
                        None => None,
                    },
                    message_of::<R>(*any),
                    check@,
                ),
            ),
    {
        proof {
            shapes::<R>();
            reveal_strlit("");
            assert(""@ =~= Seq::<char>::empty());
        }
        let ghost s = self.setting();
        let ghost start = self.found();
        let url = match get_field::<R>(any, &any_url()) {
            Ok(Some(Val::String(url))) => url,
            Ok(_) => "".to_owned(),
            Err(error) => return Err(error),
        };
        let outside = check.in_list.len() > 0 && !has_text(&check.in_list, url.as_str());
        let inside = has_text(&check.not_in, url.as_str());
        assert(texts(check.in_list@).len() == check.in_list@.len());
        assert(start =~= start + Seq::<ViolationV>::empty());
        if outside {
            self.report(
                violation(
                    "any.in",
                    "type URL must be in the allow list",
                    field,
                    pair(&self.schema().any_in, &self.schema().any),
                ),
            );
            if self.should_return() {
                return Ok(());
            }
        }
        if inside {
            self.report(
                violation(
                    "any.not_in",
                    "type URL must not be in the block list",
                    field,
                    pair(&self.schema().any_not_in, &self.schema().any),
                ),
            );
        }
        proof {
            let f = match field {
                Some(element) => Some(element@),
                None => None,
            };
            let more = s.any(f, message_of::<R>(*any), check@)->Ok_0;
            assert(self.found() =~= start + more);
        }
        Ok(())
    }
}

} // verus!
