//! The rules of a message, and of the messages in it.

use super::values::{message_type, with_subscript};
use super::walker::{added, lemma_begin, lemma_rest, lemma_step, LazyFrame, Walker};
use crate::cel::{Engine, This};
use crate::error::{Error, ErrorV};
use crate::protobuf::reads::{get_field, has_field, item_of, list_item, list_len, map_entry};
use crate::protobuf::{
    entries_of, lemma_get_smaller, lemma_item_smaller, lemma_value_smaller, list_of, message_of,
    shapes, Entries, List, Message, Runtime, Val,
};
use crate::rules::outcome::{cat, chain, nothing, on_field, subscripted, Out};
use crate::rules::standard::wellknown::Formats;
use crate::rules::{MessageEvaluator, Nested, Shape};
use crate::text::concat;
use crate::validate::{
    violations_of, FieldPathElement, FieldPathElementV, Subscript, SubscriptV, Violation,
    ViolationV,
};
use vstd::prelude::*;

verus! {

/// A path element, with a subscript if there is one.
pub open spec fn element_at(
    element: FieldPathElementV,
    subscript: Option<SubscriptV>,
) -> FieldPathElementV {
    match subscript {
        Some(subscript) => subscripted(element, subscript),
        None => element,
    }
}

/// What an optional subscript holds.
pub open spec fn subscript_of(subscript: Option<Subscript>) -> Option<SubscriptV> {
    match subscript {
        Some(subscript) => Some(subscript@),
        None => None,
    }
}

/// What validating reports.
pub open spec fn reports<E>(r: Result<Vec<Violation>, Error<E>>) -> Out<E> {
    match r {
        Ok(violations) => Ok(violations_of(violations@)),
        Err(error) => Err(error@),
    }
}

impl<'a, R, F, C> Walker<'a, R, F, C> where
    R: Runtime,
    F: Formats,
    C: Engine,
    R::Message: Message<R>,
    R::List: List<R>,
    R::Entries: Entries<R>,
 {
    /// Validates `message`, of type `full_name`, returning the violations.
    /// The message is serialized, for CEL, only if a rule needs it.
    pub fn validate(
        self,
        message: &R::Message,
        full_name: &str,
        evaluator: &MessageEvaluator<C::Program>,
    ) -> (r: Result<Vec<Violation>, Error<R::Error>>)
        requires
            self.found().len() == 0,
        ensures
            reports(r) == self.setting().validated(
                message_of::<R>(*message),
                full_name@,
                evaluator@,
            ),
    {
        let mut walker = self;
        let mut frame: LazyFrame<'_, C> = LazyFrame::new(full_name);
        match walker.message(message, &mut frame, evaluator) {
            Ok(()) => {
                proof {
                    lemma_begin(
                        self.setting().message(
                            message_of::<R>(*message),
                            full_name@,
                            evaluator@,
                        ),
                    );
                    assert(self.found() =~= Seq::empty());
                }
                Ok(walker.finish())
            },
            Err(error) => Err(error),
        }
    }

    /// The message-level CEL of a message.
    fn message_cel(
        &mut self,
        message: &R::Message,
        frame: &mut LazyFrame<'_, C>,
        evaluator: &MessageEvaluator<C::Program>,
    ) -> (r: Result<(), Error<R::Error>>)
        requires
            old(frame).of(old(self).setting().engine, message_of::<R>(*message)),
        ensures
            final(self).setting() == old(self).setting(),
            final(frame).name() == old(frame).name(),
            final(frame).of(old(self).setting().engine, message_of::<R>(*message)),
            added(
                old(self).found(),
                r,
                final(self).found(),
                old(self).setting().message_cel(
                    message_of::<R>(*message),
                    old(frame).name(),
                    evaluator@.cel,
                ),
            ),
    {
        match &evaluator.cel {
            Some(programs) => match frame.parse::<R>(self.engine(), message) {
                Ok(()) => self.run(programs, This::Message(frame.get())),
                Err(error) => Err(error),
            },
            None => {
                assert(self.found() =~= self.found() + Seq::<ViolationV>::empty());
                Ok(())
            },
        }
    }

    /// The message oneofs of a message.
    fn message_oneofs(
        &mut self,
        message: &R::Message,
        evaluator: &MessageEvaluator<C::Program>,
    ) -> (r: Result<(), Error<R::Error>>)
        requires
            !old(self).stopping(),
        ensures
            final(self).setting() == old(self).setting(),
            added(
                old(self).found(),
                r,
                final(self).found(),
                old(self).setting().message_oneofs_from(
                    message_of::<R>(*message),
                    evaluator@.message_oneofs,
                    0,
                ),
            ),
    {
        let ghost s = self.setting();
        let ghost start = self.found();
        let ghost m = message_of::<R>(*message);
        let ghost oneofs = evaluator@.message_oneofs;
        let ghost mut so_far = Seq::<ViolationV>::empty();
        let mut i: usize = 0;
        proof {
            lemma_begin(s.message_oneofs_from(m, oneofs, 0));
        }
        while i < evaluator.message_oneofs.len()
            invariant
                i <= evaluator.message_oneofs@.len(),
                m == message_of::<R>(*message),
                oneofs == evaluator@.message_oneofs,
                self.setting() == s,
                s == old(self).setting(),
                start == old(self).found(),
                !old(self).stopping(),
                self.found() =~= start + so_far,
                s.fast ==> so_far.len() == 0,
                s.message_oneofs_from(m, oneofs, 0) == cat(
                    so_far,
                    s.message_oneofs_from(m, oneofs, i as int),
                ),
            decreases evaluator.message_oneofs@.len() - i,
        {
            let ghost part = s.message_oneof(m, oneofs[i as int]);
            proof {
                lemma_step(s.fast, so_far, part, s.message_oneofs_from(m, oneofs, i + 1));
            }
            match self.message_oneof(message, &evaluator.message_oneofs[i]) {
                Ok(()) => {},
                Err(error) => return Err(error),
            }
            proof {
                assert(self.found() =~= start + (so_far + part->Ok_0));
                so_far = so_far + part->Ok_0;
            }
            if self.should_return() {
                return Ok(());
            }
            i += 1;
        }
        Ok(())
    }

    /// The fields of a message.
    fn fields(
        &mut self,
        message: &R::Message,
        frame: &mut LazyFrame<'_, C>,
        evaluator: &MessageEvaluator<C::Program>,
    ) -> (r: Result<(), Error<R::Error>>)
        requires
            !old(self).stopping(),
            old(frame).of(old(self).setting().engine, message_of::<R>(*message)),
        ensures
            final(self).setting() == old(self).setting(),
            final(frame).name() == old(frame).name(),
            final(frame).of(old(self).setting().engine, message_of::<R>(*message)),
            added(
                old(self).found(),
                r,
                final(self).found(),
                old(self).setting().fields_from(
                    message_of::<R>(*message),
                    old(frame).name(),
                    evaluator@.fields,
                    0,
                ),
            ),
    {
        let ghost s = self.setting();
        let ghost start = self.found();
        let ghost m = message_of::<R>(*message);
        let ghost name = frame.name();
        let ghost fields = evaluator@.fields;
        let ghost mut so_far = Seq::<ViolationV>::empty();
        let mut i: usize = 0;
        proof {
            lemma_begin(s.fields_from(m, name, fields, 0));
        }
        while i < evaluator.fields.len()
            invariant
                i <= evaluator.fields@.len(),
                m == message_of::<R>(*message),
                fields == evaluator@.fields,
                self.setting() == s,
                s == old(self).setting(),
                start == old(self).found(),
                !old(self).stopping(),
                name == old(frame).name(),
                frame.name() == name,
                frame.of(s.engine, m),
                self.found() =~= start + so_far,
                s.fast ==> so_far.len() == 0,
                s.fields_from(m, name, fields, 0) == cat(
                    so_far,
                    s.fields_from(m, name, fields, i as int),
                ),
            decreases evaluator.fields@.len() - i,
        {
            let ghost part = s.field(m, name, fields[i as int]);
            proof {
                lemma_step(s.fast, so_far, part, s.fields_from(m, name, fields, i + 1));
            }
            match self.field(message, frame, &evaluator.fields[i]) {
                Ok(()) => {},
                Err(error) => return Err(error),
            }
            proof {
                assert(self.found() =~= start + (so_far + part->Ok_0));
                so_far = so_far + part->Ok_0;
            }
            if self.should_return() {
                return Ok(());
            }
            i += 1;
        }
        Ok(())
    }

    /// The required oneofs of a message.
    fn oneofs(&mut self, message: &R::Message, evaluator: &MessageEvaluator<C::Program>) -> (r:
        Result<(), Error<R::Error>>)
        requires
            !old(self).stopping(),
        ensures
            final(self).setting() == old(self).setting(),
            added(
                old(self).found(),
                r,
                final(self).found(),
                old(self).setting().oneofs_from(message_of::<R>(*message), evaluator@.oneofs, 0),
            ),
    {
        let ghost s = self.setting();
        let ghost start = self.found();
        let ghost m = message_of::<R>(*message);
        let ghost oneofs = evaluator@.oneofs;
        let ghost mut so_far = Seq::<ViolationV>::empty();
        let mut i: usize = 0;
        proof {
            lemma_begin(s.oneofs_from(m, oneofs, 0));
        }
        while i < evaluator.oneofs.len()
            invariant
                i <= evaluator.oneofs@.len(),
                m == message_of::<R>(*message),
                oneofs == evaluator@.oneofs,
                self.setting() == s,
                s == old(self).setting(),
                start == old(self).found(),
                !old(self).stopping(),
                self.found() =~= start + so_far,
                s.fast ==> so_far.len() == 0,
                s.oneofs_from(m, oneofs, 0) == cat(so_far, s.oneofs_from(m, oneofs, i as int)),
            decreases evaluator.oneofs@.len() - i,
        {
            let ghost part = s.oneof(m, oneofs[i as int]);
            proof {
                lemma_step(s.fast, so_far, part, s.oneofs_from(m, oneofs, i + 1));
            }
            match self.oneof(message, &evaluator.oneofs[i]) {
                Ok(()) => {},
                Err(error) => return Err(error),
            }
            proof {
                assert(self.found() =~= start + (so_far + part->Ok_0));
                so_far = so_far + part->Ok_0;
            }
            if self.should_return() {
                return Ok(());
            }
            i += 1;
        }
        Ok(())
    }

    /// The rules of a message: its CEL, its oneofs, its fields, its oneof
    /// declarations, then the messages in it.
    fn message(
        &mut self,
        message: &R::Message,
        frame: &mut LazyFrame<'_, C>,
        evaluator: &MessageEvaluator<C::Program>,
    ) -> (r: Result<(), Error<R::Error>>)
        requires
            !old(self).stopping(),
            old(frame).of(old(self).setting().engine, message_of::<R>(*message)),
        ensures
            final(self).setting() == old(self).setting(),
            added(
                old(self).found(),
                r,
                final(self).found(),
                old(self).setting().message(
                    message_of::<R>(*message),
                    old(frame).name(),
                    evaluator@,
                ),
            ),
        decreases message_of::<R>(*message), 2nat,
    {
        let ghost s = self.setting();
        let ghost start = self.found();
        let ghost m = message_of::<R>(*message);
        let ghost name = frame.name();
        let ghost parts: (Out<R::Error>, Out<R::Error>, Out<R::Error>, Out<R::Error>, Out<
            R::Error,
        >) = (
            s.message_cel(m, name, evaluator@.cel),
            s.message_oneofs_from(m, evaluator@.message_oneofs, 0),
            s.fields_from(m, name, evaluator@.fields, 0),
            s.oneofs_from(m, evaluator@.oneofs, 0),
            s.nested_from(m, evaluator@.nested, 0),
        );
        let ghost after3: Out<R::Error> = chain(s.fast, parts.3, parts.4);
        let ghost after2: Out<R::Error> = chain(s.fast, parts.2, after3);
        let ghost after1: Out<R::Error> = chain(s.fast, parts.1, after2);
        let ghost mut so_far = Seq::<ViolationV>::empty();
        proof {
            lemma_begin(s.message(m, name, evaluator@));
            lemma_step(s.fast, so_far, parts.0, after1);
        }
        match self.message_cel(message, frame, evaluator) {
            Ok(()) => {},
            Err(error) => return Err(error),
        }
        proof {
            assert(self.found() =~= start + (so_far + parts.0->Ok_0));
            so_far = so_far + parts.0->Ok_0;
        }
        if self.should_return() {
            return Ok(());
        }
        proof {
            lemma_step(s.fast, so_far, parts.1, after2);
        }
        match self.message_oneofs(message, evaluator) {
            Ok(()) => {},
            Err(error) => return Err(error),
        }
        proof {
            assert(self.found() =~= start + (so_far + parts.1->Ok_0));
            so_far = so_far + parts.1->Ok_0;
        }
        if self.should_return() {
            return Ok(());
        }
        proof {
            lemma_step(s.fast, so_far, parts.2, after3);
        }
        match self.fields(message, frame, evaluator) {
            Ok(()) => {},
            Err(error) => return Err(error),
        }
        proof {
            assert(self.found() =~= start + (so_far + parts.2->Ok_0));
            so_far = so_far + parts.2->Ok_0;
        }
        if self.should_return() {
            return Ok(());
        }
        proof {
            lemma_step(s.fast, so_far, parts.3, parts.4);
        }
        match self.oneofs(message, evaluator) {
            Ok(()) => {},
            Err(error) => return Err(error),
        }
        proof {
            assert(self.found() =~= start + (so_far + parts.3->Ok_0));
            so_far = so_far + parts.3->Ok_0;
        }
        if self.should_return() {
            return Ok(());
        }
        let done = self.nested(message, evaluator);
        proof {
            if done is Ok {
                assert(self.found() =~= start + (so_far + parts.4->Ok_0));
            }
        }
        done
    }

    /// Validates every set message-typed field, in field-number order.
    fn nested(&mut self, message: &R::Message, evaluator: &MessageEvaluator<C::Program>) -> (r:
        Result<(), Error<R::Error>>)
        requires
            !old(self).stopping(),
        ensures
            final(self).setting() == old(self).setting(),
            added(
                old(self).found(),
                r,
                final(self).found(),
                old(self).setting().nested_from(message_of::<R>(*message), evaluator@.nested, 0),
            ),
        decreases message_of::<R>(*message), 1nat,
    {
        let ghost s = self.setting();
        let ghost start = self.found();
        let ghost m = message_of::<R>(*message);
        let ghost fields = evaluator@.nested;
        let ghost mut so_far = Seq::<ViolationV>::empty();
        let mut i: usize = 0;
        proof {
            lemma_begin(s.nested_from(m, fields, 0));
        }
        while i < evaluator.nested.len()
            invariant
                i <= evaluator.nested@.len(),
                m == message_of::<R>(*message),
                fields == evaluator@.nested,
                self.setting() == s,
                s == old(self).setting(),
                start == old(self).found(),
                !old(self).stopping(),
                self.found() =~= start + so_far,
                s.fast ==> so_far.len() == 0,
                s.nested_from(m, fields, 0) == cat(so_far, s.nested_from(m, fields, i as int)),
            decreases evaluator.nested@.len() - i,
        {
            let ghost part = s.nested_field(m, fields[i as int]);
            proof {
                lemma_step(s.fast, so_far, part, s.nested_from(m, fields, i + 1));
            }
            match self.nested_field(message, &evaluator.nested[i]) {
                Ok(()) => {},
                Err(error) => return Err(error),
            }
            proof {
                assert(self.found() =~= start + (so_far + part->Ok_0));
                so_far = so_far + part->Ok_0;
            }
            if self.should_return() {
                return Ok(());
            }
            i += 1;
        }
        Ok(())
    }

    /// Validates the messages of one message-typed field.
    fn nested_field(&mut self, message: &R::Message, nested: &Nested) -> (r: Result<
        (),
        Error<R::Error>,
    >)
        requires
            !old(self).stopping(),
        ensures
            final(self).setting() == old(self).setting(),
            added(
                old(self).found(),
                r,
                final(self).found(),
                old(self).setting().nested_field(message_of::<R>(*message), nested@),
            ),
        decreases message_of::<R>(*message), 0nat,
    {
        proof {
            shapes::<R>();
            assert(self.found() =~= self.found() + Seq::<ViolationV>::empty());
            lemma_get_smaller(message_of::<R>(*message), nested.field@);
        }
        match nested.shape {
            Shape::Singular => match has_field::<R>(message, &nested.field) {
                Ok(true) => {},
                Ok(false) => return Ok(()),
                Err(error) => return Err(error),
            },
            _ => {},
        }
        let value = match get_field::<R>(message, &nested.field) {
            Ok(Some(value)) => value,
            Ok(None) => return Ok(()),
            Err(error) => return Err(error),
        };
        let evaluator = match self.evaluator(nested.message) {
            Some(evaluator) => evaluator,
            None => return Err(
                Error::Unexpected(
                    concat(
                        "rules not loaded for message: ",
                        self.type_at(nested.message).as_str(),
                    ),
                ),
            ),
        };
        let full_name = match message_type(&nested.field) {
            Ok(full_name) => full_name,
            Err(error) => return Err(error),
        };
        match (nested.shape, &value) {
            (Shape::Singular, Val::Message(sub)) => self.nested_message(
                sub,
                full_name,
                evaluator,
                &nested.element,
                None,
            ),
            (Shape::List, Val::List(list)) => self.nested_items(
                list,
                full_name,
                evaluator,
                &nested.element,
            ),
            (Shape::Mapping { .. }, Val::Mapping(map)) => self.nested_entries(
                map,
                full_name,
                evaluator,
                &nested.element,
            ),
            _ => Ok(()),
        }
    }

    /// Validates the messages of a list.
    fn nested_items(
        &mut self,
        list: &R::List,
        full_name: &str,
        evaluator: &MessageEvaluator<C::Program>,
        element: &FieldPathElement,
    ) -> (r: Result<(), Error<R::Error>>)
        requires
            !old(self).stopping(),
        ensures
            final(self).setting() == old(self).setting(),
            added(
                old(self).found(),
                r,
                final(self).found(),
                match crate::protobuf::reads::len_of(list_of::<R>(*list)) {
                    Err(e) => Err(e),
                    Ok(n) => old(self).setting().nested_items_from(
                        list_of::<R>(*list),
                        full_name@,
                        evaluator@,
                        element@,
                        0,
                        n as int,
                    ),
                },
            ),
        decreases list_of::<R>(*list), 0nat,
    {
        proof {
            shapes::<R>();
        }
        let ghost s = self.setting();
        let ghost start = self.found();
        let ghost l = list_of::<R>(*list);
        let ghost mut so_far = Seq::<ViolationV>::empty();
        let size: usize = match list_len::<R>(list) {
            Ok(size) => size,
            Err(error) => return Err(error),
        };
        let ghost n = size as int;
        let mut index: usize = 0;
        proof {
            lemma_begin(s.nested_items_from(l, full_name@, evaluator@, element@, 0, n));
        }
        while index < size
            invariant
                index <= size,
                n == size,
                l == list_of::<R>(*list),
                l is List,
                crate::protobuf::reads::len_of(l) == Ok::<usize, ErrorV<R::Error>>(size),
                self.setting() == s,
                s == old(self).setting(),
                start == old(self).found(),
                !old(self).stopping(),
                self.found() =~= start + so_far,
                s.fast ==> so_far.len() == 0,
                s.nested_items_from(l, full_name@, evaluator@, element@, 0, n) == cat(
                    so_far,
                    s.nested_items_from(
                        l,
                        full_name@,
                        evaluator@,
                        element@,
                        index as int,
                        n,
                    ),
                ),
            decreases size - index,
        {
            let ghost part: Out<R::Error> = match item_of(l, index as int) {
                Err(e) => Err(e),
                Ok(None) => nothing(),
                Ok(Some(sub)) => if sub is Message {
                    match s.message(sub, full_name@, evaluator@) {
                        Err(e) => Err(e),
                        Ok(found) => Ok(
                            on_field(
                                found,
                                subscripted(element@, SubscriptV::Index(index as u64)),
                            ),
                        ),
                    }
                } else {
                    nothing()
                },
            };
            proof {
                shapes::<R>();
                lemma_item_smaller(l, index as int);
                lemma_step(
                    s.fast,
                    so_far,
                    part,
                    s.nested_items_from(l, full_name@, evaluator@, element@, index + 1, n),
                );
            }
            match list_item::<R>(list, index) {
                Ok(Some(Val::Message(sub))) => {
                    match self.nested_message(
                        &sub,
                        full_name,
                        evaluator,
                        element,
                        Some(Subscript::Index(index as u64)),
                    ) {
                        Ok(()) => {},
                        Err(error) => return Err(error),
                    }
                    proof {
                        assert(self.found() =~= start + (so_far + part->Ok_0));
                        so_far = so_far + part->Ok_0;
                    }
                    if self.should_return() {
                        return Ok(());
                    }
                },
                Ok(_) => {
                    assert(so_far + part->Ok_0 =~= so_far);
                },
                Err(error) => return Err(error),
            }
            index += 1;
        }
        Ok(())
    }

    /// Validates the messages of a map.
    fn nested_entries(
        &mut self,
        map: &R::Entries,
        full_name: &str,
        evaluator: &MessageEvaluator<C::Program>,
        element: &FieldPathElement,
    ) -> (r: Result<(), Error<R::Error>>)
        requires
            !old(self).stopping(),
        ensures
            final(self).setting() == old(self).setting(),
            added(
                old(self).found(),
                r,
                final(self).found(),
                old(self).setting().nested_entries_from(
                    entries_of::<R>(*map),
                    full_name@,
                    evaluator@,
                    element@,
                    0,
                ),
            ),
        decreases entries_of::<R>(*map), 0nat,
    {
        proof {
            shapes::<R>();
        }
        let ghost s = self.setting();
        let ghost start = self.found();
        let ghost p = entries_of::<R>(*map);
        let ghost mut so_far = Seq::<ViolationV>::empty();
        let mut index: usize = 0;
        proof {
            lemma_begin(s.nested_entries_from(p, full_name@, evaluator@, element@, 0));
        }
        while index < usize::MAX
            invariant
                p == entries_of::<R>(*map),
                p is Mapping,
                self.setting() == s,
                s == old(self).setting(),
                start == old(self).found(),
                !old(self).stopping(),
                self.found() =~= start + so_far,
                s.fast ==> so_far.len() == 0,
                s.nested_entries_from(p, full_name@, evaluator@, element@, 0) == cat(
                    so_far,
                    s.nested_entries_from(p, full_name@, evaluator@, element@, index as int),
                ),
            decreases usize::MAX - index,
        {
            let ghost part = s.nested_entry(p, full_name@, evaluator@, element@, index as int);
            proof {
                shapes::<R>();
                lemma_value_smaller(p, index as int);
                lemma_step(
                    s.fast,
                    so_far,
                    part,
                    s.nested_entries_from(p, full_name@, evaluator@, element@, index + 1),
                );
            }
            match map_entry::<R>(map, index) {
                Ok(Some((key, Val::Message(sub)))) => {
                    match self.nested_message(
                        &sub,
                        full_name,
                        evaluator,
                        element,
                        Some(key.subscript()),
                    ) {
                        Ok(()) => {},
                        Err(error) => return Err(error),
                    }
                    proof {
                        assert(self.found() =~= start + (so_far + part->Ok_0));
                        so_far = so_far + part->Ok_0;
                    }
                    if self.should_return() {
                        return Ok(());
                    }
                },
                Ok(Some(_)) => {
                    assert(so_far + part->Ok_0 =~= so_far);
                },
                Ok(None) => {
                    assert(so_far + Seq::<ViolationV>::empty() =~= so_far);
                    return Ok(());
                },
                Err(error) => return Err(error),
            }
            index += 1;
        }
        assert(so_far + Seq::<ViolationV>::empty() =~= so_far);
        Ok(())
    }

    /// Validates a message the walk descends into, appending the path
    /// element it was reached by -- built only then -- to the paths of the
    /// violations it adds.
    fn nested_message(
        &mut self,
        sub: &R::Message,
        full_name: &str,
        evaluator: &MessageEvaluator<C::Program>,
        element: &FieldPathElement,
        subscript: Option<Subscript>,
    ) -> (r: Result<(), Error<R::Error>>)
        requires
            !old(self).stopping(),
        ensures
            final(self).setting() == old(self).setting(),
            added(
                old(self).found(),
                r,
                final(self).found(),
                match old(self).setting().message(message_of::<R>(*sub), full_name@, evaluator@) {
                    Err(e) => Err(e),
                    Ok(found) => Ok(
                        on_field(found, element_at(element@, subscript_of(subscript))),
                    ),
                },
            ),
        decreases message_of::<R>(*sub), 3nat,
    {
        let ghost start = self.found();
        let ghost place = element_at(element@, subscript_of(subscript));
        let mut child: LazyFrame<'_, C> = LazyFrame::new(full_name);
        let from: usize = self.count();
        match self.message(sub, &mut child, evaluator) {
            Ok(()) => {},
            Err(error) => return Err(error),
        }
        let ghost all = self.found();
        proof {
            lemma_rest(start, all);
        }
        if self.count() > from {
            let place = match subscript {
                Some(subscript) => with_subscript(element.copy(), subscript),
                None => element.copy(),
            };
            self.append_field(from, &place);
        }
        proof {
            let more = all.skip(start.len() as int);
            assert(self.found() =~= start + on_field(more, place));
        }
        Ok(())
    }
}

} // verus!
