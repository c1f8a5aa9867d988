//! The rules of the elements of lists and the entries of maps.

use super::values::{is_empty_item, message_type, scalar_of, with_subscript};
use super::walker::{
    added, lemma_begin, lemma_regroup, lemma_rest, lemma_step, step, LazyFrame, Walker,
};
use crate::rules::outcome::{
    cat, chain, key_subscript, on_field, on_key, on_rule, subscripted,
};
use crate::rules::standard::wellknown::Formats;
use crate::rules::{FieldEvaluator, ItemEvaluator, ValueRules};
use crate::cel::{Engine, This};
use crate::error::Error;
use crate::protobuf::reads::{list_item, list_len, map_entry};
use crate::protobuf::{
    entries_of, list_of, shapes, val, Entries, Field, Key, List, Message, Runtime, Val,
};
use crate::text::concat;
use crate::validate::{Subscript, SubscriptV, ViolationV};
use vstd::prelude::*;

verus! {

impl<'a, R, F, C> Walker<'a, R, F, C> where
    R: Runtime,
    F: Formats,
    C: Engine,
    R::Message: Message<R>,
    R::List: List<R>,
    R::Entries: Entries<R>,
 {
    /// Binds `this` to an element or map value, and runs its CEL.
    pub(crate) fn item_cel(
        &mut self,
        rules: &ValueRules<C::Program>,
        field: &Field,
        value: &Val<R>,
    ) -> (r: Result<(), Error<R::Error>>)
        ensures
            final(self).setting() == old(self).setting(),
            added(
                old(self).found(),
                r,
                final(self).found(),
                old(self).setting().item_cel(rules@, field@, val::<R>(*value)),
            ),
    {
        proof {
            shapes::<R>();
            assert(self.found() =~= self.found() + Seq::<ViolationV>::empty());
        }
        match &rules.programs {
            None => Ok(()),
            Some(programs) => match (rules.scalar, value) {
                (Some(kind), _) => self.run(
                    programs,
                    This::Scalar(scalar_of::<R>(Some(value), kind)),
                ),
                (None, Val::Message(sub)) => {
                    let name = match message_type(field) {
                        Ok(name) => name,
                        Err(error) => return Err(error),
                    };
                    let mut child: LazyFrame<'_, C> = LazyFrame::new(name);
                    match child.parse::<R>(self.engine(), sub) {
                        Ok(()) => {},
                        Err(error) => return Err(error),
                    }
                    self.run(programs, This::Message(child.get()))
                },
                (None, _) => Err(
                    Error::Unexpected(concat(field.name(), " holds no message to bind this to")),
                ),
            },
        }
    }

    /// The rules of one element or map value: the checks, then the custom
    /// CEL with `this` bound to the value -- a scalar directly, a message
    /// through a frame of its own.
    pub(crate) fn item(
        &mut self,
        rules: &ValueRules<C::Program>,
        field: &Field,
        value: &Val<R>,
    ) -> (r: Result<(), Error<R::Error>>)
        requires
            !old(self).stopping(),
        ensures
            final(self).setting() == old(self).setting(),
            added(
                old(self).found(),
                r,
                final(self).found(),
                old(self).setting().item(rules@, field@, val::<R>(*value)),
            ),
    {
        let ghost start = self.found();
        match self.checks(&rules.checks, &rules.wrapper, Some(value)) {
            Ok(()) => {},
            Err(error) => return Err(error),
        }
        let ghost checked = self.found();
        if !self.should_return() {
            let done = self.item_cel(rules, field, value);
            proof {
                if done is Ok {
                    lemma_rest(start, checked);
                    lemma_rest(checked, self.found());
                    lemma_regroup(start, checked, self.found());
                }
            }
            return done;
        }
        Ok(())
    }

    /// The rules of the elements of a repeated field.
    pub(crate) fn items(
        &mut self,
        field: &FieldEvaluator<C::Program>,
        items: &ItemEvaluator<C::Program>,
        list: &R::List,
    ) -> (r: Result<(), Error<R::Error>>)
        requires
            !old(self).stopping(),
        ensures
            final(self).setting() == old(self).setting(),
            added(
                old(self).found(),
                r,
                final(self).found(),
                old(self).setting().items(field@, items@, list_of::<R>(*list)),
            ),
    {
        proof {
            shapes::<R>();
        }
        let ghost s = self.setting();
        let ghost start = self.found();
        let ghost l = list_of::<R>(*list);
        let ghost mut so_far = Seq::<ViolationV>::empty();
        let size: usize = match list_len::<R>(list) {
            Ok(size) => size,
            Err(error) => return Err(error),
        };
        let mut index: usize = 0;
        proof {
            lemma_begin(s.items_from(field@, items@, l, 0, size as int));
        }
        while index < size
            invariant
                index <= size,
                l == list_of::<R>(*list),
                self.setting() == s,
                s == old(self).setting(),
                start == old(self).found(),
                !old(self).stopping(),
                self.found() =~= start + so_far,
                s.fast ==> so_far.len() == 0,
                s.items(field@, items@, l) == s.items_from(field@, items@, l, 0, size as int),
                s.items_from(field@, items@, l, 0, size as int) == cat(
                    so_far,
                    s.items_from(field@, items@, l, index as int, size as int),
                ),
            decreases size - index,
        {
            let ghost part = s.list_item(field@, items@, l, index as int);
            proof {
                shapes::<R>();
                lemma_step(
                    s.fast,
                    so_far,
                    part,
                    s.items_from(field@, items@, l, index + 1, size as int),
                );
            }
            match list_item::<R>(list, index) {
                Ok(Some(item)) => {
                    if items.rules.ignore_empty && is_empty_item::<R>(&item) {
                        assert(so_far + part->Ok_0 =~= so_far);
                    } else {
                        match self.list_entry(field, items, &item, index) {
                            Ok(()) => {},
                            Err(error) => return Err(error),
                        }
                        proof {
                            assert(self.found() =~= start + (so_far + part->Ok_0));
                            so_far = so_far + part->Ok_0;
                        }
                        if self.should_return() {
                            return Ok(());
                        }
                    }
                },
                Ok(None) => {
                    assert(so_far + part->Ok_0 =~= so_far);
                },
                Err(error) => return Err(error),
            }
            index += 1;
        }
        Ok(())
    }

    /// The rules of one element of a repeated field, which is there and not
    /// left out.
    pub(crate) fn list_entry(
        &mut self,
        field: &FieldEvaluator<C::Program>,
        items: &ItemEvaluator<C::Program>,
        item: &Val<R>,
        index: usize,
    ) -> (r: Result<(), Error<R::Error>>)
        requires
            !old(self).stopping(),
        ensures
            final(self).setting() == old(self).setting(),
            added(
                old(self).found(),
                r,
                final(self).found(),
                match chain(
                    old(self).setting().fast,
                    old(self).setting().item(items@.rules, field@.field, val::<R>(*item)),
                    old(self).setting().any_of_value(
                        None,
                        Some(val::<R>(*item)),
                        items@.rules.any,
                    ),
                ) {
                    Err(e) => Err(e),
                    Ok(found) => Ok(
                        on_rule(
                            on_field(
                                found,
                                subscripted(
                                    field@.element,
                                    SubscriptV::Index(index as u64),
                                ),
                            ),
                            items@.rule_prefix,
                        ),
                    ),
                },
            ),
    {
        proof {
            shapes::<R>();
        }
        let ghost start = self.found();
        let from: usize = self.count();
        match self.item(&items.rules, &field.field, item) {
            Ok(()) => {},
            Err(error) => return Err(error),
        }
        let ghost checked = self.found();
        assert(checked =~= checked + Seq::<ViolationV>::empty());
        if !self.should_return() {
            match (&items.rules.any, item) {
                (Some(check), Val::Message(any)) => match self.any(None, any, check) {
                    Ok(()) => {},
                    Err(error) => return Err(error),
                },
                _ => {},
            }
        }
        let ghost all = self.found();
        proof {
            lemma_rest(start, checked);
            lemma_rest(checked, all);
            lemma_regroup(start, checked, all);
            lemma_rest(start, all);
        }
        if self.count() > from {
            let element = with_subscript(field.element.copy(), Subscript::Index(index as u64));
            self.append_field(from, &element);
            self.append_rule(from, &items.rule_prefix);
        }
        proof {
            let e = subscripted(
                field@.element,
                SubscriptV::Index(index as u64),
            );
            let more = all.skip(start.len() as int);
            assert(all.take(start.len() as int) =~= start);
            assert(self.found() =~= start + on_rule(on_field(more, e), items@.rule_prefix));
        }
        Ok(())
    }

    /// The rules of a map key.
    pub(crate) fn entry_key(&mut self, keys: &ItemEvaluator<C::Program>, key: &Key) -> (r: Result<
        (),
        Error<R::Error>,
    >)
        requires
            !old(self).stopping(),
        ensures
            final(self).setting() == old(self).setting(),
            added(
                old(self).found(),
                r,
                final(self).found(),
                old(self).setting().entry_key(Some(keys@), key@),
            ),
    {
        let ghost start = self.found();
        assert(start =~= start + Seq::<ViolationV>::empty());
        let from: usize = self.count();
        if keys.rules.ignore_empty && key.is_empty() {
            return Ok(());
        }
        match self.run_checks(&keys.rules.checks, Some(&key.to_val())) {
            Ok(()) => {},
            Err(error) => return Err(error),
        }
        let ghost checked = self.found();
        assert(checked =~= checked + Seq::<ViolationV>::empty());
        match &keys.rules.programs {
            Some(programs) => if !self.should_return() {
                match self.run(programs, This::Scalar(key.scalar())) {
                    Ok(()) => {},
                    Err(error) => return Err(error),
                }
            },
            None => {},
        }
        let ghost all = self.found();
        proof {
            lemma_rest(start, checked);
            lemma_rest(checked, all);
            lemma_regroup(start, checked, all);
            lemma_rest(start, all);
        }
        if self.count() > from {
            self.append_rule(from, &keys.rule_prefix);
            self.mark_for_key(from);
        }
        proof {
            let more = all.skip(start.len() as int);
            assert(all =~= start + more);
            assert(self.found() =~= start + on_key(on_rule(more, keys@.rule_prefix)));
        }
        Ok(())
    }

    /// The rules of a map value.
    pub(crate) fn entry_value(
        &mut self,
        values: &ItemEvaluator<C::Program>,
        field: &Field,
        value: &Val<R>,
    ) -> (r: Result<(), Error<R::Error>>)
        requires
            !old(self).stopping(),
        ensures
            final(self).setting() == old(self).setting(),
            added(
                old(self).found(),
                r,
                final(self).found(),
                old(self).setting().entry_value(Some(values@), field@, val::<R>(*value)),
            ),
    {
        let ghost start = self.found();
        assert(start =~= start + Seq::<ViolationV>::empty());
        if values.rules.ignore_empty && is_empty_item::<R>(value) {
            return Ok(());
        }
        let from: usize = self.count();
        match self.item(&values.rules, field, value) {
            Ok(()) => {},
            Err(error) => return Err(error),
        }
        let ghost all = self.found();
        proof {
            lemma_rest(start, all);
        }
        if self.count() > from {
            self.append_rule(from, &values.rule_prefix);
        }
        proof {
            let more = all.skip(start.len() as int);
            assert(all =~= start + more);
            assert(self.found() =~= start + on_rule(more, values@.rule_prefix));
        }
        Ok(())
    }

    /// One map entry; `Ok(false)` when fail-fast stops the walk over the map.
    pub(crate) fn map_entry(
        &mut self,
        field: &FieldEvaluator<C::Program>,
        key: &Key,
        value: &Val<R>,
    ) -> (r: Result<bool, Error<R::Error>>)
        requires
            !old(self).stopping(),
        ensures
            final(self).setting() == old(self).setting(),
            added(
                old(self).found(),
                step(r),
                final(self).found(),
                old(self).setting().entry(field@, key@, val::<R>(*value)),
            ),
            r matches Ok(going) ==> going == !final(self).stopping(),
    {
        let ghost s = self.setting();
        let ghost start = self.found();
        assert(start =~= start + Seq::<ViolationV>::empty());
        let from: usize = self.count();
        match &field.keys {
            Some(keys) => match self.entry_key(keys, key) {
                Ok(()) => {},
                Err(error) => return Err(error),
            },
            None => {},
        }
        let ghost middle = self.found();
        let ghost of_key = s.entry_key::<R::Error>(field@.keys, key@)->Ok_0;
        assert(middle == start + of_key);
        assert(middle =~= middle + Seq::<ViolationV>::empty());
        if !self.should_return() {
            match &field.values {
                Some(values) => match self.entry_value(values, &field.field, value) {
                    Ok(()) => {},
                    Err(error) => return Err(error),
                },
                None => {},
            }
        }
        let ghost all = self.found();
        proof {
            lemma_rest(start, middle);
            lemma_rest(middle, all);
            lemma_regroup(start, middle, all);
            lemma_rest(start, all);
        }
        let ghost template = match field@.entry_element {
            Some(element) => element,
            None => field@.element,
        };
        let ghost element_v = subscripted(template, key_subscript(key@));
        let ghost more = all.skip(start.len() as int);
        if self.count() > from {
            let template = match &field.entry_element {
                Some(element) => element.copy(),
                None => field.element.copy(),
            };
            let element = with_subscript(template, key.subscript());
            self.append_field(from, &element);
            assert(all.take(start.len() as int) =~= start);
            assert(self.found() =~= start + on_field(more, element_v));
            assert(all =~= start + more);
            if self.fails_fast() {
                return Ok(false);
            }
            return Ok(true);
        }
        assert(self.found() =~= start + on_field(more, element_v));
        assert(all =~= start + more);
        Ok(true)
    }

    /// The rules of the entries of a map.
    pub(crate) fn map(&mut self, field: &FieldEvaluator<C::Program>, map: &R::Entries) -> (r: Result<
        (),
        Error<R::Error>,
    >)
        requires
            !old(self).stopping(),
        ensures
            final(self).setting() == old(self).setting(),
            added(
                old(self).found(),
                r,
                final(self).found(),
                old(self).setting().entries_from(field@, entries_of::<R>(*map), 0),
            ),
    {
        proof {
            shapes::<R>();
        }
        let ghost s = self.setting();
        let ghost start = self.found();
        let ghost p = entries_of::<R>(*map);
        let ghost mut so_far = Seq::<ViolationV>::empty();
        let mut index: usize = 0;
        proof {
            lemma_begin(s.entries_from(field@, p, 0));
        }
        while index < usize::MAX
            invariant
                p == entries_of::<R>(*map),
                self.setting() == s,
                s == old(self).setting(),
                start == old(self).found(),
                !old(self).stopping(),
                self.found() =~= start + so_far,
                s.fast ==> so_far.len() == 0,
                s.entries_from(field@, p, 0) == cat(
                    so_far,
                    s.entries_from(field@, p, index as int),
                ),
            decreases usize::MAX - index,
        {
            match map_entry::<R>(map, index) {
                Ok(Some((key, value))) => {
                    let ghost part = s.entry(field@, key@, val::<R>(value));
                    proof {
                        lemma_step(
                            s.fast,
                            so_far,
                            part,
                            s.entries_from(field@, p, index + 1),
                        );
                    }
                    let going = match self.map_entry(field, &key, &value) {
                        Ok(going) => going,
                        Err(error) => return Err(error),
                    };
                    proof {
                        assert(self.found() =~= start + (so_far + part->Ok_0));
                        so_far = so_far + part->Ok_0;
                    }
                    if !going {
                        return Ok(());
                    }
                },
                Ok(None) => {
                    assert(so_far + Seq::<ViolationV>::empty() =~= so_far);
                    return Ok(());
                },
                Err(error) => return Err(error),
            }
            index += 1;
        }
        assert(so_far + Seq::<ViolationV>::empty() =~= so_far);
        Ok(())
    }
}

} // verus!
