//! The state of a walk.

use crate::rules::outcome::{
    all_from_root, cat, chain, frame_of, from_root, on_field, on_key, on_rule, with_field, with_key,
    with_rule, Out, Setting,
};
use crate::rules::standard::order::Timestamp;
use crate::rules::standard::wellknown::Formats;
use crate::rules::{MessageEvaluator, MessageEvaluatorV};
use crate::cel::Engine;
use crate::descriptors::{Descriptors, Schema};
use crate::error::{Error, ErrorV};
use crate::protobuf::{message_of, Entries, List, Message, Runtime, ValV};
use crate::validate::{path_of, violations_of, FieldPathElement, Violation, ViolationV};
use std::collections::HashMap;
use std::marker::PhantomData;
use vstd::prelude::*;

verus! {

/// What a step that says whether to go on gives.
pub open spec fn step<E>(r: Result<bool, Error<E>>) -> Result<(), Error<E>> {
    match r {
        Ok(_) => Ok(()),
        Err(error) => Err(error),
    }
}

/// The violations that `after` has beyond `before` are those of `out`, or
/// the error is.
pub open spec fn added<E>(
    before: Seq<ViolationV>,
    r: Result<(), Error<E>>,
    after: Seq<ViolationV>,
    out: Out<E>,
) -> bool {
    match (r, out) {
        (Ok(_), Ok(more)) => after == before + more,
        (Err(error), Err(expected)) => error@ == expected,
        _ => false,
    }
}

/// Before anything is found, all of the walk is left.
pub(crate) proof fn lemma_begin<E>(whole: Out<E>)
    ensures
        cat(Seq::empty(), whole) == whole,
{
    if let Ok(more) = whole {
        assert(Seq::<ViolationV>::empty() + more =~= more);
    }
}

/// What is found in two steps is found in one.
pub(crate) proof fn lemma_regroup(
    start: Seq<ViolationV>,
    middle: Seq<ViolationV>,
    last: Seq<ViolationV>,
)
    requires
        start.len() <= middle.len() <= last.len(),
        middle.take(start.len() as int) == start,
        last.take(middle.len() as int) == middle,
    ensures
        last == start + (middle.skip(start.len() as int) + last.skip(middle.len() as int)),
{
    let n = start.len() as int;
    assert forall|i: int| 0 <= i < n implies last[i] == start[i] by {
        assert(middle.take(n)[i] == middle[i]);
        assert(last.take(middle.len() as int)[i] == last[i]);
    }
    assert forall|i: int| n <= i < middle.len() implies last[i] == middle[i] by {
        assert(last.take(middle.len() as int)[i] == last[i]);
    }
    assert(last =~= start + (middle.skip(n) + last.skip(middle.len() as int)));
}

/// What is found beyond `start` is what stands behind it.
pub(crate) proof fn lemma_rest(start: Seq<ViolationV>, last: Seq<ViolationV>)
    ensures
        forall|a: Seq<ViolationV>|
            last == #[trigger] (start + a) ==> a == last.skip(start.len() as int) && start
                == last.take(start.len() as int),
{
    assert forall|a: Seq<ViolationV>| last == #[trigger] (start + a) implies a == last.skip(
        start.len() as int,
    ) && start == last.take(start.len() as int) by {
        assert(a =~= last.skip(start.len() as int));
        assert(start =~= last.take(start.len() as int));
    }
}

/// Once `so_far` is found, what is left of the walk goes on after the next
/// part, or ends with it.
pub(crate) proof fn lemma_step<E>(fast: bool, so_far: Seq<ViolationV>, part: Out<E>, rest: Out<E>)
    requires
        fast ==> so_far.len() == 0,
    ensures
        match part {
            Err(e) => cat(so_far, chain(fast, part, rest)) == Err::<Seq<ViolationV>, ErrorV<E>>(e),
            Ok(a) => if fast && a.len() > 0 {
                cat(so_far, chain(fast, part, rest)) == Ok::<Seq<ViolationV>, ErrorV<E>>(so_far + a)
            } else {
                cat(so_far, chain(fast, part, rest)) == cat(so_far + a, rest)
            },
        },
{
    match (part, rest) {
        (Ok(a), Ok(b)) => {
            assert(so_far + (a + b) =~= so_far + a + b);
        },
        _ => {},
    }
}

/// A message as CEL sees it, parsed on first use.
///
/// A frame is of one message -- the root, or a sub-message as its runtime
/// encodes it -- and parses it the first time a program asks.
pub struct LazyFrame<'a, C: Engine> {
    full_name: &'a str,
    parsed: Option<C::Frame>,
}

impl<'a, C: Engine> LazyFrame<'a, C> {
    /// The type of the message.
    pub closed spec fn name(self) -> Seq<char> {
        self.full_name@
    }

    /// Whether what has been parsed is the message.
    pub open spec fn of<E>(self, engine: C, m: ValV<E>) -> bool {
        self.held() matches Some(frame) ==> frame_of(engine, self.name(), m) == Ok::<
            C::Frame,
            ErrorV<E>,
        >(frame)
    }

    /// Whether the message has been parsed, and as what.
    pub closed spec fn held(self) -> Option<C::Frame> {
        self.parsed
    }

    /// A frame of a message of type `full_name`.
    pub fn new(full_name: &'a str) -> (r: LazyFrame<'a, C>)
        ensures
            r.name() == full_name@,
            r.held() is None,
    {
        LazyFrame { full_name, parsed: None }
    }

    /// The message, once it has been parsed.
    pub(crate) fn get(&self) -> (r: &C::Frame)
        requires
            self.held() is Some,
        ensures
            Some(*r) == self.held(),
    {
        match &self.parsed {
            Some(frame) => frame,
            None => vstd::pervasive::unreached(),
        }
    }

    /// Parses the message, unless that was done.
    pub(crate) fn parse<R: Runtime>(&mut self, engine: &C, message: &R::Message) -> (r: Result<
        (),
        Error<R::Error>,
    >) where R::Message: Message<R>
        requires
            old(self).of(*engine, message_of::<R>(*message)),
        ensures
            final(self).name() == old(self).name(),
            final(self).of(*engine, message_of::<R>(*message)),
            match r {
                Ok(_) => final(self).held() is Some && frame_of(
                    *engine,
                    old(self).name(),
                    message_of::<R>(*message),
                ) == Ok::<C::Frame, ErrorV<R::Error>>(final(self).held()->Some_0),
                Err(error) => frame_of(*engine, old(self).name(), message_of::<R>(*message)) == Err::<
                    C::Frame,
                    ErrorV<R::Error>,
                >(error@),
            },
    {
        proof {
            reveal(message_of);
        }
        if self.parsed.is_none() {
            let bytes = match message.encode() {
                Ok(bytes) => bytes,
                Err(error) => return Err(Error::Read(error)),
            };
            match engine.frame(self.full_name, &bytes) {
                Ok(frame) => {
                    self.parsed = Some(frame);
                },
                Err(error) => return Err(Error::from_cel(error)),
            }
        }
        Ok(())
    }
}

/// One validation: the evaluators to use, and the violations found so far.
pub struct Walker<'a, R, F, C: Engine> {
    descriptors: &'a Descriptors,
    schema: &'a Schema,
    engine: &'a C,
    formats: &'a F,
    evaluators: &'a HashMap<u64, MessageEvaluator<C::Program>>,
    fail_fast: bool,
    now: Timestamp,
    violations: Vec<Violation>,
    runtime: PhantomData<R>,
}

/// What the evaluators hold.
pub open spec fn evaluators_of<P>(evaluators: Map<u64, MessageEvaluator<P>>) -> Map<
    u64,
    MessageEvaluatorV<P>,
> {
    evaluators.map_values(|e: MessageEvaluator<P>| e@)
}

/// What a validation goes by.
pub open spec fn setting_of<F, C: Engine>(
    descriptors: Descriptors,
    schema: Schema,
    engine: C,
    formats: F,
    evaluators: Map<u64, MessageEvaluator<C::Program>>,
    now: Timestamp,
    fail_fast: bool,
) -> Setting<F, C> {
    Setting {
        schema: schema@,
        enums: descriptors.numbers(),
        types: descriptors.types(),
        engine,
        formats,
        evaluators: evaluators_of(evaluators),
        now: now.0 as int,
        fast: fail_fast,
    }
}

impl<'a, R, F, C> Walker<'a, R, F, C> where
    R: Runtime,
    F: Formats,
    C: Engine,
    R::Message: Message<R>,
    R::List: List<R>,
    R::Entries: Entries<R>,
 {
    /// What the validation goes by.
    pub closed spec fn setting(self) -> Setting<F, C> {
        setting_of(
            *self.descriptors,
            *self.schema,
            *self.engine,
            *self.formats,
            self.evaluators@,
            self.now,
            self.fail_fast,
        )
    }

    /// The violations found so far.
    pub closed spec fn found(self) -> Seq<ViolationV> {
        violations_of(self.violations@)
    }

    /// Whether the walk is to stop.
    pub open spec fn stopping(self) -> bool {
        self.setting().fast && self.found().len() > 0
    }

    /// A walk that has found nothing yet.
    pub fn new(
        descriptors: &'a Descriptors,
        schema: &'a Schema,
        engine: &'a C,
        formats: &'a F,
        evaluators: &'a HashMap<u64, MessageEvaluator<C::Program>>,
        now: Timestamp,
        fail_fast: bool,
    ) -> (r: Walker<'a, R, F, C>)
        ensures
            r.setting() == setting_of(
                *descriptors,
                *schema,
                *engine,
                *formats,
                evaluators@,
                now,
                fail_fast,
            ),
            r.found() == Seq::<ViolationV>::empty(),
    {
        let violations: Vec<Violation> = Vec::new();
        assert(violations_of(violations@) =~= Seq::empty());
        Walker {
            descriptors,
            schema,
            engine,
            formats,
            evaluators,
            fail_fast,
            now,
            violations,
            runtime: PhantomData,
        }
    }

    /// Whether to stop: failing fast, with a violation found.
    pub(crate) fn should_return(&self) -> (r: bool)
        ensures
            r == self.stopping(),
    {
        self.fail_fast && self.violations.len() > 0
    }

    /// How many violations have been found.
    pub(crate) fn count(&self) -> (r: usize)
        ensures
            r == self.found().len(),
    {
        self.violations.len()
    }

    /// Whether the walk stops at the first violation.
    pub(crate) fn fails_fast(&self) -> (r: bool)
        ensures
            r == self.setting().fast,
    {
        self.fail_fast
    }

    /// The path elements of the rules that the walk checks itself.
    pub(crate) fn schema(&self) -> (r: &'a Schema)
        ensures
            r@ == self.setting().schema,
    {
        self.schema
    }

    /// The CEL runtime.
    pub(crate) fn engine(&self) -> (r: &'a C)
        ensures
            *r == self.setting().engine,
    {
        self.engine
    }

    /// What recognises the well-known formats.
    pub(crate) fn formats(&self) -> (r: &'a F)
        ensures
            *r == self.setting().formats,
    {
        self.formats
    }

    /// The time of validation.
    pub(crate) fn now(&self) -> (r: Timestamp)
        ensures
            r.0 == self.setting().now,
    {
        self.now
    }

    /// Whether the enum defines the number.
    pub(crate) fn defines(&self, index: u64, number: i32) -> (r: bool)
        ensures
            r == self.setting().defines(index, number),
    {
        if index >= self.descriptors.enums.len() as u64 {
            return false;
        }
        let values = &self.descriptors.enums[index as usize].values;
        let ghost numbers = self.setting().enums[index as int];
        let mut i: usize = 0;
        while i < values.len()
            invariant
                i <= values@.len(),
                values@ == numbers,
                index < self.setting().enums.len(),
                numbers == self.setting().enums[index as int],
                forall|j: int| 0 <= j < i ==> numbers[j] != number,
            decreases values@.len() - i,
        {
            if values[i] == number {
                assert(numbers[i as int] == number);
                return true;
            }
            i += 1;
        }
        false
    }

    /// The name of the message type at a place among the descriptors.
    pub(crate) fn type_at(&self, index: u64) -> (r: String)
        ensures
            r@ == self.setting().type_at(index),
    {
        if index < self.descriptors.messages.len() as u64 {
            self.descriptors.messages[index as usize].full_name.clone()
        } else {
            proof {
                reveal_strlit("");
                assert(""@ =~= Seq::<char>::empty());
            }
            "".to_owned()
        }
    }

    /// The rules of the message type at a place among the descriptors.
    pub(crate) fn evaluator(&self, index: u64) -> (r: Option<&'a MessageEvaluator<C::Program>>)
        ensures
            match r {
                Some(evaluator) => self.setting().evaluators.dom().contains(index)
                    && evaluator@ == self.setting().evaluators[index],
                None => !self.setting().evaluators.dom().contains(index),
            },
    {
        broadcast use vstd::std_specs::hash::group_hash_axioms;

        self.evaluators.get(&index)
    }

    /// The violations found, with their paths from the root down.
    pub(crate) fn finish(self) -> (r: Vec<Violation>)
        ensures
            violations_of(r@) == all_from_root(self.found()),
    {
        let ghost start = self.found();
        let mut violations = self.violations;
        let mut i: usize = 0;
        while i < violations.len()
            invariant
                i <= violations@.len(),
                violations@.len() == start.len(),
                forall|j: int| 0 <= j < i ==> violations@[j]@ == from_root(start[j]),
                forall|j: int| i <= j < start.len() ==> violations@[j]@ == start[j],
            decreases violations@.len() - i,
        {
            let violation = &mut violations[i];
            violation.reverse();
            i += 1;
        }
        assert(violations_of(violations@) =~= all_from_root(start));
        violations
    }

    /// Records a violation.
    pub(crate) fn report(&mut self, violation: Violation)
        ensures
            final(self).setting() == old(self).setting(),
            final(self).found() == old(self).found() + seq![violation@],
    {
        let ghost before = self.violations@;
        self.violations.push(violation);
        assert(violations_of(self.violations@) =~= violations_of(before) + seq![violation@]);
    }

    /// Adds an element to the field paths of the violations from `from` on.
    pub(crate) fn append_field(&mut self, from: usize, element: &FieldPathElement)
        requires
            from <= old(self).found().len(),
        ensures
            final(self).setting() == old(self).setting(),
            final(self).found() == old(self).found().take(from as int) + on_field(
                old(self).found().skip(from as int),
                element@,
            ),
    {
        let ghost start = self.found();
        let ghost setting = self.setting();
        let mut i: usize = from;
        while i < self.violations.len()
            invariant
                from <= i <= self.violations@.len(),
                self.violations@.len() == start.len(),
                self.setting() == setting,
                forall|j: int| 0 <= j < from ==> self.violations@[j]@ == start[j],
                forall|j: int|
                    from <= j < i ==> self.violations@[j]@ == with_field(start[j], element@),
                forall|j: int| i <= j < start.len() ==> self.violations@[j]@ == start[j],
            decreases self.violations@.len() - i,
        {
            let violation = &mut self.violations[i];
            violation.add_field(element);
            i += 1;
        }
        assert(self.found() =~= start.take(from as int) + on_field(
            start.skip(from as int),
            element@,
        ));
    }

    /// Adds elements to the rule paths of the violations from `from` on.
    pub(crate) fn append_rule(&mut self, from: usize, elements: &Vec<FieldPathElement>)
        requires
            from <= old(self).found().len(),
        ensures
            final(self).setting() == old(self).setting(),
            final(self).found() == old(self).found().take(from as int) + on_rule(
                old(self).found().skip(from as int),
                path_of(elements@),
            ),
    {
        let ghost start = self.found();
        let ghost setting = self.setting();
        let mut i: usize = from;
        while i < self.violations.len()
            invariant
                from <= i <= self.violations@.len(),
                self.violations@.len() == start.len(),
                self.setting() == setting,
                forall|j: int| 0 <= j < from ==> self.violations@[j]@ == start[j],
                forall|j: int|
                    from <= j < i ==> self.violations@[j]@ == with_rule(
                        start[j],
                        path_of(elements@),
                    ),
                forall|j: int| i <= j < start.len() ==> self.violations@[j]@ == start[j],
            decreases self.violations@.len() - i,
        {
            let violation = &mut self.violations[i];
            violation.add_rule(elements);
            i += 1;
        }
        assert(self.found() =~= start.take(from as int) + on_rule(
            start.skip(from as int),
            path_of(elements@),
        ));
    }

    /// Marks the violations from `from` on as ones of a map key.
    pub(crate) fn mark_for_key(&mut self, from: usize)
        requires
            from <= old(self).found().len(),
        ensures
            final(self).setting() == old(self).setting(),
            final(self).found() == old(self).found().take(from as int) + on_key(
                old(self).found().skip(from as int),
            ),
    {
        let ghost start = self.found();
        let ghost setting = self.setting();
        let mut i: usize = from;
        while i < self.violations.len()
            invariant
                from <= i <= self.violations@.len(),
                self.violations@.len() == start.len(),
                self.setting() == setting,
                forall|j: int| 0 <= j < from ==> self.violations@[j]@ == start[j],
                forall|j: int| from <= j < i ==> self.violations@[j]@ == with_key(start[j]),
                forall|j: int| i <= j < start.len() ==> self.violations@[j]@ == start[j],
            decreases self.violations@.len() - i,
        {
            let violation = &mut self.violations[i];
            violation.for_key = Some(true);
            i += 1;
        }
        assert(self.found() =~= start.take(from as int) + on_key(start.skip(from as int)));
    }
}

} // verus!
