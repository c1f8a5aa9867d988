//! The message types whose rules are compiled together.

use super::plan::Source;
use super::MessageEvaluatorV;
use crate::cel::Engine;
use crate::descriptors::{
    message_index, FieldDescriptor, FieldKind, MessageDescriptor, SingularKind,
};
use crate::error::ErrorV;
use vstd::prelude::*;

verus! {

/// Message types by their places among the descriptors, each with its rules,
/// in the order in which they were compiled.
pub type Loaded<P> = Seq<(u64, MessageEvaluatorV<P>)>;

/// Whether the rules of a type are among those compiled.
pub open spec fn is_loaded<P>(out: Loaded<P>, index: u64) -> bool {
    exists|i: int| 0 <= i < out.len() && (#[trigger] out[i]).0 == index
}

/// How many of the first `n` types are not compiled.
pub open spec fn missing<P>(out: Loaded<P>, n: nat) -> nat
    decreases n,
{
    if n == 0 {
        0
    } else if is_loaded(out, (n - 1) as u64) {
        missing(out, (n - 1) as nat)
    } else {
        missing(out, (n - 1) as nat) + 1
    }
}

/// Compiling a type that was missing leaves one less.
pub proof fn lemma_missing<P>(out: Loaded<P>, index: u64, evaluator: MessageEvaluatorV<P>, n: nat)
    requires
        !is_loaded(out, index),
        n <= u64::MAX,
    ensures
        missing(out.push((index, evaluator)), n) == (if index < n {
            missing(out, n) - 1
        } else {
            missing(out, n) as int
        }),
    decreases n,
{
    let more = out.push((index, evaluator));
    if n > 0 {
        lemma_missing(out, index, evaluator, (n - 1) as nat);
        let last = (n - 1) as u64;
        assert(is_loaded(more, last) <==> is_loaded(out, last) || last == index) by {
            if is_loaded(out, last) {
                let i = choose|i: int| 0 <= i < out.len() && (#[trigger] out[i]).0 == last;
                assert(more[i].0 == last);
            }
            if last == index {
                assert(more[out.len() as int].0 == index);
            }
            if is_loaded(more, last) {
                let i = choose|i: int| 0 <= i < more.len() && (#[trigger] more[i]).0 == last;
                if i < out.len() {
                    assert(out[i].0 == last);
                }
            }
        }
    }
}

/// The message types of the first `n` fields, by their places.
pub open spec fn field_types(fields: Seq<FieldDescriptor>, n: nat) -> Seq<u64>
    decreases n,
{
    if n == 0 {
        Seq::empty()
    } else {
        match message_index(fields[n - 1].kind) {
            Some(index) => field_types(fields, (n - 1) as nat).push(index),
            None => field_types(fields, (n - 1) as nat),
        }
    }
}

/// The message types that a type has fields of.
pub open spec fn types_in(message: MessageDescriptor) -> Seq<u64> {
    field_types(message.fields@, message.fields@.len())
}

impl<C: Engine> Source<C> {
    /// Whether there is a type at a place.
    pub open spec fn there(self, index: u64) -> bool {
        index < self.descriptors.messages@.len()
    }

    /// The type at a place.
    pub open spec fn at(self, index: u64) -> MessageDescriptor {
        self.descriptors.messages@[index as int]
    }

    /// The types compiled once those pending, and every type reachable from
    /// them that is not `known`, are. The last of those pending comes first.
    #[verifier::opaque]
    pub open spec fn closure<E>(
        self,
        known: Set<u64>,
        pending: Seq<u64>,
        out: Loaded<C::Program>,
    ) -> Result<Loaded<C::Program>, ErrorV<E>>
        decreases missing(out, self.descriptors.messages@.len()), pending.len(),
    {
        if pending.len() == 0 {
            Ok(out)
        } else {
            let index = pending.last();
            let rest = pending.drop_last();
            if known.contains(index) || is_loaded(out, index) || !self.there(index)
                || self.descriptors.messages@.len() > u64::MAX {
                self.closure::<E>(known, rest, out)
            } else {
                match self.message::<E>(self.at(index)) {
                    Err(e) => Err(e),
                    Ok(evaluator) => {
                        proof {
                            lemma_missing(
                                out,
                                index,
                                evaluator,
                                self.descriptors.messages@.len(),
                            );
                        }
                        self.closure::<E>(
                            known,
                            rest + types_in(self.at(index)),
                            out.push((index, evaluator)),
                        )
                    },
                }
            }
        }
    }

    /// Whether the type at one place has a field of the type at the other.
    pub open spec fn has_field_of(self, from: u64, to: u64) -> bool {
        self.there(from) && types_in(self.at(from)).contains(to)
    }

    /// Whether a type is reached from another over that many fields.
    pub open spec fn reaches(self, from: u64, to: u64, steps: nat) -> bool
        decreases steps,
    {
        if steps == 0 {
            from == to
        } else {
            exists|middle: u64|
                self.reaches(from, middle, (steps - 1) as nat) && #[trigger] self.has_field_of(
                    middle,
                    to,
                )
        }
    }

    /// Whether a type is reached from another.
    #[verifier::opaque]
    pub open spec fn reachable(self, from: u64, to: u64) -> bool {
        exists|steps: nat| #[trigger] self.reaches(from, to, steps)
    }

    /// Whether types that are known have the types of their fields known.
    pub open spec fn knows_fields(self, known: Set<u64>) -> bool {
        forall|from: u64, to: u64|
            known.contains(from) && #[trigger] self.has_field_of(from, to) && self.there(to)
                ==> known.contains(to)
    }

    /// Whether the types of a type's fields are all compiled, or known.
    pub open spec fn covered(self, known: Set<u64>, out: Loaded<C::Program>, index: u64) -> bool {
        forall|i: int|
            0 <= i < types_in(self.at(index)).len() && self.there(
                #[trigger] types_in(self.at(index))[i],
            ) ==> known.contains(types_in(self.at(index))[i]) || is_loaded(
                out,
                types_in(self.at(index))[i],
            )
    }
}

/// One step of the worklist.
pub proof fn lemma_closure_step<C: Engine, E>(
    source: Source<C>,
    known: Set<u64>,
    pending: Seq<u64>,
    out: Loaded<C::Program>,
)
    requires
        source.descriptors.messages@.len() <= u64::MAX,
    ensures
        pending.len() == 0 ==> source.closure::<E>(known, pending, out) == Ok::<
            Loaded<C::Program>,
            ErrorV<E>,
        >(out),
        pending.len() > 0 && (known.contains(pending.last()) || is_loaded(out, pending.last())
            || !source.there(pending.last())) ==> source.closure::<E>(known, pending, out)
            == source.closure::<E>(known, pending.drop_last(), out),
        pending.len() > 0 && !(known.contains(pending.last()) || is_loaded(out, pending.last())
            || !source.there(pending.last())) ==> source.closure::<E>(known, pending, out)
            == match source.message::<E>(source.at(pending.last())) {
            Err(e) => Err(e),
            Ok(evaluator) => source.closure::<E>(
                known,
                pending.drop_last() + types_in(source.at(pending.last())),
                out.push((pending.last(), evaluator)),
            ),
        },
{
    reveal(Source::closure);
}

/// What stays compiled.
proof fn lemma_prefix_loaded<P>(out: Loaded<P>, more: Loaded<P>, index: u64)
    requires
        out.len() <= more.len(),
        more.take(out.len() as int) == out,
        is_loaded(out, index),
    ensures
        is_loaded(more, index),
{
    let i = choose|i: int| 0 <= i < out.len() && (#[trigger] out[i]).0 == index;
    assert(more.take(out.len() as int)[i] == more[i]);
    assert(more[i].0 == index);
}

/// Where the worklist ends well, everything pending is compiled or known,
/// what was compiled before stands at the front, and every type compiled
/// since has the rules it should, and the types of its fields compiled.
proof fn lemma_closure<C: Engine, E>(
    source: Source<C>,
    known: Set<u64>,
    pending: Seq<u64>,
    out: Loaded<C::Program>,
)
    requires
        source.descriptors.messages@.len() <= u64::MAX,
        source.closure::<E>(known, pending, out) is Ok,
    ensures
        ({
            let all = source.closure::<E>(known, pending, out)->Ok_0;
            &&& out.len() <= all.len()
            &&& all.take(out.len() as int) == out
            &&& forall|i: int|
                0 <= i < pending.len() && source.there(#[trigger] pending[i]) ==> known.contains(
                    pending[i],
                ) || is_loaded(all, pending[i])
            &&& forall|i: int|
                out.len() <= i < all.len() ==> {
                    &&& source.there((#[trigger] all[i]).0)
                    &&& !known.contains(all[i].0)
                    &&& source.message::<E>(source.at(all[i].0)) == Ok::<
                        MessageEvaluatorV<C::Program>,
                        ErrorV<E>,
                    >(all[i].1)
                    &&& source.covered(known, all, all[i].0)
                }
        }),
    decreases missing(out, source.descriptors.messages@.len()), pending.len(),
{
    lemma_closure_step::<C, E>(source, known, pending, out);
    let all = source.closure::<E>(known, pending, out)->Ok_0;
    if pending.len() == 0 {
        assert(all.take(out.len() as int) =~= out);
    } else {
        let index = pending.last();
        let rest = pending.drop_last();
        if known.contains(index) || is_loaded(out, index) || !source.there(index) {
            lemma_closure::<C, E>(source, known, rest, out);
            if is_loaded(out, index) {
                lemma_prefix_loaded(out, all, index);
            }
            assert forall|i: int|
                0 <= i < pending.len() && source.there(#[trigger] pending[i]) implies known.contains(
                pending[i],
            ) || is_loaded(all, pending[i]) by {
                if i < rest.len() {
                    assert(rest[i] == pending[i]);
                }
            }
        } else {
            let evaluator = source.message::<E>(source.at(index))->Ok_0;
            let next = rest + types_in(source.at(index));
            let more = out.push((index, evaluator));
            lemma_missing(out, index, evaluator, source.descriptors.messages@.len());
            lemma_closure::<C, E>(source, known, next, more);
            assert(all.take(more.len() as int) == more);
            assert(all.take(out.len() as int) =~= out) by {
                assert forall|i: int| 0 <= i < out.len() implies all[i] == out[i] by {
                    assert(all.take(more.len() as int)[i] == all[i]);
                }
            }
            let at = out.len() as int;
            assert(all[at] == more[at]) by {
                assert(all.take(more.len() as int)[at] == all[at]);
            }
            assert(is_loaded(all, index)) by {
                assert(all[at].0 == index);
            }
            assert forall|i: int|
                0 <= i < pending.len() && source.there(#[trigger] pending[i]) implies known.contains(
                pending[i],
            ) || is_loaded(all, pending[i]) by {
                if i < rest.len() {
                    assert(next[i] == pending[i]);
                }
            }
            assert(source.covered(known, all, index)) by {
                let types = types_in(source.at(index));
                assert forall|i: int|
                    0 <= i < types.len() && source.there(
                        #[trigger] types[i],
                    ) implies known.contains(types[i]) || is_loaded(all, types[i]) by {
                    assert(next[rest.len() + i] == types[i]);
                }
            }
        }
    }
}

/// A type is reached from itself.
proof fn lemma_reaches_itself<C: Engine>(source: Source<C>, root: u64)
    ensures
        source.reachable(root, root),
{
    reveal(Source::reachable);
    assert(source.reaches(root, root, 0));
}

/// The types of the fields of a type are reached where the type is.
proof fn lemma_reaches_fields<C: Engine>(source: Source<C>, root: u64, index: u64, to: u64)
    requires
        source.reachable(root, index),
        source.has_field_of(index, to),
    ensures
        source.reachable(root, to),
{
    reveal(Source::reachable);
    let steps = choose|steps: nat| #[trigger] source.reaches(root, index, steps);
    let next = steps + 1;
    assert((next - 1) as nat == steps);
    assert(source.reaches(root, to, next));
}

/// The types pending, when reached from the root, lead to nothing that is
/// not.
proof fn lemma_closure_reached<C: Engine, E>(
    source: Source<C>,
    root: u64,
    known: Set<u64>,
    pending: Seq<u64>,
    out: Loaded<C::Program>,
)
    requires
        source.descriptors.messages@.len() <= u64::MAX,
        forall|i: int| 0 <= i < pending.len() ==> source.reachable(root, #[trigger] pending[i]),
        forall|i: int| 0 <= i < out.len() ==> source.reachable(root, (#[trigger] out[i]).0),
    ensures
        match source.closure::<E>(known, pending, out) {
            Ok(all) => forall|i: int|
                0 <= i < all.len() ==> source.reachable(root, (#[trigger] all[i]).0),
            Err(e) => exists|index: u64| #[trigger]
                source.reachable(root, index) && source.there(index) && !known.contains(index)
                    && source.message::<E>(source.at(index)) == Err::<
                    MessageEvaluatorV<C::Program>,
                    ErrorV<E>,
                >(e),
        },
    decreases missing(out, source.descriptors.messages@.len()), pending.len(),
{
    lemma_closure_step::<C, E>(source, known, pending, out);
    if pending.len() > 0 {
        let index = pending.last();
        let rest = pending.drop_last();
        assert forall|i: int| 0 <= i < rest.len() implies source.reachable(
            root,
            #[trigger] rest[i],
        ) by {
            assert(rest[i] == pending[i]);
        }
        if known.contains(index) || is_loaded(out, index) || !source.there(index) {
            lemma_closure_reached::<C, E>(source, root, known, rest, out);
        } else {
            assert(source.reachable(root, index));
            match source.message::<E>(source.at(index)) {
                Err(e) => {},
                Ok(evaluator) => {
                    let types = types_in(source.at(index));
                    let next = rest + types;
                    let more = out.push((index, evaluator));
                    lemma_missing(out, index, evaluator, source.descriptors.messages@.len());
                    assert forall|i: int| 0 <= i < next.len() implies source.reachable(
                        root,
                        #[trigger] next[i],
                    ) by {
                        if i < rest.len() {
                            assert(next[i] == rest[i]);
                        } else {
                            assert(next[i] == types[i - rest.len()]);
                            assert(source.has_field_of(index, next[i]));
                            lemma_reaches_fields(source, root, index, next[i]);
                        }
                    }
                    assert forall|i: int| 0 <= i < more.len() implies source.reachable(
                        root,
                        (#[trigger] more[i]).0,
                    ) by {
                        if i < out.len() {
                            assert(more[i] == out[i]);
                        }
                    }
                    lemma_closure_reached::<C, E>(source, root, known, next, more);
                },
            }
        }
    }
}

/// Compiling a type compiles every type reachable from it that is not known:
/// the type itself and, with each, the types of its fields. Each gets the
/// rules of its own options.
pub proof fn law_closure_is_complete<C: Engine, E>(source: Source<C>, known: Set<u64>, root: u64)
    requires
        source.there(root),
        source.closure::<E>(known, seq![root], Seq::empty()) is Ok,
    ensures
        ({
            let all = source.closure::<E>(known, seq![root], Seq::empty())->Ok_0;
            &&& known.contains(root) || is_loaded(all, root)
            &&& forall|i: int|
                0 <= i < all.len() ==> {
                    &&& source.there((#[trigger] all[i]).0)
                    &&& source.message::<E>(source.at(all[i].0)) == Ok::<
                        MessageEvaluatorV<C::Program>,
                        ErrorV<E>,
                    >(all[i].1)
                    &&& source.covered(known, all, all[i].0)
                }
        }),
{
    assert(source.descriptors.messages.len() == source.descriptors.messages@.len());
    lemma_closure::<C, E>(source, known, seq![root], Seq::empty());
    assert(seq![root][0] == root);
}

/// Compiling a type compiles nothing that is not reached from it, nothing
/// that is known, and fails only where the rules of a type reached from it
/// do not compile.
pub proof fn law_closure_is_reached<C: Engine, E>(source: Source<C>, known: Set<u64>, root: u64)
    ensures
        match source.closure::<E>(known, seq![root], Seq::empty()) {
            Ok(all) => forall|i: int|
                0 <= i < all.len() ==> source.reachable(root, (#[trigger] all[i]).0)
                    && !known.contains(all[i].0),
            Err(e) => exists|index: u64| #[trigger]
                source.reachable(root, index) && source.there(index) && !known.contains(index)
                    && source.message::<E>(source.at(index)) == Err::<
                    MessageEvaluatorV<C::Program>,
                    ErrorV<E>,
                >(e),
        },
{
    assert(source.descriptors.messages.len() == source.descriptors.messages@.len());
    lemma_reaches_itself(source, root);
    lemma_closure_reached::<C, E>(source, root, known, seq![root], Seq::empty());
    if source.closure::<E>(known, seq![root], Seq::empty()) is Ok {
        lemma_closure::<C, E>(source, known, seq![root], Seq::empty());
    }
}

/// Over any number of fields, a type that is reached is compiled, or known.
proof fn lemma_reached_is_loaded<C: Engine, E>(
    source: Source<C>,
    known: Set<u64>,
    root: u64,
    index: u64,
    steps: nat,
)
    requires
        source.descriptors.messages@.len() <= u64::MAX,
        source.knows_fields(known),
        source.there(root),
        source.there(index),
        source.closure::<E>(known, seq![root], Seq::empty()) is Ok,
        source.reaches(root, index, steps),
    ensures
        known.contains(index) || is_loaded(
            source.closure::<E>(known, seq![root], Seq::empty())->Ok_0,
            index,
        ),
    decreases steps,
{
    law_closure_is_complete::<C, E>(source, known, root);
    if steps > 0 {
        let all = source.closure::<E>(known, seq![root], Seq::empty())->Ok_0;
        let middle = choose|middle: u64|
            source.reaches(root, middle, (steps - 1) as nat) && #[trigger] source.has_field_of(
                middle,
                index,
            );
        lemma_reached_is_loaded::<C, E>(source, known, root, middle, (steps - 1) as nat);
        if !known.contains(middle) {
            let i = choose|i: int| 0 <= i < all.len() && (#[trigger] all[i]).0 == middle;
            assert(source.covered(known, all, middle));
            let types = types_in(source.at(middle));
            let j = choose|j: int| 0 <= j < types.len() && types[j] == index;
            assert(source.there(types[j]));
        }
    }
}

/// A type that is reached is compiled, or known.
pub(crate) proof fn lemma_reachable_is_loaded<C: Engine, E>(
    source: Source<C>,
    known: Set<u64>,
    root: u64,
    index: u64,
)
    requires
        source.knows_fields(known),
        source.there(root),
        source.there(index),
        source.closure::<E>(known, seq![root], Seq::empty()) is Ok,
        source.reachable(root, index),
    ensures
        known.contains(index) || is_loaded(
            source.closure::<E>(known, seq![root], Seq::empty())->Ok_0,
            index,
        ),
{
    assert(source.descriptors.messages.len() == source.descriptors.messages@.len());
    reveal(Source::reachable);
    let steps = choose|steps: nat| #[trigger] source.reaches(root, index, steps);
    lemma_reached_is_loaded::<C, E>(source, known, root, index, steps);
}

/// Where compiling a type succeeds, the rules of every type reachable from it
/// compile: one that does not, anywhere below, is reported at once. Types
/// that were known are left out, with what is reached through them.
pub proof fn law_failures_below_are_reported<C: Engine, E>(
    source: Source<C>,
    known: Set<u64>,
    root: u64,
    index: u64,
)
    requires
        source.knows_fields(known),
        source.there(root),
        source.there(index),
        source.reachable(root, index),
        !known.contains(index),
        source.message::<E>(source.at(index)) is Err,
    ensures
        source.closure::<E>(known, seq![root], Seq::empty()) is Err,
{
    assert(source.descriptors.messages.len() == source.descriptors.messages@.len());
    if source.closure::<E>(known, seq![root], Seq::empty()) is Ok {
        lemma_reachable_is_loaded::<C, E>(source, known, root, index);
        law_closure_is_complete::<C, E>(source, known, root);
        let all = source.closure::<E>(known, seq![root], Seq::empty())->Ok_0;
        let i = choose|i: int| 0 <= i < all.len() && (#[trigger] all[i]).0 == index;
        assert(source.message::<E>(source.at(all[i].0)) is Ok);
    }
}

/// The types that a type has fields of are those of the messages that its
/// fields hold, and no others.
pub proof fn law_types_are_those_of_the_fields(message: MessageDescriptor, index: u64)
    ensures
        types_in(message).contains(index) <==> exists|j: int|
            0 <= j < message.fields@.len() && holds_messages(#[trigger] message.fields@[j], index),
{
    lemma_field_types(message.fields@, message.fields@.len(), index);
}

/// Whether a field holds messages of the type at a place: one, several, or as
/// the values of a map.
pub open spec fn holds_messages(field: FieldDescriptor, index: u64) -> bool {
    match field.kind {
        FieldKind::Singular(kind) => kind == SingularKind::Message(index),
        FieldKind::List(kind) => kind == SingularKind::Message(index),
        FieldKind::Mapping { value, .. } => value == SingularKind::Message(index),
    }
}

proof fn lemma_field_types(fields: Seq<FieldDescriptor>, n: nat, index: u64)
    requires
        n <= fields.len(),
    ensures
        field_types(fields, n).contains(index) <==> exists|j: int|
            0 <= j < n && holds_messages(#[trigger] fields[j], index),
    decreases n,
{
    if n > 0 {
        lemma_field_types(fields, (n - 1) as nat, index);
        let earlier = field_types(fields, (n - 1) as nat);
        let all = field_types(fields, n);
        if earlier.contains(index) {
            let i = choose|i: int| 0 <= i < earlier.len() && earlier[i] == index;
            assert(all[i] == index);
        }
        if holds_messages(fields[n - 1], index) {
            assert(all.last() == index);
            assert(all[all.len() - 1] == index);
        }
        if all.contains(index) && !earlier.contains(index) {
            let i = choose|i: int| 0 <= i < all.len() && all[i] == index;
            assert(i == earlier.len());
            assert(holds_messages(fields[n - 1], index));
        }
        if exists|j: int| 0 <= j < n && holds_messages(#[trigger] fields[j], index) {
            let j = choose|j: int| 0 <= j < n && holds_messages(#[trigger] fields[j], index);
            if j < n - 1 {
                assert(holds_messages(fields[j], index));
            }
        }
    }
}

/// What is reached from a type is the type itself and what the types that are
/// reached have fields of, and nothing else.
pub proof fn law_types_are_reached_over_fields<C: Engine>(
    source: Source<C>,
    from: u64,
    middle: u64,
    to: u64,
)
    ensures
        source.reachable(from, from),
        source.reachable(from, middle) && source.has_field_of(middle, to) ==> source.reachable(
            from,
            to,
        ),
        source.reachable(from, to) && from != to ==> exists|last: u64|
            source.reachable(from, last) && #[trigger] source.has_field_of(last, to),
        source.has_field_of(middle, to) <==> source.there(middle) && exists|j: int|
            0 <= j < source.at(middle).fields@.len() && holds_messages(
                #[trigger] source.at(middle).fields@[j],
                to,
            ),
{
    lemma_reaches_itself(source, from);
    if source.reachable(from, middle) && source.has_field_of(middle, to) {
        lemma_reaches_fields(source, from, middle, to);
    }
    if source.reachable(from, to) && from != to {
        reveal(Source::reachable);
        let steps = choose|steps: nat| #[trigger] source.reaches(from, to, steps);
        let last = choose|last: u64|
            source.reaches(from, last, (steps - 1) as nat) && #[trigger] source.has_field_of(
                last,
                to,
            );
        assert(source.reaches(from, last, (steps - 1) as nat));
        assert(source.reachable(from, last) && source.has_field_of(last, to));
    }
    law_types_are_those_of_the_fields(source.at(middle), to);
}

} // verus!
