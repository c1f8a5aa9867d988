//! The rules of a message type and of the types reachable from it.

use super::Builder;
use crate::cel::Engine;
use crate::descriptors::{message_type, MessageDescriptor};
use crate::error::{Error, ErrorV};
use crate::rules::closure::{
    field_types, is_loaded, lemma_closure_step, lemma_missing, missing, types_in, Loaded,
};
use crate::rules::MessageEvaluator;
use std::collections::HashMap;
use vstd::prelude::*;

verus! {

/// What compiled types hold.
pub open spec fn loaded_of<P>(out: Seq<(u64, MessageEvaluator<P>)>) -> Loaded<P> {
    out.map_values(|entry: (u64, MessageEvaluator<P>)| (entry.0, entry.1@))
}

/// What compiling types gives.
pub open spec fn fallible_loaded<P, E>(
    r: Result<Vec<(u64, MessageEvaluator<P>)>, Error<E>>,
) -> Result<Loaded<P>, ErrorV<E>> {
    match r {
        Ok(out) => Ok(loaded_of(out@)),
        Err(error) => Err(error@),
    }
}

/// Whether the rules of a type are among those compiled.
fn has_loaded<P>(out: &Vec<(u64, MessageEvaluator<P>)>, index: u64) -> (r: bool)
    ensures
        r == is_loaded(loaded_of(out@), index),
{
    let ghost loaded = loaded_of(out@);
    let mut i: usize = 0;
    while i < out.len()
        invariant
            i <= out@.len(),
            loaded == loaded_of(out@),
            forall|j: int| 0 <= j < i ==> (#[trigger] loaded[j]).0 != index,
        decreases out@.len() - i,
    {
        assert(loaded[i as int].0 == out@[i as int].0);
        if out[i].0 == index {
            return true;
        }
        i += 1;
    }
    false
}

/// Whether the rules of a type are known.
fn is_known<P>(known: &HashMap<u64, MessageEvaluator<P>>, index: u64) -> (r: bool)
    ensures
        r == known@.dom().contains(index),
{
    broadcast use vstd::std_specs::hash::group_hash_axioms;

    known.contains_key(&index)
}

/// Puts the message types that a type has fields of behind those pending.
fn push_types(pending: &mut Vec<u64>, message: &MessageDescriptor)
    ensures
        final(pending)@ == old(pending)@ + types_in(*message),
{
    let ghost start = pending@;
    let mut i: usize = 0;
    assert(start + field_types(message.fields@, 0) =~= start);
    while i < message.fields.len()
        invariant
            i <= message.fields@.len(),
            pending@ =~= start + field_types(message.fields@, i as nat),
        decreases message.fields@.len() - i,
    {
        match message_type(&message.fields[i]) {
            Some(index) => {
                pending.push(index);
            },
            None => {},
        }
        i += 1;
    }
}

impl<'a, C: Engine> Builder<'a, C> {
    /// Compiles `root` and every message type reachable from it that
    /// `known` does not already hold.
    ///
    /// The whole closure is compiled up front, so a rule that does not
    /// compile anywhere below the root is reported before any message is
    /// validated.
    pub fn build_closure<E>(
        &self,
        root: u64,
        known: &HashMap<u64, MessageEvaluator<C::Program>>,
    ) -> (r: Result<Vec<(u64, MessageEvaluator<C::Program>)>, Error<E>>)
        ensures
            fallible_loaded(r) == self.source().closure::<E>(
                known@.dom(),
                seq![root],
                Seq::empty(),
            ),
    {
        let ghost source = self.source();
        let ghost held = known@.dom();
        let descriptors = self.descriptors();
        let count: u64 = descriptors.messages.len() as u64;
        let mut out: Vec<(u64, MessageEvaluator<C::Program>)> = Vec::new();
        let mut pending: Vec<u64> = Vec::new();
        pending.push(root);
        assert(pending@ =~= seq![root]);
        assert(loaded_of(out@) =~= Seq::empty());
        while pending.len() > 0
            invariant
                source == self.source(),
                *descriptors == source.descriptors,
                descriptors.messages@.len() == count,
                held == known@.dom(),
                source.closure::<E>(held, seq![root], Seq::empty()) == source.closure::<E>(
                    held,
                    pending@,
                    loaded_of(out@),
                ),
            decreases
                    missing(loaded_of(out@), descriptors.messages@.len()),
                    pending@.len(),
        {
            let ghost before = pending@;
            let ghost done = loaded_of(out@);
            proof {
                lemma_closure_step::<C, E>(source, held, before, done);
            }
            match pending.pop() {
                Some(index) => {
                    assert(before.last() == index && before.drop_last() == pending@);
                    if is_known(known, index) || has_loaded(&out, index) || index
                        >= descriptors.messages.len() as u64 {
                        continue ;
                    }
                    let message = &descriptors.messages[index as usize];
                    match self.build_message(message) {
                        Ok(evaluator) => {
                            let ghost entry = (index, evaluator@);
                            push_types(&mut pending, message);
                            out.push((index, evaluator));
                            proof {
                                assert(loaded_of(out@) =~= done.push(entry));
                                lemma_missing(
                                    done,
                                    index,
                                    entry.1,
                                    descriptors.messages@.len(),
                                );
                            }
                        },
                        Err(error) => return Err(error),
                    }
                },
                None => {},
            }
        }
        proof {
            lemma_closure_step::<C, E>(source, held, pending@, loaded_of(out@));
        }
        Ok(out)
    }
}

} // verus!
