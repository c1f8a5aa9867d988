//! The validator.

use crate::cel::{Engine, NoCel};
use crate::descriptors::{undotted, Descriptors, Schema};
use crate::error::{DescriptorError, Error, ErrorV, ValidationError};
use crate::files::FileHeadV;
use crate::options::OptionsReader;
use crate::pool::{
    add_file, decode_file, empty_pool, file_in, file_known, has_file, head_of, link_error,
    pool_files, pool_messages, pool_with, read_head,
};
use crate::protobuf::reads::fallible;
use crate::protobuf::{message_of, Entries, List, Message, Runtime, ValV};
use crate::registry::{
    describe_enums, describe_messages, enums_described, law_field_types_are_linked,
    law_linked_fields_stay, messages_described, resolve_schema, schema_of,
};
use crate::rules::build::laws::law_custom_rules_need_a_runtime;
use crate::rules::build::{loaded_of, Builder};
use crate::rules::closure::{
    is_loaded, law_closure_is_complete, law_closure_is_reached, law_failures_below_are_reported,
    lemma_closure_step,
    lemma_reachable_is_loaded, types_in, Loaded,
};
use crate::rules::endings::{
    law_fail_fast_reports_one, law_rule_errors, law_walk_errors, of_rules, of_walk,
};
use crate::rules::eval::{evaluators_of, reports, Walker};
use crate::rules::laws::{fast, law_fail_fast_agrees};
use crate::rules::outcome::{Out, Setting};
use crate::rules::parts::{
    finds, law_messages_are_walked_whole, law_reports_turn_paths_round, turned_round,
};
use crate::rules::plan::Source;
use crate::rules::presence::{law_required_fields_are_reported, missing, readable};
use crate::rules::standard::order::{now, Timestamp};
use crate::rules::standard::wellknown::Formats;
use crate::rules::{MessageEvaluator, MessageEvaluatorV};
use crate::text::concat;
use crate::validate::rules::{ExtensionRule, TypeOptions};
use crate::validate::wire::{encode_violations, serialized};
use crate::validate::{violations_of, Violation, ViolationV};
use std::collections::HashMap;
use std::sync::Arc;
use vstd::prelude::*;

verus! {

/// The compiled rules of every message type validated so far.
pub type CacheV<P> = Map<u64, MessageEvaluatorV<P>>;

/// The cache with the first `n` of the types compiled since.
pub open spec fn with_loaded<P>(cache: CacheV<P>, loaded: Loaded<P>, n: nat) -> CacheV<P>
    decreases n,
{
    if n == 0 {
        cache
    } else {
        with_loaded(cache, loaded, (n - 1) as nat).insert(loaded[n - 1].0, loaded[n - 1].1)
    }
}

/// What a validator goes by, and what it has compiled.
pub struct State<C: Engine, F> {
    pub source: Source<C>,
    pub formats: F,
    pub cache: CacheV<C::Program>,
}

impl<C: Engine, F: Formats> State<C, F> {
    /// The place of a message type, and the cache with its rules and those of
    /// every type reachable from it compiled.
    pub open spec fn compiled<E>(self, full_name: Seq<char>) -> Result<
        (u64, CacheV<C::Program>),
        ErrorV<E>,
    > {
        match self.source.descriptors.index_from(undotted(full_name), 0) {
            None => Err(ErrorV::Argument("unknown message type: "@ + full_name)),
            Some(index) => match self.source.closure::<E>(
                self.cache.dom(),
                seq![index],
                Seq::empty(),
            ) {
                Err(e) => Err(e),
                Ok(loaded) => Ok((index, with_loaded(self.cache, loaded, loaded.len()))),
            },
        }
    }

    /// What a validation with a cache goes by.
    pub open spec fn setting(
        self,
        cache: CacheV<C::Program>,
        now: int,
        fail_fast: bool,
    ) -> Setting<F, C> {
        Setting {
            schema: self.source.schema,
            enums: self.source.descriptors.numbers(),
            types: self.source.descriptors.types(),
            engine: self.source.engine,
            formats: self.formats,
            evaluators: cache,
            now,
            fast: fail_fast,
        }
    }

    /// The violations of a message at a point in time, or why there is no
    /// telling.
    pub open spec fn found<E>(
        self,
        message: ValV<E>,
        full_name: Seq<char>,
        now: int,
        fail_fast: bool,
    ) -> Out<E> {
        match self.compiled::<E>(full_name) {
            Err(e) => Err(e),
            Ok((index, cache)) => self.setting(cache, now, fail_fast).validated(
                message,
                full_name,
                cache[index],
            ),
        }
    }

    /// What validating a message at a point in time answers.
    pub open spec fn verdict<E>(
        self,
        message: ValV<E>,
        full_name: Seq<char>,
        now: int,
        fail_fast: bool,
    ) -> Result<(), ErrorV<E>> {
        match self.found(message, full_name, now, fail_fast) {
            Err(e) => Err(e),
            Ok(violations) => if violations.len() == 0 {
                Ok(())
            } else {
                Err(ErrorV::Validation(serialized(violations)))
            },
        }
    }

    /// What is left once a message of the type has been validated: where its
    /// rules compile, they stay compiled.
    pub open spec fn after<E>(self, full_name: Seq<char>) -> State<C, F> {
        match self.compiled::<E>(full_name) {
            Err(_) => self,
            Ok((_, cache)) => State { cache, ..self },
        }
    }

    /// Whether the descriptors are those of the linked types, and the path
    /// elements of rules are resolved from them.
    pub open spec fn registered(self) -> bool {
        &&& messages_described(self.source.descriptors.messages@, self.source.pool)
        &&& enums_described(self.source.descriptors.enums@, self.source.pool)
        &&& self.source.schema == schema_of(self.source.descriptors)
    }

    /// Whether the cache holds only registered types, and with each the types
    /// of its fields, so that no nested message is met whose rules are not
    /// there.
    pub open spec fn complete(self) -> bool {
        &&& forall|index: u64| #[trigger]
            self.cache.dom().contains(index) ==> self.source.there(index)
        &&& self.source.knows_fields(self.cache.dom())
    }

    /// Whether `next` is what is left once a file that links, and was not
    /// known, has been added: its types behind the others, and its options
    /// behind theirs.
    pub open spec fn grown(
        self,
        file: buffa_descriptor::generated::descriptor::FileDescriptorProto,
        bytes: Seq<u8>,
        options: Seq<TypeOptions>,
        extensions: Seq<ExtensionRule>,
        next: State<C, F>,
    ) -> bool {
        &&& next.source.pool == pool_with(self.source.pool, file)
        &&& pool_messages(self.source.pool).is_prefix_of(pool_messages(next.source.pool))
        &&& pool_files(next.source.pool) == match head_of(file).name {
            Some(name) => pool_files(self.source.pool).insert(name),
            None => pool_files(self.source.pool),
        }
        &&& next.registered()
        &&& next.source.descriptors.options@ == self.source.descriptors.options@ + options
        &&& next.source.descriptors.extensions@ == self.source.descriptors.extensions@ + extensions
        &&& next.source.engine == self.source.engine.with_file(bytes)
        &&& next.formats == self.formats
        &&& next.cache == self.cache
    }

    /// Whether adding a serialized file gets that answer, and leaves `next`
    /// behind: a file that does not parse, or cannot be registered, and one
    /// whose name is known, change nothing.
    pub open spec fn adds<O: OptionsReader>(
        self,
        reader: O,
        file: Seq<u8>,
        answer: Result<(), Seq<char>>,
        next: State<C, F>,
    ) -> bool {
        let engine = self.source.engine;
        match file_in(file) {
            Err(error) => answer == Err::<(), Seq<char>>(error) && next == self,
            Ok(proto) => if file_known(self.source.pool, proto) {
                answer is Ok && next == self
            } else {
                match head_of(proto).refused(pool_files(self.source.pool)) {
                    Some(error) => answer == Err::<(), Seq<char>>(error) && next == self,
                    None => match link_error(self.source.pool, proto) {
                        Some(error) => answer == Err::<(), Seq<char>>(error) && next == self,
                        None => answer == engine_answer(engine.accepted(file)) && self.grown(
                            proto,
                            file,
                            reader.types_in(file),
                            reader.extensions_in(file),
                            next,
                        ),
                    },
                }
            },
        }
    }

    /// Whether adding the first `n` files, each with success, leaves `next`
    /// behind.
    pub open spec fn loads<O: OptionsReader>(
        self,
        reader: O,
        files: Seq<Seq<u8>>,
        n: nat,
        next: State<C, F>,
    ) -> bool
        decreases n,
    {
        if n == 0 {
            next == self
        } else {
            let last = files[n - 1];
            exists|middle: State<C, F>|
                self.loads(reader, files, (n - 1) as nat, middle) && #[trigger] middle.adds(
                    reader,
                    last,
                    Ok(()),
                    next,
                )
        }
    }

    /// Whether the first `n` files are added with success, and the one behind
    /// them is refused.
    pub open spec fn stops<O: OptionsReader>(
        self,
        reader: O,
        files: Seq<Seq<u8>>,
        n: nat,
        error: Seq<char>,
    ) -> bool {
        &&& n < files.len()
        &&& exists|before: State<C, F>, after: State<C, F>|
            self.loads(reader, files, n, before) && #[trigger] before.adds(
                reader,
                files[n as int],
                Err(error),
                after,
            )
    }

    /// Whether adding the files in turn gives that: what is left behind, or
    /// why the first that is refused is.
    pub open spec fn gives<O: OptionsReader>(
        self,
        reader: O,
        files: Seq<Seq<u8>>,
        result: Result<State<C, F>, Seq<char>>,
    ) -> bool {
        match result {
            Ok(next) => self.loads(reader, files, files.len(), next),
            Err(error) => exists|n: nat| #[trigger] self.stops(reader, files, n, error),
        }
    }

    /// Whether nothing is registered or compiled.
    pub open spec fn is_blank(self, engine: C, formats: F) -> bool {
        &&& self.registered()
        &&& pool_files(self.source.pool) == Set::<Seq<char>>::empty()
        &&& self.source.descriptors.messages@.len() == 0
        &&& self.source.descriptors.enums@.len() == 0
        &&& self.source.descriptors.options@.len() == 0
        &&& self.source.descriptors.extensions@.len() == 0
        &&& self.source.engine == engine
        &&& self.formats == formats
        &&& self.cache == Map::<u64, MessageEvaluatorV<C::Program>>::empty()
    }

    /// Whether a file of that name has been registered.
    pub open spec fn knows_file(self, name: Seq<char>) -> bool {
        pool_files(self.source.pool).contains(name)
    }
}

/// The name of a serialized file, if it parses and has one.
pub open spec fn name_in(file: Seq<u8>) -> Option<Seq<char>> {
    match file_in(file) {
        Ok(proto) => head_of(proto).name,
        Err(_) => None,
    }
}

/// Files by their bytes.
pub open spec fn files_of(files: Seq<Vec<u8>>) -> Seq<Seq<u8>> {
    files.map_values(|file: Vec<u8>| file@)
}

/// Whether starting with nothing registered, and adding the files in turn,
/// gives that: the first that is not accepted ends it.
pub open spec fn opened<C: Engine, F: Formats, O: OptionsReader>(
    engine: C,
    formats: F,
    reader: O,
    files: Seq<Seq<u8>>,
    result: Result<State<C, F>, Seq<char>>,
) -> bool {
    exists|start: State<C, F>| #[trigger]
        start.is_blank(engine, formats) && start.gives(reader, files, result)
}

/// What an attempt to register a file gives.
pub open spec fn registration(r: Result<(), DescriptorError>) -> Result<(), Seq<char>> {
    match r {
        Ok(_) => Ok(()),
        Err(error) => Err(error@),
    }
}

/// What the engine answers a file, as an attempt to register it.
pub open spec fn engine_answer(answer: Result<(), crate::cel::ErrorV>) -> Result<(), Seq<char>> {
    match answer {
        Ok(_) => Ok(()),
        Err(error) => Err(error.text()),
    }
}

/// Whether the rules of a type are compiled.
fn holds<P>(cache: &HashMap<u64, MessageEvaluator<P>>, index: u64) -> (r: Option<
    &MessageEvaluator<P>,
>)
    ensures
        match r {
            Some(evaluator) => cache@.dom().contains(index) && *evaluator == cache@[index],
            None => !cache@.dom().contains(index),
        },
{
    broadcast use vstd::std_specs::hash::group_hash_axioms;

    cache.get(&index)
}

/// Puts the rules of a type in the cache.
fn keep<P>(cache: &mut HashMap<u64, MessageEvaluator<P>>, index: u64, evaluator: MessageEvaluator<P>)
    ensures
        evaluators_of(final(cache)@) == evaluators_of(old(cache)@).insert(index, evaluator@),
{
    broadcast use vstd::std_specs::hash::group_hash_axioms;

    let ghost before = cache@;
    let ghost added = evaluator;
    cache.insert(index, evaluator);
    assert(cache@ == before.insert(index, added));
    assert(evaluators_of(cache@) =~= evaluators_of(before).insert(index, added@));
}

/// A cache with nothing compiled.
fn nothing_compiled<P>() -> (r: HashMap<u64, MessageEvaluator<P>>)
    ensures
        r@ == Map::<u64, MessageEvaluator<P>>::empty(),
{
    broadcast use vstd::std_specs::hash::group_hash_axioms;

    HashMap::new()
}

/// The files before one that is refused, and why it is, say what adding them
/// all gives.
proof fn lemma_refusal<C: Engine, F: Formats, O: OptionsReader>(
    start: State<C, F>,
    reader: O,
    files: Seq<Seq<u8>>,
    n: nat,
    error: Seq<char>,
)
    requires
        start.stops(reader, files, n, error),
    ensures
        start.gives(reader, files, Err(error)),
{
    let refused: Result<State<C, F>, Seq<char>> = Err(error);
    assert(refused->Err_0 == error);
    assert(start.stops(reader, files, n, refused->Err_0));
}

/// Puts compiled types in the cache.
fn extend<P>(
    cache: &mut HashMap<u64, MessageEvaluator<P>>,
    built: Vec<(u64, MessageEvaluator<P>)>,
)
    ensures
        evaluators_of(final(cache)@) == with_loaded(
            evaluators_of(old(cache)@),
            loaded_of(built@),
            built@.len(),
        ),
{
    let ghost start = evaluators_of(cache@);
    let ghost loaded = loaded_of(built@);
    let ghost n = built@.len();
    let ghost mut i = 0int;
    let mut left = built;
    while left.len() > 0
        invariant
            0 <= i <= n,
            n == built@.len(),
            left@ =~= built@.skip(i),
            loaded == loaded_of(built@),
            evaluators_of(cache@) == with_loaded(start, loaded, i as nat),
        decreases left@.len(),
    {
        let (index, evaluator) = left.remove(0);
        proof {
            assert(built@[i] == (index, evaluator));
            assert(loaded[i] == (index, evaluator@));
            i = i + 1;
        }
        keep(cache, index, evaluator);
    }
}

/// What is compiled is in the cache from there on.
proof fn lemma_with_loaded<P>(cache: CacheV<P>, loaded: Loaded<P>, n: nat, index: u64)
    requires
        n <= loaded.len(),
        cache.dom().contains(index) || is_loaded(loaded.take(n as int), index),
    ensures
        with_loaded(cache, loaded, n).dom().contains(index),
    decreases n,
{
    if n > 0 && loaded[n - 1].0 != index {
        if !cache.dom().contains(index) {
            let front = loaded.take(n as int);
            let i = choose|i: int| 0 <= i < front.len() && (#[trigger] front[i]).0 == index;
            assert(loaded.take(n - 1)[i].0 == index);
        }
        lemma_with_loaded(cache, loaded, (n - 1) as nat, index);
    } else if n == 0 {
        if !cache.dom().contains(index) {
            let front = loaded.take(0);
            let i = choose|i: int| 0 <= i < front.len() && (#[trigger] front[i]).0 == index;
            assert(false);
        }
    }
}

/// The cache stays complete when more types are registered behind the others.
proof fn lemma_grown<C: Engine, F: Formats>(before: State<C, F>, after: State<C, F>)
    requires
        before.registered(),
        after.registered(),
        before.complete(),
        after.cache == before.cache,
        pool_messages(before.source.pool).is_prefix_of(pool_messages(after.source.pool)),
    ensures
        after.complete(),
{
    let old_types = before.source.descriptors.messages@;
    let types = after.source.descriptors.messages@;
    assert(old_types.len() <= types.len());
    assert forall|from: u64, to: u64|
        before.cache.dom().contains(from) && #[trigger] after.source.has_field_of(from, to)
            && after.source.there(to) implies after.cache.dom().contains(to) by {
        law_linked_fields_stay(
            old_types,
            before.source.pool,
            types,
            after.source.pool,
            from as int,
        );
        lemma_types_linked(before, from, to);
        assert(before.source.has_field_of(from, to));
    }
}

/// The types of a registered type's fields are registered.
proof fn lemma_types_linked<C: Engine, F: Formats>(state: State<C, F>, from: u64, to: u64)
    requires
        state.registered(),
        state.source.there(from),
        types_in(state.source.at(from)).contains(to),
    ensures
        state.source.there(to),
{
    assert(state.source.descriptors.messages.len() == state.source.descriptors.messages@.len());
    law_field_types_are_linked(
        state.source.descriptors.messages@,
        state.source.pool,
        from as int,
        to,
    );
}

/// Validates Protobuf messages against the rules in their descriptors.
///
/// Descriptors are registered serialized, and a message is read in place
/// through a [`Runtime`] the caller implements over its own Protobuf
/// runtime.
pub struct Validator<C: Engine, F, O> {
    pool: Arc<buffa_descriptor::DescriptorPool>,
    descriptors: Descriptors,
    schema: Schema,
    engine: C,
    formats: F,
    reader: O,
    cache: HashMap<u64, MessageEvaluator<C::Program>>,
}

impl<C: Engine, F: Formats, O: OptionsReader> Validator<C, F, O> {
    /// What the validator goes by, and what it has compiled.
    pub closed spec fn state(self) -> State<C, F> {
        State {
            source: Source {
                descriptors: self.descriptors,
                pool: *self.pool,
                schema: self.schema@,
                engine: self.engine,
            },
            formats: self.formats,
            cache: evaluators_of(self.cache@),
        }
    }

    /// What reads the options of files.
    pub closed spec fn reader(self) -> O {
        self.reader
    }

    /// A validator with no file registered.
    fn blank(engine: C, formats: F, reader: O) -> (r: Validator<C, F, O>)
        ensures
            r.state().is_blank(engine, formats),
            r.reader() == reader,
    {
        let pool = empty_pool();
        let descriptors = Descriptors {
            messages: describe_messages(&pool),
            enums: describe_enums(&pool),
            options: Vec::new(),
            extensions: Vec::new(),
        };
        let schema = resolve_schema(&descriptors);
        let validator = Validator {
            pool,
            descriptors,
            schema,
            engine,
            formats,
            reader,
            cache: nothing_compiled(),
        };
        assert(validator.state().cache =~= Map::empty());
        validator
    }

    /// Creates a validator that knows the `buf.validate` schema: `schema`
    /// holds its files, serialized, with what they import before them.
    ///
    /// Use [`Validator::add_file_descriptor_bytes`] to register file
    /// descriptors for the messages you will validate.
    ///
    /// Fails as that does where a file of the schema is not accepted.
    pub fn new(engine: C, formats: F, reader: O, schema: &Vec<Vec<u8>>) -> (r: Result<
        Validator<C, F, O>,
        DescriptorError,
    >)
        ensures
            match r {
                Ok(validator) => {
                    &&& opened(
                        engine,
                        formats,
                        reader,
                        files_of(schema@),
                        Ok::<State<C, F>, Seq<char>>(validator.state()),
                    )
                    &&& validator.reader() == reader
                    &&& validator.state().registered()
                    &&& validator.state().complete()
                    &&& validator.state().formats == formats
                    &&& validator.state().cache == Map::<
                        u64,
                        MessageEvaluatorV<C::Program>,
                    >::empty()
                    &&& forall|i: int|
                        0 <= i < schema@.len() ==> (name_in((#[trigger] schema@[i])@) matches Some(
                            name,
                        ) ==> validator.state().knows_file(name))
                },
                Err(error) => opened(
                    engine,
                    formats,
                    reader,
                    files_of(schema@),
                    Err::<State<C, F>, Seq<char>>(error@),
                ),
            },
    {
        let ghost files = files_of(schema@);
        let mut validator = Validator::blank(engine, formats, reader);
        let ghost start = validator.state();
        let mut i: usize = 0;
        while i < schema.len()
            invariant
                i <= schema@.len(),
                files == files_of(schema@),
                start.is_blank(engine, formats),
                start.loads(reader, files, i as nat, validator.state()),
                validator.reader() == reader,
                validator.state().registered(),
                validator.state().complete(),
                validator.state().formats == formats,
                validator.state().cache == Map::<u64, MessageEvaluatorV<C::Program>>::empty(),
                forall|j: int|
                    0 <= j < i ==> (name_in((#[trigger] schema@[j])@) matches Some(name)
                        ==> validator.state().knows_file(name)),
            decreases schema@.len() - i,
        {
            let ghost before = validator.state();
            assert(files[i as int] == schema@[i as int]@);
            match validator.add_file_descriptor_bytes(schema[i].as_slice()) {
                Ok(()) => {},
                Err(error) => {
                    proof {
                        let n = i as nat;
                        assert(before.adds(
                            reader,
                            files[n as int],
                            Err(error@),
                            validator.state(),
                        ));
                        assert(start.stops(reader, files, n, error@));
                        lemma_refusal(start, reader, files, n, error@);
                    }
                    return Err(error);
                },
            }
            proof {
                let next = (i + 1) as nat;
                assert(start.loads(reader, files, (next - 1) as nat, before));
                assert(before.adds(reader, files[next - 1], Ok(()), validator.state()));
                assert(start.loads(reader, files, next, validator.state()));
            }
            i += 1;
        }
        Ok(validator)
    }

    /// Registers a serialized `google.protobuf.FileDescriptorProto`.
    ///
    /// A file's imports must be registered before the file itself. Adding a
    /// file whose name is already known is a no-op, so descriptors may be
    /// re-added freely.
    ///
    /// Fails if the bytes do not parse, the file is invalid, or one of its
    /// imports has not been registered. A file with a full name that begins
    /// with a dot is invalid.
    pub fn add_file_descriptor_bytes(&mut self, file: &[u8]) -> (r: Result<(), DescriptorError>)
        ensures
            old(self).state().adds(
                old(self).reader(),
                file@,
                registration(r),
                final(self).state(),
            ),
            final(self).reader() == old(self).reader(),
            old(self).state().registered() ==> final(self).state().registered(),
            old(self).state().registered() && old(self).state().complete()
                ==> final(self).state().complete(),
    {
        let proto = match decode_file(file) {
            Ok(proto) => proto,
            Err(error) => return Err(DescriptorError::new(error)),
        };
        let ghost before = self.state();
        let head = read_head(&proto);
        match &head.name {
            Some(name) => if has_file(&self.pool, name.as_str()) {
                return Ok(());
            },
            None => {},
        }
        match head.refused(&self.pool) {
            Some(error) => return Err(DescriptorError::new(error)),
            None => {},
        }
        match add_file(&mut self.pool, proto) {
            Ok(()) => {},
            Err(error) => return Err(DescriptorError::new(error)),
        }
        let mut read = self.reader.read(file);
        self.descriptors.options.append(&mut read.types);
        self.descriptors.extensions.append(&mut read.extensions);
        self.descriptors.messages = describe_messages(&self.pool);
        self.descriptors.enums = describe_enums(&self.pool);
        self.schema = resolve_schema(&self.descriptors);
        let answer = self.engine.add_file(file);
        proof {
            if before.registered() && before.complete() {
                lemma_grown(before, self.state());
            }
        }
        match answer {
            Ok(()) => Ok(()),
            Err(error) => Err(DescriptorError::new(error.message().to_owned())),
        }
    }

    /// The place of a message type.
    fn message_index<E>(&self, full_name: &str) -> (r: Result<u64, Error<E>>)
        ensures
            match self.state().source.descriptors.index_from(undotted(full_name@), 0) {
                Some(index) => fallible(r) == Ok::<u64, ErrorV<E>>(index)
                    && self.state().source.there(index),
                None => fallible(r) == Err::<u64, ErrorV<E>>(
                    ErrorV::Argument("unknown message type: "@ + full_name@),
                ),
            },
    {
        match self.descriptors.message_index(full_name) {
            Some(index) => Ok(index),
            None => Err(Error::Argument(concat("unknown message type: ", full_name))),
        }
    }

    /// Compiles the rules of the type at a place, and of every type reachable
    /// from it, into the cache.
    ///
    /// Rules compile lazily, on the first validation of a type, the whole
    /// reachable closure at once. Failures are not cached and are reported
    /// again on every call.
    fn evaluators<E>(&mut self, index: u64) -> (r: Result<(), Error<E>>)
        requires
            old(self).state().source.there(index),
        ensures
            final(self).reader() == old(self).reader(),
            ({
                let before = old(self).state();
                let loaded = before.source.closure::<E>(
                    before.cache.dom(),
                    seq![index],
                    Seq::empty(),
                );
                match loaded {
                    Ok(loaded) => r is Ok && final(self).state() == (State {
                        cache: with_loaded(before.cache, loaded, loaded.len()),
                        ..before
                    }) && final(self).state().cache.dom().contains(index),
                    Err(e) => fallible(r) == Err::<(), ErrorV<E>>(e) && final(self).state()
                        == before,
                }
            }),
    {
        let ghost before = self.state();
        let ghost held = self.cache@;
        let count: usize = self.descriptors.messages.len();
        let built = {
            let builder = Builder::new(&self.descriptors, &self.pool, &self.schema, &self.engine);
            builder.build_closure(index, &self.cache)
        };
        assert(held.dom() =~= before.cache.dom());
        match built {
            Ok(built) => {
                let ghost loaded = loaded_of(built@);
                extend(&mut self.cache, built);
                proof {
                    law_closure_is_complete::<C, E>(before.source, before.cache.dom(), index);
                    assert(loaded.take(loaded.len() as int) =~= loaded);
                    lemma_with_loaded(before.cache, loaded, loaded.len(), index);
                }
                Ok(())
            },
            Err(error) => Err(error),
        }
    }

    /// The violations of a message at a point in time.
    pub fn run_at<R: Runtime>(
        &mut self,
        full_name: &str,
        message: &R::Message,
        fail_fast: bool,
        now: Timestamp,
    ) -> (r: Result<Vec<Violation>, Error<R::Error>>) where
        R::Message: Message<R>,
        R::List: List<R>,
        R::Entries: Entries<R>,

        ensures
            reports(r) == old(self).state().found(
                message_of::<R>(*message),
                full_name@,
                now.0 as int,
                fail_fast,
            ),
            final(self).state() == old(self).state().after::<R::Error>(full_name@),
            old(self).state().complete() ==> final(self).state().complete(),
            final(self).reader() == old(self).reader(),
    {
        let ghost before = self.state();
        proof {
            if before.complete() {
                law_reachable_types_are_compiled::<C, F, R::Error>(before, full_name@);
            }
        }
        let index = match self.message_index(full_name) {
            Ok(index) => index,
            Err(error) => return Err(error),
        };
        match self.evaluators(index) {
            Ok(()) => {},
            Err(error) => return Err(error),
        }
        let walker = Walker::<R, F, C>::new(
            &self.descriptors,
            &self.schema,
            &self.engine,
            &self.formats,
            &self.cache,
            now,
            fail_fast,
        );
        match holds(&self.cache, index) {
            Some(evaluator) => walker.validate(message, full_name, evaluator),
            None => vstd::pervasive::unreached(),
        }
    }

    /// Validates a message at a point in time.
    pub fn validate_at<R: Runtime>(
        &mut self,
        full_name: &str,
        message: &R::Message,
        fail_fast: bool,
        now: Timestamp,
    ) -> (r: Result<(), Error<R::Error>>) where
        R::Message: Message<R>,
        R::List: List<R>,
        R::Entries: Entries<R>,

        ensures
            fallible(r) == old(self).state().verdict(
                message_of::<R>(*message),
                full_name@,
                now.0 as int,
                fail_fast,
            ),
            final(self).state() == old(self).state().after::<R::Error>(full_name@),
            old(self).state().complete() ==> final(self).state().complete(),
            final(self).reader() == old(self).reader(),
    {
        match self.run_at::<R>(full_name, message, fail_fast, now) {
            Ok(violations) => {
                if violations.len() == 0 {
                    assert(violations_of(violations@).len() == 0);
                    return Ok(());
                }
                Err(Error::Validation(ValidationError::new(encode_violations(&violations))))
            },
            Err(error) => Err(error),
        }
    }

    /// Validates a message read in place through a [`Runtime`].
    ///
    /// `full_name` is the fully-qualified message type; its descriptor must
    /// already be registered. With `fail_fast` validation stops at the first
    /// violation, rather than accumulating them all. The clock is read once,
    /// so that all rules about the time agree on it.
    ///
    /// A message that breaks its rules returns [`Error::Validation`],
    /// carrying the violations as a serialized `buf.validate.Violations`.
    /// The other variants mean validation itself failed: an unknown type or
    /// unparsable payload ([`Error::Argument`]), rules that do not compile
    /// ([`Error::Compilation`]), a rule failing to evaluate
    /// ([`Error::Evaluation`]), or a message that could not be read
    /// ([`Error::Read`]).
    pub fn validate_message<R: Runtime>(
        &mut self,
        full_name: &str,
        message: &R::Message,
        fail_fast: bool,
    ) -> (r: Result<(), Error<R::Error>>) where
        R::Message: Message<R>,
        R::List: List<R>,
        R::Entries: Entries<R>,

        ensures
            exists|now: int|
                -18446744073709551616000000000 < now < 18446744073709551616000000000
                    && fallible(r) == #[trigger] old(self).state().verdict(
                    message_of::<R>(*message),
                    full_name@,
                    now,
                    fail_fast,
                ),
            final(self).state() == old(self).state().after::<R::Error>(full_name@),
            old(self).state().complete() ==> final(self).state().complete(),
            final(self).reader() == old(self).reader(),
    {
        self.validate_at::<R>(full_name, message, fail_fast, now())
    }
}

/// Once a file has been added, adding one of the same name again changes
/// nothing, and succeeds.
pub proof fn law_files_are_added_once<C: Engine, F: Formats, O: OptionsReader>(
    state: State<C, F>,
    reader: O,
    file: Seq<u8>,
    next: State<C, F>,
    again: Seq<u8>,
    answer: Result<(), Seq<char>>,
    last: State<C, F>,
)
    requires
        state.adds(reader, file, Ok(()), next),
        name_in(file) is Some,
        name_in(again) == name_in(file),
        next.adds(reader, again, answer, last),
    ensures
        next.knows_file(name_in(file)->Some_0),
        answer is Ok,
        last == next,
{
}

/// A file that has been added can be imported from there on: it is never the
/// import that is missing, whatever is added in between.
pub proof fn law_added_files_can_be_imported<C: Engine, F: Formats, O: OptionsReader>(
    state: State<C, F>,
    reader: O,
    file: Seq<u8>,
    answer: Result<(), Seq<char>>,
    next: State<C, F>,
    name: Seq<char>,
    head: FileHeadV,
)
    requires
        state.adds(reader, file, answer, next),
        state.knows_file(name) || (answer is Ok && name_in(file) == Some(name)),
    ensures
        next.knows_file(name),
        head.missing_import(pool_files(next.source.pool), 0) != Some(name),
{
    lemma_missing_import(head, pool_files(next.source.pool), 0);
}

/// The import that is missing is not there.
proof fn lemma_missing_import(head: FileHeadV, files: Set<Seq<char>>, i: int)
    ensures
        head.missing_import(files, i) matches Some(import) ==> !files.contains(import),
    decreases head.imports.len() - i,
{
    if 0 <= i < head.imports.len() {
        lemma_missing_import(head, files, i + 1);
    }
}

/// Once a type has been validated, validating it again compiles nothing, and
/// answers as the first time did.
pub proof fn law_rules_are_compiled_once<C: Engine, F: Formats, E>(
    state: State<C, F>,
    message: ValV<E>,
    full_name: Seq<char>,
    now: int,
    fail_fast: bool,
)
    ensures
        state.after::<E>(full_name).after::<E>(full_name) == state.after::<E>(full_name),
        state.after::<E>(full_name).verdict(message, full_name, now, fail_fast) == state.verdict(
            message,
            full_name,
            now,
            fail_fast,
        ),
{
    assert(state.source.descriptors.messages.len() == state.source.descriptors.messages@.len());
    if let Ok((index, cache)) = state.compiled::<E>(full_name) {
        let loaded = state.source.closure::<E>(
            state.cache.dom(),
            seq![index],
            Seq::empty(),
        )->Ok_0;
        crate::registry::lemma_found(state.source.descriptors, undotted(full_name), 0);
        law_closure_is_complete::<C, E>(state.source, state.cache.dom(), index);
        assert(loaded.take(loaded.len() as int) =~= loaded);
        lemma_with_loaded(state.cache, loaded, loaded.len(), index);
        let none: Loaded<C::Program> = Seq::empty();
        lemma_closure_step::<C, E>(state.source, cache.dom(), seq![index], none);
        assert(seq![index].drop_last() =~= Seq::<u64>::empty());
        lemma_closure_step::<C, E>(state.source, cache.dom(), Seq::empty(), none);
        assert(with_loaded(cache, none, 0) == cache);
    }
}

/// A type whose rules do not compile is reported every time, and leaves
/// nothing behind.
pub proof fn law_failures_are_not_cached<C: Engine, F: Formats, E>(
    state: State<C, F>,
    message: ValV<E>,
    full_name: Seq<char>,
    now: int,
    fail_fast: bool,
)
    requires
        state.compiled::<E>(full_name) is Err,
    ensures
        state.after::<E>(full_name) == state,
        state.verdict(message, full_name, now, fail_fast) == Err::<(), ErrorV<E>>(
            state.compiled::<E>(full_name)->Err_0,
        ),
{
}

/// A message is valid exactly when it has no violations.
pub proof fn law_valid_means_no_violations<C: Engine, F: Formats, E>(
    state: State<C, F>,
    message: ValV<E>,
    full_name: Seq<char>,
    now: int,
    fail_fast: bool,
)
    ensures
        state.verdict(message, full_name, now, fail_fast) is Ok <==> state.found(
            message,
            full_name,
            now,
            fail_fast,
        ) == Ok::<Seq<ViolationV>, ErrorV<E>>(Seq::empty()),
{
    if let Ok(violations) = state.found(message, full_name, now, fail_fast) {
        if violations.len() == 0 {
            assert(violations =~= Seq::empty());
        }
    }
}

/// Violations are what a validation that was completed answers, and nothing
/// else: rules that do not compile, and a walk that cannot be completed, are
/// answered with errors of other kinds.
pub proof fn law_violations_are_found<C: Engine, F: Formats, E>(
    state: State<C, F>,
    message: ValV<E>,
    full_name: Seq<char>,
    now: int,
    fail_fast: bool,
)
    ensures
        match state.found(message, full_name, now, fail_fast) {
            Ok(violations) => {
                &&& state.verdict(message, full_name, now, fail_fast) is Err
                    <==> violations.len() > 0
                &&& violations.len() > 0 ==> state.verdict(message, full_name, now, fail_fast)
                    == Err::<(), ErrorV<E>>(ErrorV::Validation(serialized(violations)))
                &&& fail_fast ==> violations.len() <= 1
            },
            Err(e) => {
                &&& state.verdict(message, full_name, now, fail_fast) == Err::<(), ErrorV<E>>(e)
                &&& !(e is Validation)
                &&& state.compiled::<E>(full_name) is Ok ==> of_walk(e)
                &&& state.compiled::<E>(full_name) is Err ==> if state.source.descriptors.index_from(
                    undotted(full_name),
                    0,
                ) is Some {
                    of_rules(state.source, e)
                } else {
                    e is Argument
                }
            },
        },
{
    match state.compiled::<E>(full_name) {
        Ok((index, cache)) => {
            let setting = state.setting(cache, now, fail_fast);
            law_walk_errors(setting, message, full_name, cache[index]);
            if fail_fast {
                law_fail_fast_reports_one(setting, message, full_name, cache[index]);
            }
        },
        Err(e) => {
            if let Some(index) = state.source.descriptors.index_from(undotted(full_name), 0) {
                law_closure_is_reached::<C, E>(state.source, state.cache.dom(), index);
                let failed = choose|failed: u64| #[trigger]
                    state.source.reachable(index, failed) && state.source.there(failed)
                        && !state.cache.dom().contains(failed) && state.source.message::<E>(
                        state.source.at(failed),
                    ) == Err::<MessageEvaluatorV<C::Program>, ErrorV<E>>(e);
                law_rule_errors::<C, E>(state.source, state.source.at(failed));
            }
        },
    }
}

/// Of a message that breaks its rules, failing fast answers with the
/// violation that a full validation reports first, and that one alone. Where
/// neither validation fails otherwise, the two agree on whether the message
/// is valid.
pub proof fn law_fail_fast_reports_the_first_violation<C: Engine, F: Formats, E>(
    state: State<C, F>,
    message: ValV<E>,
    full_name: Seq<char>,
    now: int,
)
    ensures
        match state.verdict(message, full_name, now, false) {
            Ok(_) => state.verdict(message, full_name, now, true) is Ok,
            Err(ErrorV::Validation(bytes)) => exists|violations: Seq<ViolationV>|
                violations.len() > 0 && bytes == #[trigger] serialized(violations) && state.found(
                    message,
                    full_name,
                    now,
                    false,
                ) == Ok::<Seq<ViolationV>, ErrorV<E>>(violations) && state.verdict(
                    message,
                    full_name,
                    now,
                    true,
                ) == Err::<(), ErrorV<E>>(ErrorV::Validation(serialized(seq![violations[0]]))),
            Err(_) => state.verdict(message, full_name, now, true) is Err,
        },
{
    law_violations_are_found(state, message, full_name, now, false);
    law_violations_are_found(state, message, full_name, now, true);
    if let Ok((index, cache)) = state.compiled::<E>(full_name) {
        let setting = state.setting(cache, now, false);
        law_fail_fast_agrees(setting, message, full_name, cache[index]);
        assert(fast(setting) == state.setting(cache, now, true));
        if let Ok(violations) = state.found(message, full_name, now, false) {
            if violations.len() > 0 {
                let first = state.found(message, full_name, now, true)->Ok_0;
                assert(first =~= seq![violations[0]]);
                assert(state.verdict(message, full_name, now, false) == Err::<(), ErrorV<E>>(
                    ErrorV::Validation(serialized(violations)),
                ));
            }
        }
    }
}

/// Without a CEL runtime, a custom rule of a type, or of a type reachable
/// from it, that was not compiled before, is answered with a compilation
/// error, where the `buf.validate` schema is registered.
pub proof fn law_custom_rules_are_reported_without_a_runtime<F: Formats, E>(
    state: State<NoCel, F>,
    message: ValV<E>,
    full_name: Seq<char>,
    now: int,
    fail_fast: bool,
    index: u64,
)
    requires
        state.complete(),
        state.source.knows_rules(),
        state.source.descriptors.index_from(undotted(full_name), 0) matches Some(root)
            && state.source.reachable(root, index),
        state.source.there(index),
        !state.cache.dom().contains(index),
        state.source.has_custom_rules::<E>(state.source.at(index)),
    ensures
        state.verdict(message, full_name, now, fail_fast) matches Err(e) && e is Compilation,
        state.after::<E>(full_name) == state,
{
    let root = state.source.descriptors.index_from(undotted(full_name), 0)->Some_0;
    assert(state.source.descriptors.messages.len() == state.source.descriptors.messages@.len());
    crate::registry::lemma_found(state.source.descriptors, undotted(full_name), 0);
    law_custom_rules_need_a_runtime::<E>(state.source, state.source.at(index));
    law_failures_below_are_reported::<NoCel, E>(
        state.source,
        state.cache.dom(),
        root,
        index,
    );
    law_violations_are_found(state, message, full_name, now, fail_fast);
}

/// The cache holds what the first `n` of the types compiled since are.
proof fn lemma_with_loaded_only<P>(cache: CacheV<P>, loaded: Loaded<P>, n: nat, index: u64)
    requires
        n <= loaded.len(),
        with_loaded(cache, loaded, n).dom().contains(index),
    ensures
        cache.dom().contains(index) || is_loaded(loaded, index),
    decreases n,
{
    if n > 0 {
        if loaded[n - 1].0 != index {
            lemma_with_loaded_only(cache, loaded, (n - 1) as nat, index);
        }
    }
}

/// What the cache held it holds, unchanged, where the types compiled since
/// were not in it.
proof fn lemma_with_loaded_keeps<P>(cache: CacheV<P>, loaded: Loaded<P>, n: nat, index: u64)
    requires
        n <= loaded.len(),
        cache.dom().contains(index),
        forall|i: int| 0 <= i < loaded.len() ==> !cache.dom().contains((#[trigger] loaded[i]).0),
    ensures
        with_loaded(cache, loaded, n).dom().contains(index),
        with_loaded(cache, loaded, n)[index] == cache[index],
    decreases n,
{
    if n > 0 {
        assert(!cache.dom().contains(loaded[n - 1].0));
        lemma_with_loaded_keeps(cache, loaded, (n - 1) as nat, index);
    }
}

/// Where the rules of a type compile, the cache then holds them, those of
/// every type reachable from it, and all that it held before, unchanged, and
/// stays complete. Where they do not, the cache is as it was, and the same
/// error comes again.
pub proof fn law_reachable_types_are_compiled<C: Engine, F: Formats, E>(
    state: State<C, F>,
    full_name: Seq<char>,
)
    requires
        state.complete(),
    ensures
        match state.compiled::<E>(full_name) {
            Ok((index, cache)) => {
                &&& state.source.there(index)
                &&& state.source.at(index).full_name@ == undotted(full_name)
                &&& cache.dom().contains(index)
                &&& forall|to: u64| #[trigger]
                    state.source.reachable(index, to) && state.source.there(to)
                        ==> cache.dom().contains(to)
                &&& forall|to: u64|
                    state.cache.dom().contains(to) ==> #[trigger] cache.dom().contains(to)
                        && cache[to] == state.cache[to]
                &&& state.after::<E>(full_name) == (State { cache, ..state })
                &&& state.after::<E>(full_name).complete()
            },
            Err(e) => {
                &&& state.after::<E>(full_name) == state
                &&& state.after::<E>(full_name).compiled::<E>(full_name) == Err::<
                    (u64, CacheV<C::Program>),
                    ErrorV<E>,
                >(e)
            },
        },
{
    assert(state.source.descriptors.messages.len() == state.source.descriptors.messages@.len());
    if let Ok((index, cache)) = state.compiled::<E>(full_name) {
        let source = state.source;
        let known = state.cache.dom();
        let loaded = source.closure::<E>(known, seq![index], Seq::empty())->Ok_0;
        crate::registry::lemma_found(source.descriptors, undotted(full_name), 0);
        law_closure_is_complete::<C, E>(source, known, index);
        law_closure_is_reached::<C, E>(source, known, index);
        assert(loaded.take(loaded.len() as int) =~= loaded);
        lemma_with_loaded(state.cache, loaded, loaded.len(), index);
        assert forall|to: u64| #[trigger]
            source.reachable(index, to) && source.there(to) implies cache.dom().contains(to) by {
            lemma_reachable_is_loaded::<C, E>(source, known, index, to);
            lemma_with_loaded(state.cache, loaded, loaded.len(), to);
        }
        assert forall|to: u64| state.cache.dom().contains(to) implies #[trigger] cache.dom().contains(
            to,
        ) && cache[to] == state.cache[to] by {
            lemma_with_loaded_keeps(state.cache, loaded, loaded.len(), to);
        }
        assert forall|from: u64| #[trigger] cache.dom().contains(from) implies source.there(
            from,
        ) by {
            lemma_with_loaded_only(state.cache, loaded, loaded.len(), from);
            if !known.contains(from) {
                let i = choose|i: int| 0 <= i < loaded.len() && (#[trigger] loaded[i]).0 == from;
                assert(source.there(loaded[i].0));
            }
        }
        assert forall|from: u64, to: u64|
            cache.dom().contains(from) && #[trigger] source.has_field_of(from, to)
                && source.there(to) implies cache.dom().contains(to) by {
            lemma_with_loaded_only(state.cache, loaded, loaded.len(), from);
            if !known.contains(from) {
                let i = choose|i: int| 0 <= i < loaded.len() && (#[trigger] loaded[i]).0 == from;
                assert(source.covered(known, loaded, from));
                let types = types_in(source.at(from));
                let j = choose|j: int| 0 <= j < types.len() && types[j] == to;
                assert(source.there(types[j]));
            }
            lemma_with_loaded(state.cache, loaded, loaded.len(), to);
        }
    }
}

/// A message of a type that is not registered is refused, under the name that
/// was asked for.
pub proof fn law_unknown_types_are_refused<C: Engine, F: Formats, E>(
    state: State<C, F>,
    message: ValV<E>,
    full_name: Seq<char>,
    now: int,
    fail_fast: bool,
)
    requires
        full_name.len() == 0 || full_name[0] != '.',
        forall|j: int|
            0 <= j < state.source.descriptors.messages@.len() ==> (
            #[trigger] state.source.descriptors.messages@[j]).full_name@ != full_name,
    ensures
        state.verdict(message, full_name, now, fail_fast) == Err::<(), ErrorV<E>>(
            ErrorV::Argument("unknown message type: "@ + full_name),
        ),
        state.after::<E>(full_name) == state,
{
    assert(state.source.descriptors.messages.len() == state.source.descriptors.messages@.len());
    crate::registry::lemma_found(state.source.descriptors, full_name, 0);
}

/// A validation goes by what the validator holds and what it was asked: the
/// time and whether to stop early are those of the call, the rest is the
/// validator's own.
pub proof fn law_validations_go_by_the_call<C: Engine, F: Formats>(
    state: State<C, F>,
    cache: CacheV<C::Program>,
    now: int,
    fail_fast: bool,
)
    ensures
        ({
            let setting = state.setting(cache, now, fail_fast);
            &&& setting.now == now
            &&& setting.fast == fail_fast
            &&& setting.evaluators == cache
            &&& setting.schema == state.source.schema
            &&& setting.engine == state.source.engine
            &&& setting.formats == state.formats
            &&& setting.enums.len() == state.source.descriptors.enums@.len()
            &&& forall|i: int|
                0 <= i < setting.enums.len() ==> #[trigger] setting.enums[i]
                    == state.source.descriptors.enums@[i].values@
            &&& setting.types.len() == state.source.descriptors.messages@.len()
            &&& forall|i: int|
                0 <= i < setting.types.len() ==> #[trigger] setting.types[i]
                    == state.source.descriptors.messages@[i].full_name@
        }),
{
}

/// What was compiled last under a place is what the cache holds there.
proof fn lemma_with_loaded_holds<C: Engine, E>(
    source: Source<C>,
    cache: CacheV<C::Program>,
    loaded: Loaded<C::Program>,
    n: nat,
    index: u64,
)
    requires
        n <= loaded.len(),
        forall|i: int|
            0 <= i < loaded.len() ==> source.message::<E>(
                source.at((#[trigger] loaded[i]).0),
            ) == Ok::<MessageEvaluatorV<C::Program>, ErrorV<E>>(loaded[i].1),
        with_loaded(cache, loaded, n).dom().contains(index),
        !cache.dom().contains(index),
    ensures
        source.message::<E>(source.at(index)) == Ok::<MessageEvaluatorV<C::Program>, ErrorV<E>>(
            with_loaded(cache, loaded, n)[index],
        ),
    decreases n,
{
    if n > 0 {
        if loaded[n - 1].0 != index {
            lemma_with_loaded_holds::<C, E>(source, cache, loaded, (n - 1) as nat, index);
        } else {
            assert(source.message::<E>(source.at(loaded[n - 1].0)) is Ok);
        }
    }
}

/// The rules that are compiled for a type are those that its descriptors
/// make, and a message is walked by the rules of its own type.
pub proof fn law_messages_are_checked_by_the_rules_of_their_type<C: Engine, F: Formats, E>(
    state: State<C, F>,
    message: ValV<E>,
    full_name: Seq<char>,
    now: int,
    fail_fast: bool,
    index: u64,
)
    requires
        state.source.descriptors.index_from(undotted(full_name), 0) == Some(index),
        !state.cache.dom().contains(index),
        state.compiled::<E>(full_name) is Ok,
    ensures
        state.source.at(index).full_name@ == undotted(full_name),
        state.source.message::<E>(state.source.at(index)) is Ok,
        state.found(message, full_name, now, fail_fast) == state.setting(
            state.compiled::<E>(full_name)->Ok_0.1,
            now,
            fail_fast,
        ).validated(message, full_name, state.source.message::<E>(state.source.at(index))->Ok_0),
{
    assert(state.source.descriptors.messages.len() == state.source.descriptors.messages@.len());
    crate::registry::lemma_found(state.source.descriptors, undotted(full_name), 0);
    let known = state.cache.dom();
    let loaded = state.source.closure::<E>(known, seq![index], Seq::empty())->Ok_0;
    law_closure_is_complete::<C, E>(state.source, known, index);
    assert(loaded.take(loaded.len() as int) =~= loaded);
    lemma_with_loaded(state.cache, loaded, loaded.len(), index);
    lemma_with_loaded_holds::<C, E>(state.source, state.cache, loaded, loaded.len(), index);
}

/// A message without a required field does not validate: among what is
/// reported is that the field is required, on the field.
pub proof fn law_required_fields_fail_validation<C: Engine, F: Formats, E>(
    state: State<C, F>,
    message: ValV<E>,
    full_name: Seq<char>,
    now: int,
    i: int,
)
    requires
        state.compiled::<E>(full_name) is Ok,
        state.found(message, full_name, now, false) is Ok,
        ({
            let (index, cache) = state.compiled::<E>(full_name)->Ok_0;
            &&& 0 <= i < cache[index].fields.len()
            &&& cache[index].fields[i].required
            &&& cache[index].fields[i].shape is Singular
                || !cache[index].fields[i].rules.ignore_empty
            &&& readable(message, cache[index].fields[i].field)
            &&& missing(message, cache[index].fields[i])
        }),
    ensures
        ({
            let (index, cache) = state.compiled::<E>(full_name)->Ok_0;
            let found = state.found(message, full_name, now, false)->Ok_0;
            &&& state.verdict(message, full_name, now, false) matches Err(e) && e is Validation
            &&& exists|k: int|
                0 <= k < found.len() && (#[trigger] found[k]).rule_id == Some("required"@)
                    && found[k].field == Some(seq![cache[index].fields[i].element])
        }),
{
    let (index, cache) = state.compiled::<E>(full_name)->Ok_0;
    let s = state.setting(cache, now, false);
    let evaluator = cache[index];
    let field = evaluator.fields[i];
    law_required_fields_are_reported(s, message, full_name, field);
    let part = s.field(message, full_name, field)->Ok_0;
    let v = part[0];
    law_messages_are_walked_whole(s, message, full_name, evaluator, v);
    law_reports_turn_paths_round(s, message, full_name, evaluator);
    assert(part.contains(v));
    let inner = s.message(message, full_name, evaluator)->Ok_0;
    assert(finds(s.field(message, full_name, evaluator.fields[i]), v));
    assert(inner.contains(v));
    let k = choose|k: int| 0 <= k < inner.len() && inner[k] == v;
    let found = state.found(message, full_name, now, false)->Ok_0;
    assert(turned_round(found[k], inner[k]));
    assert(found[k].field->Some_0 =~= seq![field.element]);
}

/// A file that is added brings its options and extensions, behind those that
/// are there, and leaves the rules that are compiled.
pub proof fn law_added_options_are_kept<C: Engine, F: Formats, O: OptionsReader>(
    state: State<C, F>,
    reader: O,
    file: Seq<u8>,
    answer: Result<(), Seq<char>>,
    next: State<C, F>,
    i: int,
)
    requires
        state.adds(reader, file, answer, next),
        answer is Ok,
        file_in(file) matches Ok(proto) && !file_known(state.source.pool, proto),
    ensures
        0 <= i < reader.types_in(file).len() ==> next.source.descriptors.options@.contains(
            reader.types_in(file)[i],
        ),
        0 <= i < reader.extensions_in(file).len() ==> next.source.descriptors.extensions@.contains(
            reader.extensions_in(file)[i],
        ),
        0 <= i < state.source.descriptors.options@.len() ==> next.source.descriptors.options@[i]
            == state.source.descriptors.options@[i],
        0 <= i < state.source.descriptors.extensions@.len()
            ==> next.source.descriptors.extensions@[i] == state.source.descriptors.extensions@[i],
        next.cache == state.cache,
        next.formats == state.formats,
{
    let options = state.source.descriptors.options@;
    let extensions = state.source.descriptors.extensions@;
    if 0 <= i < reader.types_in(file).len() {
        assert(next.source.descriptors.options@[options.len() + i] == reader.types_in(file)[i]);
    }
    if 0 <= i < reader.extensions_in(file).len() {
        assert(next.source.descriptors.extensions@[extensions.len() + i] == reader.extensions_in(
            file,
        )[i]);
    }
}

/// A file that does not decode, that is refused, or that does not link changes
/// nothing, and is answered with the reason.
pub proof fn law_refused_files_change_nothing<C: Engine, F: Formats, O: OptionsReader>(
    state: State<C, F>,
    reader: O,
    file: Seq<u8>,
    answer: Result<(), Seq<char>>,
    next: State<C, F>,
)
    requires
        state.adds(reader, file, answer, next),
    ensures
        file_in(file) matches Err(error) ==> next == state && answer == Err::<(), Seq<char>>(error),
        file_in(file) matches Ok(proto) ==> {
            let refused = head_of(proto).refused(pool_files(state.source.pool));
            let unlinked = link_error(state.source.pool, proto);
            &&& !file_known(state.source.pool, proto) && refused is Some ==> next == state
                && answer == Err::<(), Seq<char>>(refused->Some_0)
            &&& !file_known(state.source.pool, proto) && refused is None && unlinked is Some
                ==> next == state && answer == Err::<(), Seq<char>>(unlinked->Some_0)
        },
{
}

proof fn lemma_loaded_files<C: Engine, F: Formats, O: OptionsReader>(
    state: State<C, F>,
    reader: O,
    files: Seq<Seq<u8>>,
    n: nat,
    next: State<C, F>,
    i: int,
    name: Seq<char>,
)
    requires
        n <= files.len(),
        state.loads(reader, files, n, next),
        0 <= i < n,
        name_in(files[i]) == Some(name),
    ensures
        next.knows_file(name),
    decreases n,
{
    let last = files[n - 1];
    let middle = choose|middle: State<C, F>|
        state.loads(reader, files, (n - 1) as nat, middle) && #[trigger] middle.adds(
            reader,
            last,
            Ok(()),
            next,
        );
    if i < n - 1 {
        lemma_loaded_files(state, reader, files, (n - 1) as nat, middle, i, name);
    }
    let head = FileHeadV {
        name: None,
        package: None,
        imports: Seq::empty(),
        messages: Seq::empty(),
        enums: Seq::empty(),
    };
    law_added_files_can_be_imported(middle, reader, last, Ok(()), next, name, head);
}

/// A validator that is opened on files knows every one of them.
pub proof fn law_opened_validators_know_their_files<C: Engine, F: Formats, O: OptionsReader>(
    engine: C,
    formats: F,
    reader: O,
    files: Seq<Seq<u8>>,
    state: State<C, F>,
    i: int,
    name: Seq<char>,
)
    requires
        opened(engine, formats, reader, files, Ok(state)),
        0 <= i < files.len(),
        name_in(files[i]) == Some(name),
    ensures
        state.knows_file(name),
{
    let start = choose|start: State<C, F>| #[trigger]
        start.is_blank(engine, formats) && start.gives(
            reader,
            files,
            Ok::<State<C, F>, Seq<char>>(state),
        );
    lemma_loaded_files(start, reader, files, files.len(), state, i, name);
}

proof fn lemma_loaded_formats<C: Engine, F: Formats, O: OptionsReader>(
    state: State<C, F>,
    reader: O,
    files: Seq<Seq<u8>>,
    n: nat,
    next: State<C, F>,
)
    requires
        n <= files.len(),
        state.loads(reader, files, n, next),
    ensures
        next.formats == state.formats,
        next.cache == state.cache,
    decreases n,
{
    if n > 0 {
        let last = files[n - 1];
        let middle = choose|middle: State<C, F>|
            state.loads(reader, files, (n - 1) as nat, middle) && #[trigger] middle.adds(
                reader,
                last,
                Ok(()),
                next,
            );
        lemma_loaded_formats(state, reader, files, (n - 1) as nat, middle);
    }
}

/// A validator that is opened holds the formats that it was given, and no
/// rules yet; one that is opened on no files has the engine as it was given,
/// and no types.
pub proof fn law_opened_validators_hold_what_they_are_given<
    C: Engine,
    F: Formats,
    O: OptionsReader,
>(engine: C, formats: F, reader: O, files: Seq<Seq<u8>>, state: State<C, F>)
    requires
        opened(engine, formats, reader, files, Ok(state)),
    ensures
        state.formats == formats,
        forall|index: u64| !#[trigger] state.cache.dom().contains(index),
        files.len() == 0 ==> state.source.engine == engine
            && state.source.descriptors.messages@.len() == 0
            && state.source.descriptors.options@.len() == 0,
{
    let start = choose|start: State<C, F>| #[trigger]
        start.is_blank(engine, formats) && start.gives(
            reader,
            files,
            Ok::<State<C, F>, Seq<char>>(state),
        );
    lemma_loaded_formats(start, reader, files, files.len(), state);
}

} // verus!
