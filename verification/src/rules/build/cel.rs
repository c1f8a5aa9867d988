//! The custom CEL of fields and messages.

use super::Builder;
use crate::cel::{binding_of, expressions_of, Binding, Engine, Expression};
use crate::error::{Error, ErrorV};
use crate::rules::plan::{
    indexed_path, no_cel, pushed, with_cel_rule, with_cel_rules, with_expressions, with_predefined,
    CompiledV,
};
use crate::rules::standard::build::string::or_empty;
use crate::rules::{metas_of, programs_of, ProgramSet, ProgramSetV, RuleMeta};
use crate::validate::rules::Rule;
use crate::validate::{copy_path, path_of, FieldPathElement, FieldPathElementV, Subscript};
use vstd::prelude::*;

verus! {

/// The custom CEL of one field or message: the expressions to compile, what
/// each reports, and the rules message the predefined ones bind as `rules`.
pub struct Compiled {
    pub expressions: Vec<Expression>,
    pub metas: Vec<RuleMeta>,
    pub rules: Option<Binding>,
}

impl View for Compiled {
    type V = CompiledV;

    open spec fn view(&self) -> CompiledV {
        CompiledV {
            expressions: expressions_of(self.expressions@),
            metas: metas_of(self.metas@),
            rules: binding_of(self.rules),
        }
    }
}

/// What an optional path element behind references holds.
pub open spec fn element_view(element: Option<&FieldPathElement>) -> Option<FieldPathElementV> {
    match element {
        Some(element) => Some(element@),
        None => None,
    }
}

/// The rule path of the `i`th rule of a list: none for a message's.
fn path_at(list: Option<&FieldPathElement>, index: usize) -> (r: Vec<FieldPathElement>)
    ensures
        path_of(r@) == indexed_path(element_view(list), index as int),
{
    let mut path: Vec<FieldPathElement> = Vec::new();
    match list {
        Some(element) => {
            let mut element = element.copy();
            element.subscript = Some(Subscript::Index(index as u64));
            let ghost at = element@;
            path.push(element);
            assert(path_of(path@) =~= seq![at]);
        },
        None => {
            assert(path_of(path@) =~= Seq::empty());
        },
    }
    path
}

impl Compiled {
    /// No custom CEL.
    pub fn new() -> (r: Compiled)
        ensures
            r@ == no_cel(),
    {
        let compiled = Compiled { expressions: Vec::new(), metas: Vec::new(), rules: None };
        assert(expressions_of(compiled.expressions@) =~= Seq::empty());
        assert(metas_of(compiled.metas@) =~= Seq::empty());
        compiled
    }

    /// Adds a rule.
    fn add_rule(
        &mut self,
        id: String,
        message: String,
        expression: String,
        rule_field_number: i32,
        rule_path: Vec<FieldPathElement>,
    )
        ensures
            final(self)@ == pushed(
                old(self)@,
                id@,
                message@,
                expression@,
                rule_field_number,
                path_of(rule_path@),
            ),
    {
        let ghost expressions = self.expressions@;
        let ghost metas = self.metas@;
        let meta = RuleMeta { id, message, expression: expression.clone(), rule_path };
        let entry = Expression { expression, rule_field_number };
        let ghost added = (entry@, meta@);
        self.metas.push(meta);
        self.expressions.push(entry);
        assert(expressions_of(self.expressions@) =~= expressions_of(expressions).push(added.0));
        assert(metas_of(self.metas@) =~= metas_of(metas).push(added.1));
    }

    /// Adds a rule.
    pub fn push(&mut self, rule: &Rule, rule_field_number: i32, rule_path: Vec<FieldPathElement>)
        ensures
            final(self)@ == with_cel_rule(
                old(self)@,
                *rule,
                rule_field_number,
                path_of(rule_path@),
            ),
    {
        self.add_rule(
            or_empty(&rule.id),
            or_empty(&rule.message),
            or_empty(&rule.expression),
            rule_field_number,
            rule_path,
        );
    }

    /// Adds expressions, which are rules that have themselves for an id and
    /// no message.
    pub fn push_expressions(&mut self, expressions: &Vec<String>, list: Option<&FieldPathElement>)
        ensures
            final(self)@ == with_expressions(
                old(self)@,
                expressions@,
                element_view(list),
                expressions@.len(),
            ),
    {
        let ghost start = self@;
        let mut i: usize = 0;
        while i < expressions.len()
            invariant
                i <= expressions@.len(),
                self@ == with_expressions(start, expressions@, element_view(list), i as nat),
            decreases expressions@.len() - i,
        {
            proof {
                reveal_strlit("");
                assert(""@ =~= Seq::<char>::empty());
            }
            let expression = &expressions[i];
            self.add_rule(
                expression.clone(),
                "".to_owned(),
                expression.clone(),
                0,
                path_at(list, i),
            );
            i += 1;
        }
    }

    /// Adds rules.
    pub fn push_rules(&mut self, rules: &Vec<Rule>, list: Option<&FieldPathElement>)
        ensures
            final(self)@ == with_cel_rules(
                old(self)@,
                rules@,
                element_view(list),
                rules@.len(),
            ),
    {
        let ghost start = self@;
        let mut i: usize = 0;
        while i < rules.len()
            invariant
                i <= rules@.len(),
                self@ == with_cel_rules(start, rules@, element_view(list), i as nat),
            decreases rules@.len() - i,
        {
            self.push(&rules[i], 0, path_at(list, i));
            i += 1;
        }
    }

    /// Adds the rules that an extension field is predefined as.
    pub fn push_predefined(
        &mut self,
        rules: &Vec<Rule>,
        rule_field_number: i32,
        rule_path: &Vec<FieldPathElement>,
    )
        ensures
            final(self)@ == with_predefined(
                old(self)@,
                rules@,
                rule_field_number,
                path_of(rule_path@),
                rules@.len(),
            ),
    {
        let ghost start = self@;
        let mut i: usize = 0;
        while i < rules.len()
            invariant
                i <= rules@.len(),
                self@ == with_predefined(
                    start,
                    rules@,
                    rule_field_number,
                    path_of(rule_path@),
                    i as nat,
                ),
            decreases rules@.len() - i,
        {
            self.push(&rules[i], rule_field_number, copy_path(rule_path));
            i += 1;
        }
    }
}

/// What compiling custom CEL gives.
pub open spec fn fallible_programs<P, E>(r: Result<Option<ProgramSet<P>>, Error<E>>) -> Result<
    Option<ProgramSetV<P>>,
    ErrorV<E>,
> {
    match r {
        Ok(programs) => Ok(programs_of(programs)),
        Err(error) => Err(error@),
    }
}

impl<'a, C: Engine> Builder<'a, C> {
    /// Compiles the custom CEL, if there is any.
    pub(crate) fn compile<E>(&self, compiled: Compiled) -> (r: Result<
        Option<ProgramSet<C::Program>>,
        Error<E>,
    >)
        ensures
            fallible_programs(r) == self.source().programs::<E>(compiled@),
    {
        if compiled.expressions.len() == 0 {
            return Ok(None);
        }
        match self.engine().compile(&compiled.rules, &compiled.expressions) {
            Ok(program) => Ok(Some(ProgramSet { program, rules: compiled.metas })),
            Err(error) => Err(Error::Compilation(error.message().to_owned())),
        }
    }
}

} // verus!
