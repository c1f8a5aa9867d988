//! Violations, and what the walk does to them.

use crate::rules::outcome::{from_root, path_or_empty, violation_of, with_field, with_rule};
use crate::validate::{copy_path, path_of, FieldPath, FieldPathElement, Violation};
use vstd::prelude::*;

verus! {

/// A violation as the walk first reports it.
pub(crate) fn violation(
    rule_id: &str,
    message: &str,
    field: Option<&FieldPathElement>,
    rule: Vec<FieldPathElement>,
) -> (r: Violation)
    ensures
        r@ == violation_of(
            rule_id@,
            message@,
            match field {
                Some(element) => Some(element@),
                None => None,
            },
            path_of(rule@),
        ),
{
    let path = match field {
        Some(element) => {
            let mut elements: Vec<FieldPathElement> = Vec::new();
            elements.push(element.copy());
            assert(path_of(elements@) =~= seq![element@]);
            Some(FieldPath { elements })
        },
        None => None,
    };
    Violation {
        field: path,
        rule: if rule.len() == 0 {
            None
        } else {
            Some(FieldPath { elements: rule })
        },
        rule_id: Some(rule_id.to_owned()),
        message: Some(message.to_owned()),
        for_key: None,
    }
}

/// A path of two elements.
pub(crate) fn pair(leaf: &FieldPathElement, parent: &FieldPathElement) -> (r: Vec<FieldPathElement>)
    ensures
        path_of(r@) == seq![leaf@, parent@],
{
    let mut elements: Vec<FieldPathElement> = Vec::new();
    elements.push(leaf.copy());
    elements.push(parent.copy());
    assert(path_of(elements@) =~= seq![leaf@, parent@]);
    elements
}

impl Violation {
    /// Adds an element to the field path.
    pub(crate) fn add_field(&mut self, element: &FieldPathElement)
        ensures
            final(self)@ == with_field(old(self)@, element@),
    {
        let mut elements = match self.field.take() {
            Some(path) => path.elements,
            None => Vec::new(),
        };
        let ghost before = elements@;
        elements.push(element.copy());
        assert(path_of(elements@) =~= path_of(before).push(element@));
        assert(path_of(before) =~= path_or_empty(old(self)@.field));
        self.field = Some(FieldPath { elements });
    }

    /// Adds elements to the rule path.
    pub(crate) fn add_rule(&mut self, more: &Vec<FieldPathElement>)
        ensures
            final(self)@ == with_rule(old(self)@, path_of(more@)),
    {
        let mut elements = match self.rule.take() {
            Some(path) => path.elements,
            None => Vec::new(),
        };
        let ghost before = path_of(elements@);
        assert(before =~= path_or_empty(old(self)@.rule));
        let mut copied = copy_path(more);
        let ghost tail = copied@;
        let ghost head = elements@;
        elements.append(&mut copied);
        assert(path_of(elements@) =~= before + path_of(tail));
        self.rule = Some(FieldPath { elements });
    }

    /// Turns the paths round.
    pub(crate) fn reverse(&mut self)
        ensures
            final(self)@ == from_root(old(self)@),
    {
        match self.field.take() {
            Some(path) => {
                self.field = Some(FieldPath { elements: reversed(path.elements) });
            },
            None => {},
        }
        match self.rule.take() {
            Some(path) => {
                self.rule = Some(FieldPath { elements: reversed(path.elements) });
            },
            None => {},
        }
    }
}

/// A path turned round.
pub(crate) fn reversed(elements: Vec<FieldPathElement>) -> (r: Vec<FieldPathElement>)
    ensures
        path_of(r@) == path_of(elements@).reverse(),
{
    let mut left = elements;
    let mut turned: Vec<FieldPathElement> = Vec::new();
    while left.len() > 0
        invariant
            path_of(turned@) + path_of(left@).reverse() =~= path_of(elements@).reverse(),
        decreases left@.len(),
    {
        let ghost before = left@;
        let ghost gone = turned@;
        match left.pop() {
            Some(last) => {
                turned.push(last);
                proof {
                    assert(path_of(turned@) =~= path_of(gone).push(last@));
                    assert(path_of(before) =~= path_of(left@).push(last@));
                    assert(path_of(before).reverse() =~= seq![last@] + path_of(left@).reverse());
                }
            },
            None => {},
        }
    }
    assert(path_of(left@).reverse() =~= Seq::empty());
    turned
}


} // verus!
