//! Evaluation of a formula tree under an assignment.

use crate::assignment::Assignment;
use crate::node::{
    formulas, AndNode, ContradictionNode, IfThenNode, Node, NotNode, OrNode, PropositionNode,
};
use vstd::prelude::*;

verus! {

impl Node {
    /// The truth value of the formula under `props`, which must give a value
    /// to every variable of the formula.
    pub fn evaluate(&self, props: &Assignment) -> (r: bool)
        requires
            self@.covered_by(props@),
        ensures
            r == self@.eval(props@),
        decreases self, 1int,
    {
        match self {
            Node::And(n) => n.evaluate(props),
            Node::Or(n) => n.evaluate(props),
            Node::IfThen(n) => n.evaluate(props),
            Node::Not(n) => n.evaluate(props),
            Node::Proposition(n) => n.evaluate(props),
            Node::Contradiction(n) => n.evaluate(props),
        }
    }
}

impl AndNode {
    /// True iff every child is true under `props`. Stops at the first child
    /// that is false.
    pub fn evaluate(&self, props: &Assignment) -> (r: bool)
        requires
            self@.covered_by(props@),
        ensures
            r == self@.eval(props@),
        decreases self, 0int,
    {
        let ghost cs = formulas(self.children@);
        let mut i: usize = 0;
        while i < self.children.len()
            invariant
                i <= self.children.len(),
                cs == formulas(self.children@),
                self@.covered_by(props@),
                forall|j: int| 0 <= j < i ==> (#[trigger] cs[j]).eval(props@),
            decreases self.children.len() - i,
        {
            assert(cs[i as int] == self.children@[i as int]@);
            assert forall|name: Seq<char>| cs[i as int].mentions(name) implies props@.dom().contains(
                name,
            ) by {
                assert(self@->Conjunction_0 == cs);
                assert(cs[i as int].mentions(name));
                assert(self@.mentions(name));
            }
            if !self.children[i].evaluate(props) {
                assert(self@->Conjunction_0 == cs);
                assert(!cs[i as int].eval(props@));
                return false;
            }
            i += 1;
        }
        assert(self@->Conjunction_0 == cs);
        true
    }
}

impl OrNode {
    /// True iff some child is true under `props`. Stops at the first child
    /// that is true.
    pub fn evaluate(&self, props: &Assignment) -> (r: bool)
        requires
            self@.covered_by(props@),
        ensures
            r == self@.eval(props@),
        decreases self, 0int,
    {
        let ghost cs = formulas(self.children@);
        let mut i: usize = 0;
        while i < self.children.len()
            invariant
                i <= self.children.len(),
                cs == formulas(self.children@),
                self@.covered_by(props@),
                forall|j: int| 0 <= j < i ==> !(#[trigger] cs[j]).eval(props@),
            decreases self.children.len() - i,
        {
            assert(cs[i as int] == self.children@[i as int]@);
            assert forall|name: Seq<char>| cs[i as int].mentions(name) implies props@.dom().contains(
                name,
            ) by {
                assert(self@->Disjunction_0 == cs);
                assert(cs[i as int].mentions(name));
                assert(self@.mentions(name));
            }
            if self.children[i].evaluate(props) {
                assert(self@->Disjunction_0 == cs);
                assert(cs[i as int].eval(props@));
                return true;
            }
            i += 1;
        }
        assert(self@->Disjunction_0 == cs);
        false
    }
}

impl IfThenNode {
    /// False iff `left` is true and `right` is false under `props`.
    pub fn evaluate(&self, props: &Assignment) -> (r: bool)
        requires
            self@.covered_by(props@),
        ensures
            r == self@.eval(props@),
        decreases self, 0int,
    {
        assert forall|name: Seq<char>| self.left@.mentions(name) implies props@.dom().contains(
            name,
        ) by {
            assert(self@.mentions(name));
        }
        assert forall|name: Seq<char>| self.right@.mentions(name) implies props@.dom().contains(
            name,
        ) by {
            assert(self@.mentions(name));
        }
        !self.left.evaluate(props) || self.right.evaluate(props)
    }
}

impl NotNode {
    /// True iff the child is false under `props`.
    pub fn evaluate(&self, props: &Assignment) -> (r: bool)
        requires
            self@.covered_by(props@),
        ensures
            r == self@.eval(props@),
        decreases self, 0int,
    {
        assert forall|name: Seq<char>| self.child@.mentions(name) implies props@.dom().contains(
            name,
        ) by {
            assert(self@.mentions(name));
        }
        !self.child.evaluate(props)
    }
}

impl PropositionNode {
    /// The truth value that `props` gives to the variable.
    pub fn evaluate(&self, props: &Assignment) -> (r: bool)
        requires
            self@.covered_by(props@),
        ensures
            r == self@.eval(props@),
    {
        assert(self@.mentions(self.name@));
        match props.get(self.name.as_str()) {
            Some(value) => value,
            None => false,
        }
    }
}

impl ContradictionNode {
    /// False, whatever `props` holds.
    pub fn evaluate(&self, props: &Assignment) -> (r: bool)
        ensures
            r == self@.eval(props@),
            !r,
    {
        false
    }
}

} // verus!

