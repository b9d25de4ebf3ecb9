//! The formula tree: one node type per connective, and the operations that
//! every node offers (rendering, evaluation, variable collection).

use crate::formula::{reserved_name, Formula};
use vstd::prelude::*;

verus! {

/// A node of a formula tree. Each node owns its children.
#[derive(Debug)]
pub enum Node {
    And(AndNode),
    Or(OrNode),
    IfThen(IfThenNode),
    Not(NotNode),
    Proposition(PropositionNode),
    Contradiction(ContradictionNode),
}

/// The conjunction of its children.
#[derive(Debug)]
pub struct AndNode {
    pub children: Vec<Node>,
}

/// The disjunction of its children.
#[derive(Debug)]
pub struct OrNode {
    pub children: Vec<Node>,
}

/// The implication `left -> right`.
#[derive(Debug)]
pub struct IfThenNode {
    pub left: Box<Node>,
    pub right: Box<Node>,
}

/// The negation of its child.
#[derive(Debug)]
pub struct NotNode {
    pub child: Box<Node>,
}

/// A propositional variable.
#[derive(Debug)]
pub struct PropositionNode {
    pub name: String,
}

/// The constant "false".
#[derive(Debug)]
pub struct ContradictionNode;

/// The formulas that `children` stand for, in order.
pub open spec fn formulas(children: Seq<Node>) -> Seq<Formula>
    decreases children,
{
    Seq::new(
        children.len(),
        |i: int|
            if 0 <= i < children.len() {
                children[i].formula()
            } else {
                Formula::Contradiction
            },
    )
}

impl Node {
    /// The formula that the tree stands for.
    pub open spec fn formula(&self) -> Formula
        decreases self,
    {
        match self {
            Node::And(n) => Formula::Conjunction(formulas(n.children@)),
            Node::Or(n) => Formula::Disjunction(formulas(n.children@)),
            Node::IfThen(n) => Formula::Implication(
                Box::new(n.left.formula()),
                Box::new(n.right.formula()),
            ),
            Node::Not(n) => Formula::Negation(Box::new(n.child.formula())),
            Node::Proposition(n) => Formula::Variable(n.name@),
            Node::Contradiction(_) => Formula::Contradiction,
        }
    }
}

impl View for Node {
    type V = Formula;

    open spec fn view(&self) -> Formula {
        self.formula()
    }
}

impl View for AndNode {
    type V = Formula;

    open spec fn view(&self) -> Formula {
        Formula::Conjunction(formulas(self.children@))
    }
}

impl View for OrNode {
    type V = Formula;

    open spec fn view(&self) -> Formula {
        Formula::Disjunction(formulas(self.children@))
    }
}

impl View for IfThenNode {
    type V = Formula;

    open spec fn view(&self) -> Formula {
        Formula::Implication(Box::new(self.left.formula()), Box::new(self.right.formula()))
    }
}

impl View for NotNode {
    type V = Formula;

    open spec fn view(&self) -> Formula {
        Formula::Negation(Box::new(self.child.formula()))
    }
}

impl View for PropositionNode {
    type V = Formula;

    open spec fn view(&self) -> Formula {
        Formula::Variable(self.name@)
    }
}

impl View for ContradictionNode {
    type V = Formula;

    open spec fn view(&self) -> Formula {
        Formula::Contradiction
    }
}

/// The formulas of `children` are well formed iff each child is.
pub proof fn lemma_formulas_well_formed(children: Seq<Node>)
    ensures
        (forall|i: int| 0 <= i < children.len() ==> (#[trigger] formulas(children)[i]).well_formed())
            <==> (forall|i: int| 0 <= i < children.len() ==> (#[trigger] children[i])@.well_formed()),
{
    if forall|i: int| 0 <= i < children.len() ==> (#[trigger] formulas(children)[i]).well_formed() {
        assert forall|i: int| 0 <= i < children.len() implies (#[trigger] children[i])@.well_formed() by {
            assert(formulas(children)[i].well_formed());
        }
    }
    if forall|i: int| 0 <= i < children.len() ==> (#[trigger] children[i])@.well_formed() {
        assert forall|i: int| 0 <= i < children.len() implies (#[trigger] formulas(
            children,
        )[i]).well_formed() by {
            assert(children[i]@.well_formed());
        }
    }
}

impl AndNode {
    /// The conjunction of `children`, in their order.
    pub fn new(children: Vec<Node>) -> (r: Node)
        ensures
            r@ == Formula::Conjunction(formulas(children@)),
            r@.well_formed() <==> children@.len() >= 1 && forall|i: int|
                0 <= i < children@.len() ==> (#[trigger] children@[i])@.well_formed(),
    {
        let ghost given = children@;
        let r = Node::And(AndNode { children });
        proof {
            lemma_formulas_well_formed(given);
            assert(r@->Conjunction_0 == formulas(given));
        }
        r
    }
}

impl OrNode {
    /// The disjunction of `children`, in their order.
    pub fn new(children: Vec<Node>) -> (r: Node)
        ensures
            r@ == Formula::Disjunction(formulas(children@)),
            r@.well_formed() <==> children@.len() >= 1 && forall|i: int|
                0 <= i < children@.len() ==> (#[trigger] children@[i])@.well_formed(),
    {
        let ghost given = children@;
        let r = Node::Or(OrNode { children });
        proof {
            lemma_formulas_well_formed(given);
            assert(r@->Disjunction_0 == formulas(given));
        }
        r
    }
}

impl IfThenNode {
    /// The implication from `left` to `right`.
    pub fn new(left: Node, right: Node) -> (r: Node)
        ensures
            r@ == Formula::Implication(Box::new(left@), Box::new(right@)),
            r@.well_formed() <==> left@.well_formed() && right@.well_formed(),
    {
        Node::IfThen(IfThenNode { left: Box::new(left), right: Box::new(right) })
    }
}

impl NotNode {
    /// The negation of `child`.
    pub fn new(child: Node) -> (r: Node)
        ensures
            r@ == Formula::Negation(Box::new(child@)),
            r@.well_formed() <==> child@.well_formed(),
    {
        Node::Not(NotNode { child: Box::new(child) })
    }
}

impl PropositionNode {
    /// The variable called `name`, which must not be the reserved name.
    pub fn new(name: String) -> (r: Node)
        requires
            name@ != reserved_name(),
        ensures
            r@ == Formula::Variable(name@),
            r@.well_formed(),
    {
        Node::Proposition(PropositionNode { name })
    }
}

impl ContradictionNode {
    /// The contradiction.
    pub fn new() -> (r: Node)
        ensures
            r@ == Formula::Contradiction,
            r@.well_formed(),
    {
        Node::Contradiction(ContradictionNode)
    }
}

} // verus!
