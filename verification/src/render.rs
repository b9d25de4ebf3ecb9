//! The canonical printable form of a formula tree.

use crate::formula::{join, Formula};
use crate::node::{
    formulas, AndNode, ContradictionNode, IfThenNode, Node, NotNode, OrNode, PropositionNode,
};
use vstd::prelude::*;
use vstd::string::StringExecFns;

verus! {

/// The renderings of `children`, with `separator` between each two neighbours.
fn join_rendered(children: &Vec<Node>, separator: &str) -> (r: String)
    ensures
        r@ == join(Formula::render_all(formulas(children@)), separator@),
    decreases children, 2int,
{
    let ghost parts = Formula::render_all(formulas(children@));
    let mut joined = String::new();
    let mut i: usize = 0;
    assert(parts.take(0) =~= Seq::<Seq<char>>::empty());
    while i < children.len()
        invariant
            i <= children.len(),
            parts == Formula::render_all(formulas(children@)),
            parts.len() == children.len(),
            joined@ == join(parts.take(i as int), separator@),
        decreases children.len() - i,
    {
        if i > 0 {
            joined.append(separator);
        }
        let piece = children[i].to_string();
        joined.append(piece.as_str());
        proof {
            assert(formulas(children@)[i as int] == children@[i as int]@);
            assert(parts[i as int] == piece@);
            let next = parts.take(i + 1);
            assert(next.last() == parts[i as int]);
            assert(next.drop_last() =~= parts.take(i as int));
            if i == 0 {
                assert(joined@ =~= piece@);
            }
        }
        i += 1;
    }
    assert(parts.take(i as int) =~= parts);
    joined
}

/// `joined` as it stands where there is exactly one child, and inside
/// parentheses otherwise.
fn parenthesize_unless_single(joined: String, count: usize) -> (r: String)
    ensures
        r@ == if count == 1 {
            joined@
        } else {
            "("@ + joined@ + ")"@
        },
{
    if count == 1 {
        joined
    } else {
        let mut out = String::from_str("(");
        out.append(joined.as_str());
        out.append(")");
        out
    }
}

impl Node {
    /// The canonical printable form of the tree.
    pub fn to_string(&self) -> (r: String)
        ensures
            r@ == self@.render(),
        decreases self, 1int,
    {
        match self {
            Node::And(n) => n.to_string(),
            Node::Or(n) => n.to_string(),
            Node::IfThen(n) => n.to_string(),
            Node::Not(n) => n.to_string(),
            Node::Proposition(n) => n.to_string(),
            Node::Contradiction(n) => n.to_string(),
        }
    }
}

impl AndNode {
    /// The children joined by `" ∧ "`, in parentheses unless there is
    /// exactly one child.
    pub fn to_string(&self) -> (r: String)
        ensures
            r@ == self@.render(),
        decreases self, 0int,
    {
        let children = join_rendered(&self.children, " ∧ ");
        proof {
            let cs = formulas(self.children@);
            assert(self@->Conjunction_0 == cs);
            if cs.len() == 1 {
                assert(cs[0] == self.children@[0]@);
                assert(Formula::render_all(cs)[0] == cs[0].render());
            }
        }
        parenthesize_unless_single(children, self.children.len())
    }
}

impl OrNode {
    /// The children joined by `" ∨ "`, in parentheses unless there is
    /// exactly one child.
    pub fn to_string(&self) -> (r: String)
        ensures
            r@ == self@.render(),
        decreases self, 0int,
    {
        let children = join_rendered(&self.children, " ∨ ");
        proof {
            let cs = formulas(self.children@);
            assert(self@->Disjunction_0 == cs);
            if cs.len() == 1 {
                assert(cs[0] == self.children@[0]@);
                assert(Formula::render_all(cs)[0] == cs[0].render());
            }
        }
        parenthesize_unless_single(children, self.children.len())
    }
}

impl IfThenNode {
    /// `(left → right)`.
    pub fn to_string(&self) -> (r: String)
        ensures
            r@ == self@.render(),
        decreases self, 0int,
    {
        let left = self.left.to_string();
        let right = self.right.to_string();
        let mut out = String::from_str("(");
        out.append(left.as_str());
        out.append(" → ");
        out.append(right.as_str());
        out.append(")");
        out
    }
}

impl NotNode {
    /// `¬child`.
    pub fn to_string(&self) -> (r: String)
        ensures
            r@ == self@.render(),
        decreases self, 0int,
    {
        let child = self.child.to_string();
        let mut out = String::from_str("¬");
        out.append(child.as_str());
        out
    }
}

impl PropositionNode {
    /// The variable's name.
    pub fn to_string(&self) -> (r: String)
        ensures
            r@ == self@.render(),
    {
        self.name.clone()
    }
}

impl ContradictionNode {
    /// The contradiction glyph.
    pub fn to_string(&self) -> (r: String)
        ensures
            r@ == self@.render(),
    {
        String::from_str("⊥")
    }
}

} // verus!
