//! Collection of the variables that a formula tree mentions.

use crate::formula::{Formula, Valuation};
use crate::names::{lemma_is_sorted_listing, sorted_listing, strictly_sorted, views};
use crate::node::{
    formulas, AndNode, ContradictionNode, IfThenNode, Node, NotNode, OrNode, PropositionNode,
};
use crate::proposition_set::PropositionSet;
use vstd::prelude::*;

verus! {

/// The names that one of the first `k` formulas of `cs` mentions.
pub open spec fn mentioned_in_first(cs: Seq<Formula>, k: int) -> Set<Seq<char>> {
    Set::new(|name: Seq<char>| exists|j: int| 0 <= j < k && (#[trigger] cs[j]).mentions(name))
}

/// The union of the variable sets of `children`, child by child.
fn retrieve_all<'a>(children: &'a Vec<Node>) -> (r: PropositionSet<'a>)
    ensures
        r@ == mentioned_in_first(formulas(children@), children@.len() as int),
    decreases children, 2int,
{
    let ghost cs = formulas(children@);
    let mut props = PropositionSet::new();
    let mut i: usize = 0;
    assert(props@ =~= mentioned_in_first(cs, 0));
    while i < children.len()
        invariant
            i <= children.len(),
            cs == formulas(children@),
            props@ == mentioned_in_first(cs, i as int),
        decreases children.len() - i,
    {
        let child_props = children[i].retrieve();
        props.extend(child_props);
        proof {
            assert(cs[i as int] == children@[i as int]@);
            assert(props@ =~= mentioned_in_first(cs, i + 1)) by {
                assert forall|name: Seq<char>|
                    mentioned_in_first(cs, i + 1).contains(name) implies props@.contains(
                    name,
                ) by {
                    let j = choose|j: int| 0 <= j < i + 1 && (#[trigger] cs[j]).mentions(name);
                    if j < i {
                        assert(mentioned_in_first(cs, i as int).contains(name));
                    }
                }
                assert forall|name: Seq<char>| props@.contains(name) implies mentioned_in_first(
                    cs,
                    i + 1,
                ).contains(name) by {
                    if mentioned_in_first(cs, i as int).contains(name) {
                        let j = choose|j: int| 0 <= j < i && (#[trigger] cs[j]).mentions(name);
                        assert(cs[j].mentions(name));
                    } else {
                        assert(cs[i as int].mentions(name));
                    }
                }
            }
        }
        i += 1;
    }
    props
}

impl Node {
    /// The set of the names of the variables that occur in the tree.
    pub fn retrieve<'a>(&'a self) -> (r: PropositionSet<'a>)
        ensures
            r@ == self@.variables(),
        decreases self, 1int,
    {
        match self {
            Node::And(n) => n.retrieve(),
            Node::Or(n) => n.retrieve(),
            Node::IfThen(n) => n.retrieve(),
            Node::Not(n) => n.retrieve(),
            Node::Proposition(n) => n.retrieve(),
            Node::Contradiction(n) => n.retrieve(),
        }
    }

    /// The names of the variables of the tree, each once, in the order of
    /// names. Position `c` of this list is bit `c` of an enumeration index.
    ///
    /// An assignment that gives a value to each name of this list is one
    /// under which the tree can be evaluated.
    pub fn get_all_propositions<'a>(&'a self) -> (r: Vec<&'a str>)
        ensures
            strictly_sorted(views(r@)),
            views(r@).to_set() == self@.variables(),
            views(r@) == sorted_listing(self@.variables()),
            forall|v: Valuation| #[trigger]
                self@.covered_by(v) <==> views(r@).to_set().subset_of(v.dom()),
    {
        let r = self.retrieve().into_sorted_vec();
        proof {
            lemma_is_sorted_listing(views(r@));
            assert forall|v: Valuation| #[trigger]
                self@.covered_by(v) <==> views(r@).to_set().subset_of(v.dom()) by {
                if self@.covered_by(v) {
                    assert forall|name: Seq<char>|
                        self@.variables().contains(name) implies v.dom().contains(name) by {
                        assert(self@.mentions(name));
                    }
                }
                if self@.variables().subset_of(v.dom()) {
                    assert forall|name: Seq<char>| self@.mentions(name) implies v.dom().contains(
                        name,
                    ) by {
                        assert(self@.variables().contains(name));
                    }
                }
            }
        }
        r
    }
}

impl AndNode {
    /// The union of the variable sets of the children.
    pub fn retrieve<'a>(&'a self) -> (r: PropositionSet<'a>)
        ensures
            r@ == self@.variables(),
        decreases self, 0int,
    {
        let r = retrieve_all(&self.children);
        proof {
            let cs = formulas(self.children@);
            assert(self@->Conjunction_0 == cs);
            assert(r@ =~= self@.variables());
        }
        r
    }
}

impl OrNode {
    /// The union of the variable sets of the children.
    pub fn retrieve<'a>(&'a self) -> (r: PropositionSet<'a>)
        ensures
            r@ == self@.variables(),
        decreases self, 0int,
    {
        let r = retrieve_all(&self.children);
        proof {
            let cs = formulas(self.children@);
            assert(self@->Disjunction_0 == cs);
            assert(r@ =~= self@.variables());
        }
        r
    }
}

impl IfThenNode {
    /// The union of the variable sets of both sides.
    pub fn retrieve<'a>(&'a self) -> (r: PropositionSet<'a>)
        ensures
            r@ == self@.variables(),
        decreases self, 0int,
    {
        let mut props = self.left.retrieve();
        let child_props = self.right.retrieve();
        props.extend(child_props);
        assert(props@ =~= self@.variables());
        props
    }
}

impl NotNode {
    /// The variable set of the child.
    pub fn retrieve<'a>(&'a self) -> (r: PropositionSet<'a>)
        ensures
            r@ == self@.variables(),
        decreases self, 0int,
    {
        let props = self.child.retrieve();
        assert(props@ =~= self@.variables());
        props
    }
}

impl PropositionNode {
    /// The set that holds the variable's name and nothing else.
    pub fn retrieve<'a>(&'a self) -> (r: PropositionSet<'a>)
        ensures
            r@ == self@.variables(),
    {
        let mut set = PropositionSet::new();
        set.insert(self.name.as_str());
        assert(set@ =~= self@.variables());
        set
    }
}

impl ContradictionNode {
    /// The empty set.
    pub fn retrieve<'a>(&'a self) -> (r: PropositionSet<'a>)
        ensures
            r@ == self@.variables(),
    {
        let set = PropositionSet::new();
        assert(set@ =~= self@.variables());
        set
    }
}

} // verus!
