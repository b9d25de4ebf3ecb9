//! The mathematical model of a propositional formula: what a formula is,
//! what it evaluates to under a valuation, which variables it mentions and
//! how it is written out.

use vstd::prelude::*;

verus! {

/// A propositional formula as a mathematical value.
///
/// The executable tree (`crate::node::Node`) is viewed as a `Formula`; all
/// contracts of the library are stated over this type.
pub enum Formula {
    /// Logical AND of all children, in order.
    Conjunction(Seq<Formula>),
    /// Logical OR of all children, in order.
    Disjunction(Seq<Formula>),
    /// `antecedent -> consequent`.
    Implication(Box<Formula>, Box<Formula>),
    /// Logical NOT.
    Negation(Box<Formula>),
    /// An atomic proposition, identified by its name.
    Variable(Seq<char>),
    /// The constant "false".
    Contradiction,
}

/// A valuation: the truth value of each variable it knows, by name.
pub type Valuation = Map<Seq<char>, bool>;

/// The name that is reserved for the contradiction and that no variable may carry.
pub open spec fn reserved_name() -> Seq<char> {
    "X"@
}

/// The glyph that the contradiction is written as.
pub open spec fn contradiction_glyph() -> Seq<char> {
    "⊥"@
}

/// `parts`, written one after the other with `sep` between each two neighbours.
pub open spec fn join(parts: Seq<Seq<char>>, sep: Seq<char>) -> Seq<char>
    decreases parts.len(),
{
    if parts.len() == 0 {
        Seq::empty()
    } else if parts.len() == 1 {
        parts[0]
    } else {
        join(parts.drop_last(), sep) + sep + parts.last()
    }
}

impl Formula {
    /// The truth value of the formula under `v`.
    ///
    /// A conjunction is true iff every child is, a disjunction iff some child
    /// is. The value of a variable that `v` does not know is unspecified.
    pub open spec fn eval(self, v: Valuation) -> bool
        decreases self,
    {
        match self {
            Formula::Conjunction(cs) => forall|i: int|
                0 <= i < cs.len() ==> (#[trigger] cs[i]).eval(v),
            Formula::Disjunction(cs) => exists|i: int|
                0 <= i < cs.len() && (#[trigger] cs[i]).eval(v),
            Formula::Implication(l, r) => !l.eval(v) || r.eval(v),
            Formula::Negation(c) => !c.eval(v),
            Formula::Variable(name) => v[name],
            Formula::Contradiction => false,
        }
    }

    /// Whether a variable called `name` occurs somewhere in the formula.
    pub open spec fn mentions(self, name: Seq<char>) -> bool
        decreases self,
    {
        match self {
            Formula::Conjunction(cs) => exists|i: int|
                0 <= i < cs.len() && (#[trigger] cs[i]).mentions(name),
            Formula::Disjunction(cs) => exists|i: int|
                0 <= i < cs.len() && (#[trigger] cs[i]).mentions(name),
            Formula::Implication(l, r) => l.mentions(name) || r.mentions(name),
            Formula::Negation(c) => c.mentions(name),
            Formula::Variable(n) => n == name,
            Formula::Contradiction => false,
        }
    }

    /// The set of the names of the variables that occur in the formula.
    pub open spec fn variables(self) -> Set<Seq<char>> {
        Set::new(|name: Seq<char>| self.mentions(name))
    }

    /// Whether `v` gives a truth value to every variable of the formula.
    pub open spec fn covered_by(self, v: Valuation) -> bool {
        forall|name: Seq<char>| self.mentions(name) ==> v.dom().contains(name)
    }

    /// Whether the formula is a tautology: true under every valuation that
    /// gives a value to each of its variables.
    pub open spec fn is_tautology(self) -> bool {
        forall|v: Valuation| self.covered_by(v) ==> #[trigger] self.eval(v)
    }

    /// The renderings of `cs`, in order.
    pub open spec fn render_all(cs: Seq<Formula>) -> Seq<Seq<char>>
        decreases cs,
    {
        Seq::new(
            cs.len(),
            |i: int|
                if 0 <= i < cs.len() {
                    cs[i].render()
                } else {
                    Seq::empty()
                },
        )
    }

    /// The canonical printable form of the formula.
    ///
    /// Conjunctions and disjunctions join their children with `" ∧ "` and
    /// `" ∨ "` inside parentheses; with exactly one child they are written as
    /// that child, bare.
    pub open spec fn render(self) -> Seq<char>
        decreases self,
    {
        match self {
            Formula::Conjunction(cs) => if cs.len() == 1 {
                cs[0].render()
            } else {
                "("@ + join(Self::render_all(cs), " ∧ "@) + ")"@
            },
            Formula::Disjunction(cs) => if cs.len() == 1 {
                cs[0].render()
            } else {
                "("@ + join(Self::render_all(cs), " ∨ "@) + ")"@
            },
            Formula::Implication(l, r) => "("@ + l.render() + " → "@ + r.render() + ")"@,
            Formula::Negation(c) => "¬"@ + c.render(),
            Formula::Variable(name) => name,
            Formula::Contradiction => contradiction_glyph(),
        }
    }

    /// The invariants of the data model: no conjunction or disjunction is
    /// empty, and no variable carries the reserved name.
    pub open spec fn well_formed(self) -> bool
        decreases self,
    {
        match self {
            Formula::Conjunction(cs) => cs.len() >= 1 && forall|i: int|
                0 <= i < cs.len() ==> (#[trigger] cs[i]).well_formed(),
            Formula::Disjunction(cs) => cs.len() >= 1 && forall|i: int|
                0 <= i < cs.len() ==> (#[trigger] cs[i]).well_formed(),
            Formula::Implication(l, r) => l.well_formed() && r.well_formed(),
            Formula::Negation(c) => c.well_formed(),
            Formula::Variable(name) => name != reserved_name(),
            Formula::Contradiction => true,
        }
    }
}

} // verus!
