//! What every formula that the grammar reads looks like, and how much text
//! each production takes.

use crate::formula::{reserved_name, Formula};
use crate::grammar::{
    after_first_tag, after_tag, and_spellings, arrow_spellings, conjunction, disjunction, factor,
    first_spelling, glyph, implication, is_letter, lemma_letters, letters, more_operands, negation,
    not_spellings, operands, or_spellings, parenthesized, term, whole_term, word,
};
use vstd::prelude::*;

verus! {

/// Whether `name` is a name that the grammar reads as a variable: one or
/// more letters that are not the reserved name.
pub open spec fn is_variable_name(name: Seq<char>) -> bool {
    &&& name.len() > 0
    &&& forall|i: int| 0 <= i < name.len() ==> is_letter(#[trigger] name[i])
    &&& name != reserved_name()
}

impl Formula {
    /// Whether the formula is one that the grammar can read: every
    /// conjunction and disjunction has two children or more, and every
    /// variable has a name that the grammar reads as one.
    pub open spec fn is_readable(self) -> bool
        decreases self,
    {
        match self {
            Formula::Conjunction(cs) => cs.len() >= 2 && forall|i: int|
                0 <= i < cs.len() ==> (#[trigger] cs[i]).is_readable(),
            Formula::Disjunction(cs) => cs.len() >= 2 && forall|i: int|
                0 <= i < cs.len() ==> (#[trigger] cs[i]).is_readable(),
            Formula::Implication(l, r) => l.is_readable() && r.is_readable(),
            Formula::Negation(c) => c.is_readable(),
            Formula::Variable(name) => is_variable_name(name),
            Formula::Contradiction => true,
        }
    }
}

/// What holds of a production's result: the formula is readable and some
/// text was taken.
pub open spec fn sound(result: Option<(Formula, Seq<char>)>, input: Seq<char>) -> bool {
    result matches Some((formula, rest)) ==> formula.is_readable() && rest.len() < input.len()
}

/// A readable formula keeps the invariants of the data model.
pub proof fn lemma_readable_is_well_formed(formula: Formula)
    requires
        formula.is_readable(),
    ensures
        formula.well_formed(),
    decreases formula,
{
    match formula {
        Formula::Conjunction(cs) => {
            assert forall|i: int| 0 <= i < cs.len() implies (#[trigger] cs[i]).well_formed() by {
                lemma_readable_is_well_formed(cs[i]);
            }
        },
        Formula::Disjunction(cs) => {
            assert forall|i: int| 0 <= i < cs.len() implies (#[trigger] cs[i]).well_formed() by {
                lemma_readable_is_well_formed(cs[i]);
            }
        },
        Formula::Implication(l, r) => {
            lemma_readable_is_well_formed(*l);
            lemma_readable_is_well_formed(*r);
        },
        Formula::Negation(c) => {
            lemma_readable_is_well_formed(*c);
        },
        Formula::Variable(name) => {},
        Formula::Contradiction => {},
    }
}

/// Every term that the grammar reads is readable, and reading it takes text.
pub proof fn lemma_term_sound(input: Seq<char>)
    ensures
        sound(term(input), input),
    decreases input.len(), 5int,
{
    lemma_conjunction_sound(input);
    lemma_disjunction_sound(input);
    lemma_implication_sound(input);
    lemma_factor_sound(input);
}

/// Every conjunction that the grammar reads is readable.
proof fn lemma_conjunction_sound(input: Seq<char>)
    ensures
        sound(conjunction(input), input),
    decreases input.len(), 4int,
{
    lemma_operands_sound(and_spellings(), input);
}

/// Every disjunction that the grammar reads is readable.
proof fn lemma_disjunction_sound(input: Seq<char>)
    ensures
        sound(disjunction(input), input),
    decreases input.len(), 4int,
{
    lemma_operands_sound(or_spellings(), input);
}

/// The operands that the grammar reads are two or more, each readable, and
/// reading them takes text.
proof fn lemma_operands_sound(spellings: Seq<Seq<char>>, input: Seq<char>)
    ensures
        operands(spellings, input) matches Some((children, rest)) ==> {
            &&& children.len() >= 2
            &&& forall|i: int| 0 <= i < children.len() ==> (#[trigger] children[i]).is_readable()
            &&& rest.len() < input.len()
        },
    decreases input.len(), 3int,
{
    lemma_factor_sound(input);
    if let Some((first, rest)) = factor(input) {
        if let Some(spelling) = first_spelling(spellings, rest) {
            lemma_more_operands_sound(spelling, rest);
        }
    }
}

/// The further operands that the grammar reads are readable, and the text
/// after them is no longer than the text they were read from.
proof fn lemma_more_operands_sound(spelling: Seq<char>, input: Seq<char>)
    ensures
        forall|i: int|
            0 <= i < more_operands(spelling, input).0.len() ==> (#[trigger] more_operands(
                spelling,
                input,
            ).0[i]).is_readable(),
        more_operands(spelling, input).1.len() <= input.len(),
    decreases input.len(), 2int,
{
    if let Some(after) = after_tag(spelling, input) {
        lemma_factor_sound(after);
        if let Some((operand, rest)) = factor(after) {
            lemma_more_operands_sound(spelling, rest);
        }
    }
}

/// Every implication that the grammar reads is readable.
proof fn lemma_implication_sound(input: Seq<char>)
    ensures
        sound(implication(input), input),
    decreases input.len(), 4int,
{
    lemma_factor_sound(input);
    if let Some((left, rest)) = factor(input) {
        if let Some(after) = after_first_tag(arrow_spellings(), rest) {
            lemma_factor_sound(after);
        }
    }
}

/// Every factor that the grammar reads is readable, and reading it takes text.
pub proof fn lemma_factor_sound(input: Seq<char>)
    ensures
        sound(factor(input), input),
    decreases input.len(), 1int,
{
    lemma_letters(input);
    if word(input) is Some {
    } else if glyph(input) is Some {
    } else if parenthesized(input) is Some {
        lemma_parenthesized_sound(input);
    } else {
        lemma_negation_sound(input);
    }
}

/// What the grammar reads between parentheses is readable.
proof fn lemma_parenthesized_sound(input: Seq<char>)
    ensures
        sound(parenthesized(input), input),
    decreases input.len(), 0int,
{
    if let Some(inner) = after_tag("("@, input) {
        lemma_term_sound(inner);
    }
}

/// Every negation that the grammar reads is readable.
proof fn lemma_negation_sound(input: Seq<char>)
    ensures
        sound(negation(input), input),
    decreases input.len(), 0int,
{
    if let Some(after) = after_first_tag(not_spellings(), input) {
        lemma_factor_sound(after);
    }
}

/// Every formula that a whole text spells is readable, and so keeps the
/// invariants of the data model.
pub proof fn lemma_whole_term_sound(text: Seq<char>)
    ensures
        whole_term(text) matches Some(formula) ==> formula.is_readable() && formula.well_formed(),
{
    lemma_term_sound(crate::grammar::without_whitespace(text));
    if let Some(formula) = whole_term(text) {
        lemma_readable_is_well_formed(formula);
    }
}

} // verus!
