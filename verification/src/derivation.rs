//! The grammar of formulas as a relation: which texts spell which formula.
//!
//! `spells_term(f, text, rest)` says that `text` is a spelling of `f` as a
//! term, followed by `rest`. The relation follows the productions of the
//! grammar and knows nothing of the order in which a parser tries them.
//!
//! The relation is defined by recursion on the length of the text. Where it
//! names the text that follows a factor, it asks that this text is no longer
//! than the text the factor was spelled in, which holds of every spelling
//! and makes the recursion well founded.

use crate::formula::{contradiction_glyph, reserved_name, Formula};
use crate::grammar::{after_tag, and_spellings, arrow_spellings, not_spellings, or_spellings};
use crate::shape::is_variable_name;
use vstd::prelude::*;

verus! {

/// `factor := variable | contradiction | '(' term ')' | NOT factor`
///
/// `text` is a spelling of `formula` as a factor, followed by `rest`.
pub open spec fn spells_factor(formula: Formula, text: Seq<char>, rest: Seq<char>) -> bool
    decreases text.len(), 0int, 0int,
{
    ||| formula matches Formula::Variable(name) && is_variable_name(name) && text == name + rest
    ||| formula is Contradiction && after_tag(reserved_name(), text) == Some(rest)
    ||| formula is Contradiction && after_tag(contradiction_glyph(), text) == Some(rest)
    ||| after_tag("("@, text) matches Some(inner) && exists|closing: Seq<char>|
        #[trigger] after_tag(")"@, closing) == Some(rest) && spells_term(formula, inner, closing)
    ||| formula matches Formula::Negation(operand) && exists|spelling: Seq<char>|
        {
            &&& not_spellings().contains(spelling)
            &&& #[trigger] after_tag(spelling, text) matches Some(after)
            &&& spells_factor(*operand, after, rest)
        }
}

/// `term := factor (AND factor)+ | factor (OR factor)+ | factor ARROW factor | factor`
///
/// `text` is a spelling of `formula` as a term, followed by `rest`. All the
/// operands of a conjunction or disjunction are separated by one spelling of
/// its operator.
pub open spec fn spells_term(formula: Formula, text: Seq<char>, rest: Seq<char>) -> bool
    decreases text.len(), 2int, 0int,
{
    ||| spells_factor(formula, text, rest)
    ||| formula matches Formula::Conjunction(cs) && cs.len() >= 2 && exists|spelling: Seq<char>|
        #[trigger] and_spellings().contains(spelling) && spells_operands(cs, spelling, text, rest)
    ||| formula matches Formula::Disjunction(cs) && cs.len() >= 2 && exists|spelling: Seq<char>|
        #[trigger] or_spellings().contains(spelling) && spells_operands(cs, spelling, text, rest)
    ||| formula matches Formula::Implication(left, right) && exists|
        middle: Seq<char>,
        spelling: Seq<char>,
    |
        {
            &&& arrow_spellings().contains(spelling)
            &&& #[trigger] after_tag(spelling, middle) matches Some(after)
            &&& middle.len() <= text.len()
            &&& spells_factor(*left, text, middle)
            &&& spells_factor(*right, after, rest)
        }
}

/// `text` spells the first of `cs` as a factor and then each of the others
/// after `spelling`, followed by `rest`.
pub open spec fn spells_operands(
    cs: Seq<Formula>,
    spelling: Seq<char>,
    text: Seq<char>,
    rest: Seq<char>,
) -> bool
    decreases text.len(), 1int, 0int,
{
    cs.len() >= 2 && exists|middle: Seq<char>|
        {
            &&& #[trigger] after_tag(spelling, middle) is Some
            &&& middle.len() <= text.len()
            &&& spells_factor(cs[0], text, middle)
            &&& spells_more(cs, 1, spelling, middle, rest)
        }
}

/// `text` spells each of `cs` from index `k` on as a factor after
/// `spelling`, followed by `rest`.
pub open spec fn spells_more(
    cs: Seq<Formula>,
    k: int,
    spelling: Seq<char>,
    text: Seq<char>,
    rest: Seq<char>,
) -> bool
    decreases text.len(), 0int, cs.len() - k,
{
    &&& 0 <= k < cs.len()
    &&& after_tag(spelling, text) matches Some(after)
    &&& if k + 1 == cs.len() {
        spells_factor(cs[k], after, rest)
    } else {
        exists|middle: Seq<char>|
            {
                &&& #[trigger] after_tag(spelling, middle) is Some
                &&& middle.len() <= after.len()
                &&& spells_factor(cs[k], after, middle)
                &&& spells_more(cs, k + 1, spelling, middle, rest)
            }
    }
}

/// `text`, from its first character to its last, is a spelling of `formula`.
pub open spec fn spells(formula: Formula, text: Seq<char>) -> bool {
    spells_term(formula, text, Seq::empty())
}

} // verus!
