//! The parser and the grammar relation agree: a text is read as a formula
//! iff it is a spelling of that formula.

use crate::derivation::{spells, spells_factor, spells_more, spells_operands, spells_term};
use crate::formula::{contradiction_glyph, reserved_name, Formula};
use crate::grammar::{
    after_tag, and_spellings, arrow_spellings, conjunction, disjunction, factor, first_spelling,
    glyph, implication, is_letter, lemma_letters, letters, more_operands, negation, not_spellings,
    operands, or_spellings, parenthesized, term, whole_term, without_whitespace, word,
};
use crate::shape::{is_variable_name, lemma_factor_sound};
use crate::tokens::{
    ends_term, is_operator, lemma_letters_of_run, lemma_literals, lemma_no_operator_follows,
    lemma_no_spelling, lemma_operator_sets, lemma_operators, lemma_spelling_found, lemma_tag_fails,
    starts_with, starts_with_no_letter,
};
use vstd::prelude::*;

verus! {

/// The first of `patterns` that `input` starts with is one of `patterns`,
/// and `input` starts with it.
proof fn lemma_first_spelling(patterns: Seq<Seq<char>>, input: Seq<char>)
    ensures
        first_spelling(patterns, input) matches Some(spelling) ==> patterns.contains(spelling)
            && after_tag(spelling, input) is Some,
    decreases patterns.len(),
{
    if patterns.len() > 0 {
        if after_tag(patterns[0], input) is Some {
            assert(patterns[0] == patterns[0]);
        } else {
            let others = patterns.drop_first();
            lemma_first_spelling(others, input);
            if let Some(spelling) = first_spelling(others, input) {
                let k = choose|k: int| 0 <= k < others.len() && others[k] == spelling;
                assert(patterns[k + 1] == spelling);
            }
        }
    }
}

/// What the grammar reads as a term is a spelling of the formula it reads.
pub proof fn lemma_term_spelled(input: Seq<char>)
    ensures
        term(input) matches Some((formula, rest)) ==> spells_term(formula, input, rest),
    decreases input.len(), 5int,
{
    if conjunction(input) is Some {
        let (cs, rest) = operands(and_spellings(), input).unwrap();
        let formula = Formula::Conjunction(cs);
        lemma_operands_spelled(and_spellings(), input);
        let spelling = choose|spelling: Seq<char>|
            #[trigger] and_spellings().contains(spelling) && spells_operands(
                cs,
                spelling,
                input,
                rest,
            );
        assert(formula->Conjunction_0 == cs);
        assert(spells_operands(formula->Conjunction_0, spelling, input, rest));
        assert(spells_term(formula, input, rest));
    } else if disjunction(input) is Some {
        let (cs, rest) = operands(or_spellings(), input).unwrap();
        let formula = Formula::Disjunction(cs);
        lemma_operands_spelled(or_spellings(), input);
        let spelling = choose|spelling: Seq<char>|
            #[trigger] or_spellings().contains(spelling) && spells_operands(
                cs,
                spelling,
                input,
                rest,
            );
        assert(formula->Disjunction_0 == cs);
        assert(spells_operands(formula->Disjunction_0, spelling, input, rest));
        assert(spells_term(formula, input, rest));
    } else if implication(input) is Some {
        lemma_implication_spelled(input);
    } else {
        lemma_factor_spelled(input);
    }
}

/// The operands that the grammar reads are spelled with one of `spellings`
/// between them.
proof fn lemma_operands_spelled(spellings: Seq<Seq<char>>, input: Seq<char>)
    ensures
        operands(spellings, input) matches Some((cs, rest)) ==> cs.len() >= 2 && exists|
            spelling: Seq<char>,
        |
            #[trigger] spellings.contains(spelling) && spells_operands(cs, spelling, input, rest),
    decreases input.len(), 3int,
{
    if let Some((cs, rest)) = operands(spellings, input) {
        let (first, middle) = factor(input).unwrap();
        let spelling = first_spelling(spellings, middle).unwrap();
        let (others, end) = more_operands(spelling, middle);
        lemma_factor_spelled(input);
        lemma_first_spelling(spellings, middle);
        assert(cs == seq![first] + others);
        assert(cs.skip(1) =~= others);
        assert(cs[0] == first);
        lemma_more_spelled(cs, 1, spelling, middle);
        assert(spells_factor(cs[0], input, middle));
        assert(spells_more(cs, 1, spelling, middle, rest));
        assert(after_tag(spelling, middle) is Some);
        assert(spells_operands(cs, spelling, input, rest));
    }
}

/// The further operands that the grammar reads, being the formulas of `cs`
/// from index `k` on, are spelled after `spelling` each.
proof fn lemma_more_spelled(cs: Seq<Formula>, k: int, spelling: Seq<char>, input: Seq<char>)
    requires
        0 <= k < cs.len(),
        more_operands(spelling, input).0 == cs.skip(k),
    ensures
        spells_more(cs, k, spelling, input, more_operands(spelling, input).1),
    decreases input.len(), 2int,
{
    let (others, end) = more_operands(spelling, input);
    assert(cs.skip(k).len() == cs.len() - k);
    if let Some(after) = after_tag(spelling, input) {
        lemma_factor_spelled(after);
        lemma_factor_sound(after);
        if let Some((operand, rest)) = factor(after) {
            let (further, last) = more_operands(spelling, rest);
            assert(others == seq![operand] + further);
            assert(end == last);
            assert(cs.skip(k)[0] == operand);
            assert(cs[k] == operand);
            assert forall|i: int| 0 <= i < further.len() implies cs.skip(k + 1)[i] == further[i] by {
                assert(cs.skip(k)[i + 1] == further[i]);
            }
            assert(cs.skip(k + 1) =~= further);
            assert(spells_factor(cs[k], after, rest));
            if k + 1 < cs.len() {
                lemma_more_spelled(cs, k + 1, spelling, rest);
                assert(spells_more(cs, k + 1, spelling, rest, end));
                assert(after_tag(spelling, rest) is Some);
            } else {
                assert(further.len() == 0);
                assert(end == rest);
            }
            assert(spells_more(cs, k, spelling, input, end));
        } else {
            assert(others.len() == 0);
        }
    } else {
        assert(others.len() == 0);
    }
}

/// What the grammar reads as an implication is a spelling of it.
proof fn lemma_implication_spelled(input: Seq<char>)
    ensures
        implication(input) matches Some((formula, rest)) ==> spells_term(formula, input, rest),
    decreases input.len(), 4int,
{
    if let Some((formula, rest)) = implication(input) {
        let (left, middle) = factor(input).unwrap();
        let spelling = first_spelling(arrow_spellings(), middle).unwrap();
        let after = after_tag(spelling, middle).unwrap();
        let (right, end) = factor(after).unwrap();
        lemma_factor_spelled(input);
        lemma_first_spelling(arrow_spellings(), middle);
        lemma_factor_spelled(after);
        assert(formula == Formula::Implication(Box::new(left), Box::new(right)));
        assert(*formula->Implication_0 == left);
        assert(*formula->Implication_1 == right);
        assert(end == rest);
        assert(spells_factor(*formula->Implication_0, input, middle));
        assert(after_tag(spelling, middle) == Some(after));
        assert(spells_factor(*formula->Implication_1, after, rest));
        assert(spells_term(formula, input, rest));
    }
}

/// What the grammar reads as a factor is a spelling of the formula it reads.
pub proof fn lemma_factor_spelled(input: Seq<char>)
    ensures
        factor(input) matches Some((formula, rest)) ==> spells_factor(formula, input, rest),
    decreases input.len(), 1int,
{
    if word(input) is Some {
        lemma_word_spelled(input);
    } else if glyph(input) is Some {
        let (formula, rest) = glyph(input).unwrap();
        assert(formula is Contradiction && after_tag(contradiction_glyph(), input) == Some(rest));
        assert(spells_factor(formula, input, rest));
    } else if parenthesized(input) is Some {
        let (formula, rest) = parenthesized(input).unwrap();
        let inner = after_tag("("@, input).unwrap();
        let (read, closing) = term(inner).unwrap();
        lemma_term_spelled(inner);
        assert(read == formula);
        assert(spells_term(formula, inner, closing));
        assert(after_tag(")"@, closing) == Some(rest));
        assert(spells_factor(formula, input, rest));
    } else if negation(input) is Some {
        let (formula, rest) = negation(input).unwrap();
        let spelling = first_spelling(not_spellings(), input).unwrap();
        let after = after_tag(spelling, input).unwrap();
        let (operand, end) = factor(after).unwrap();
        lemma_first_spelling(not_spellings(), input);
        lemma_factor_spelled(after);
        assert(*formula->Negation_0 == operand);
        assert(end == rest);
        assert(after_tag(spelling, input) == Some(after));
        assert(spells_factor(*formula->Negation_0, after, rest));
        assert(spells_factor(formula, input, rest));
    }
}

/// A run of letters that the grammar reads is a spelling of the variable or
/// of the contradiction that it reads.
proof fn lemma_word_spelled(input: Seq<char>)
    ensures
        word(input) matches Some((formula, rest)) ==> spells_factor(formula, input, rest),
{
    if let Some((formula, rest)) = word(input) {
        let n = letters(input) as int;
        let run = input.take(n);
        lemma_letters(input);
        assert(input =~= run + rest);
        if run == reserved_name() {
            assert(formula is Contradiction);
            assert(reserved_name().is_prefix_of(input));
            assert(after_tag(reserved_name(), input) == Some(rest));
        } else {
            assert(formula == Formula::Variable(run));
            assert(is_variable_name(run));
            assert(formula->Variable_0 == run);
        }
        assert(spells_factor(formula, input, rest));
    }
}

/// A spelling of a formula as a factor, with no letter after it, is read as
/// that formula.
pub proof fn lemma_factor_complete(formula: Formula, text: Seq<char>, rest: Seq<char>)
    requires
        spells_factor(formula, text, rest),
        starts_with_no_letter(rest),
    ensures
        factor(text) == Some((formula, rest)),
    decreases text.len(), 0int, 0int,
{
    lemma_operators();
    lemma_operator_sets();
    if formula is Variable && is_variable_name(formula->Variable_0) && text == formula->Variable_0
        + rest {
        let name = formula->Variable_0;
        lemma_letters_of_run(name, rest);
        assert(text.take(name.len() as int) =~= name);
        assert(text.skip(name.len() as int) =~= rest);
        assert(word(text) == Some((formula, rest)));
    } else if formula is Contradiction && after_tag(reserved_name(), text) == Some(rest) {
        lemma_literals();
        let name = reserved_name();
        assert(text =~= name + rest);
        assert(is_letter(name[0]));
        lemma_letters_of_run(name, rest);
        assert(text.take(1) =~= name);
        assert(word(text) == Some((formula, rest)));
    } else if formula is Contradiction && after_tag(contradiction_glyph(), text) == Some(rest) {
        assert(text.subrange(0, contradiction_glyph().len() as int)[0] == '⊥');
        assert(letters(text) == 0);
        assert(glyph(text) == Some((formula, rest)));
    } else if after_tag("("@, text) is Some && exists|closing: Seq<char>|
        #[trigger] after_tag(")"@, closing) == Some(rest) && spells_term(
            formula,
            after_tag("("@, text).unwrap(),
            closing,
        ) {
        let inner = after_tag("("@, text).unwrap();
        let closing = choose|closing: Seq<char>|
            #[trigger] after_tag(")"@, closing) == Some(rest) && spells_term(
                formula,
                inner,
                closing,
            );
        assert(closing.subrange(0, ")"@.len() as int)[0] == ')');
        lemma_term_complete(formula, inner, closing);
        assert(text.subrange(0, "("@.len() as int)[0] == '(');
        assert(letters(text) == 0);
        lemma_tag_fails(contradiction_glyph(), text);
        assert(parenthesized(text) == Some((formula, rest)));
    } else {
        let operand = *formula->Negation_0;
        let spelling = choose|spelling: Seq<char>|
            {
                &&& not_spellings().contains(spelling)
                &&& #[trigger] after_tag(spelling, text) matches Some(after)
                &&& spells_factor(operand, after, rest)
            };
        let after = after_tag(spelling, text).unwrap();
        lemma_spelling_found(not_spellings(), spelling, text);
        lemma_factor_complete(operand, after, rest);
        assert(letters(text) == 0);
        lemma_tag_fails(contradiction_glyph(), text);
        lemma_tag_fails("("@, text);
        assert(formula == Formula::Negation(Box::new(operand)));
        assert(negation(text) == Some((formula, rest)));
    }
}

/// A spelling of a formula as a term, with nothing or a closing parenthesis
/// after it, is read as that formula.
pub proof fn lemma_term_complete(formula: Formula, text: Seq<char>, rest: Seq<char>)
    requires
        spells_term(formula, text, rest),
        ends_term(rest),
    ensures
        term(text) == Some((formula, rest)),
    decreases text.len(), 3int, 0int,
{
    lemma_operator_sets();
    if spells_factor(formula, text, rest) {
        lemma_no_operator_follows(and_spellings(), rest);
        lemma_no_operator_follows(or_spellings(), rest);
        lemma_no_operator_follows(arrow_spellings(), rest);
        lemma_factor_complete(formula, text, rest);
    } else if formula is Conjunction && exists|spelling: Seq<char>|
        #[trigger] and_spellings().contains(spelling) && spells_operands(
            formula->Conjunction_0,
            spelling,
            text,
            rest,
        ) {
        let cs = formula->Conjunction_0;
        let spelling = choose|spelling: Seq<char>|
            #[trigger] and_spellings().contains(spelling) && spells_operands(
                cs,
                spelling,
                text,
                rest,
            );
        lemma_operands_complete(cs, and_spellings(), spelling, text, rest);
        assert(conjunction(text) == Some((formula, rest)));
    } else if formula is Disjunction && exists|spelling: Seq<char>|
        #[trigger] or_spellings().contains(spelling) && spells_operands(
            formula->Disjunction_0,
            spelling,
            text,
            rest,
        ) {
        let cs = formula->Disjunction_0;
        let spelling = choose|spelling: Seq<char>|
            #[trigger] or_spellings().contains(spelling) && spells_operands(
                cs,
                spelling,
                text,
                rest,
            );
        lemma_operands_complete(cs, or_spellings(), spelling, text, rest);
        let (first, middle) = factor(text).unwrap();
        lemma_spelling_found(or_spellings(), spelling, middle);
        assert(starts_with(middle, spelling[0]));
        lemma_no_spelling(and_spellings(), middle);
        assert(conjunction(text) is None);
        assert(disjunction(text) == Some((formula, rest)));
    } else {
        let left = *formula->Implication_0;
        let right = *formula->Implication_1;
        let (middle, spelling) = choose|middle: Seq<char>, spelling: Seq<char>|
            {
                &&& arrow_spellings().contains(spelling)
                &&& #[trigger] after_tag(spelling, middle) matches Some(after)
                &&& middle.len() <= text.len()
                &&& spells_factor(left, text, middle)
                &&& spells_factor(right, after, rest)
            };
        let after = after_tag(spelling, middle).unwrap();
        lemma_spelling_found(arrow_spellings(), spelling, middle);
        lemma_factor_complete(left, text, middle);
        lemma_no_operator_follows(and_spellings(), rest);
        lemma_factor_complete(right, after, rest);
        assert(starts_with(middle, spelling[0]));
        lemma_no_spelling(and_spellings(), middle);
        lemma_no_spelling(or_spellings(), middle);
        assert(conjunction(text) is None);
        assert(disjunction(text) is None);
        assert(formula == Formula::Implication(Box::new(left), Box::new(right)));
        assert(implication(text) == Some((formula, rest)));
    }
}

/// A spelling of two or more operands, with nothing or a closing
/// parenthesis after it, is read as those operands.
proof fn lemma_operands_complete(
    cs: Seq<Formula>,
    spellings: Seq<Seq<char>>,
    spelling: Seq<char>,
    text: Seq<char>,
    rest: Seq<char>,
)
    requires
        is_operator(spellings),
        spellings.contains(spelling),
        spells_operands(cs, spelling, text, rest),
        ends_term(rest),
    ensures
        operands(spellings, text) == Some((cs, rest)),
        factor(text) matches Some((_, middle)) && after_tag(spelling, middle) is Some,
    decreases text.len(), 2int, 0int,
{
    let middle = choose|middle: Seq<char>|
        {
            &&& #[trigger] after_tag(spelling, middle) is Some
            &&& middle.len() <= text.len()
            &&& spells_factor(cs[0], text, middle)
            &&& spells_more(cs, 1, spelling, middle, rest)
        };
    lemma_spelling_found(spellings, spelling, middle);
    lemma_factor_complete(cs[0], text, middle);
    lemma_more_complete(cs, 1, spellings, spelling, middle, rest);
    assert(seq![cs[0]] + cs.skip(1) =~= cs);
}

/// A spelling of the operands from index `k` on, each after `spelling`, with
/// nothing or a closing parenthesis after it, is read as those operands.
proof fn lemma_more_complete(
    cs: Seq<Formula>,
    k: int,
    spellings: Seq<Seq<char>>,
    spelling: Seq<char>,
    text: Seq<char>,
    rest: Seq<char>,
)
    requires
        is_operator(spellings),
        spellings.contains(spelling),
        spells_more(cs, k, spelling, text, rest),
        ends_term(rest),
    ensures
        more_operands(spelling, text) == (cs.skip(k), rest),
    decreases text.len(), 1int, cs.len() - k,
{
    let after = after_tag(spelling, text).unwrap();
    lemma_factor_sound(after);
    if k + 1 == cs.len() {
        lemma_no_operator_follows(spellings, rest);
        lemma_factor_complete(cs[k], after, rest);
        if rest.len() > 0 {
            lemma_spelling_found(spellings, spelling, text);
            lemma_tag_fails(spelling, rest);
        }
        assert(more_operands(spelling, rest) == (Seq::<Formula>::empty(), rest));
        assert(seq![cs[k]] + Seq::<Formula>::empty() =~= cs.skip(k));
    } else {
        let middle = choose|middle: Seq<char>|
            {
                &&& #[trigger] after_tag(spelling, middle) is Some
                &&& middle.len() <= after.len()
                &&& spells_factor(cs[k], after, middle)
                &&& spells_more(cs, k + 1, spelling, middle, rest)
            };
        lemma_spelling_found(spellings, spelling, middle);
        lemma_factor_complete(cs[k], after, middle);
        lemma_more_complete(cs, k + 1, spellings, spelling, middle, rest);
        assert(seq![cs[k]] + cs.skip(k + 1) =~= cs.skip(k));
    }
}

/// The parser and the grammar agree: a text is read as a formula iff,
/// without its white space, it is a spelling of that formula.
pub proof fn lemma_reads_what_is_spelled(text: Seq<char>, formula: Formula)
    ensures
        whole_term(text) == Some(formula) <==> spells(formula, without_whitespace(text)),
{
    let stripped = without_whitespace(text);
    let nothing = Seq::<char>::empty();
    if whole_term(text) == Some(formula) {
        lemma_term_spelled(stripped);
        let (read, rest) = term(stripped).unwrap();
        assert(rest =~= nothing);
    }
    if spells(formula, stripped) {
        lemma_term_complete(formula, stripped, nothing);
    }
}

/// No text spells two formulas.
pub proof fn lemma_spelling_is_unambiguous(text: Seq<char>, a: Formula, b: Formula)
    requires
        spells(a, text),
        spells(b, text),
    ensures
        a == b,
{
    let nothing = Seq::<char>::empty();
    lemma_term_complete(a, text, nothing);
    lemma_term_complete(b, text, nothing);
}

} // verus!
