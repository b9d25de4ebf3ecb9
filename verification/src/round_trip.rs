//! Reading back what was rendered: the rendering of a formula that the
//! grammar can read is one of its spellings, and so is read as that same
//! formula.

use crate::characterization::lemma_term_complete;
use crate::derivation::{spells_factor, spells_more, spells_operands, spells_term};
use crate::formula::{contradiction_glyph, join, Formula};
use crate::grammar::{
    after_tag, and_spellings, arrow_spellings, is_kept, is_letter, is_whitespace, not_spellings,
    or_spellings, whole_term, without_whitespace,
};
use crate::shape::lemma_whole_term_sound;
use crate::tokens::{lemma_literals, lemma_operators, lemma_tag_reads};
use vstd::prelude::*;

verus! {

/// The rendering of `formula` without its white space, followed by `rest`.
///
/// A formula with two children or more stands in parentheses, as in its
/// rendering.
pub open spec fn spell(formula: Formula, rest: Seq<char>) -> Seq<char>
    decreases formula, 0int,
{
    match formula {
        Formula::Conjunction(cs) => "("@ + spell_from(cs, 0, "∧"@, ")"@ + rest),
        Formula::Disjunction(cs) => "("@ + spell_from(cs, 0, "∨"@, ")"@ + rest),
        Formula::Implication(l, r) => "("@ + spell(*l, "→"@ + spell(*r, ")"@ + rest)),
        Formula::Negation(c) => "¬"@ + spell(*c, rest),
        Formula::Variable(name) => name + rest,
        Formula::Contradiction => contradiction_glyph() + rest,
    }
}

/// The formulas of `cs` from index `k` on, spelled one after the other with
/// `separator` between each two neighbours, followed by `rest`.
pub open spec fn spell_from(cs: Seq<Formula>, k: int, separator: Seq<char>, rest: Seq<char>) -> Seq<
    char,
>
    decreases cs, cs.len() - k,
{
    if k < 0 || k >= cs.len() {
        rest
    } else if k + 1 < cs.len() {
        spell(cs[k], separator + spell_from(cs, k + 1, separator, rest))
    } else {
        spell(cs[k], rest)
    }
}

/// What is spelled is no shorter than what follows it.
proof fn lemma_spell_len(formula: Formula, rest: Seq<char>)
    ensures
        spell(formula, rest).len() >= rest.len(),
    decreases formula, 0int,
{
    match formula {
        Formula::Conjunction(cs) => lemma_spell_from_len(cs, 0, "∧"@, ")"@ + rest),
        Formula::Disjunction(cs) => lemma_spell_from_len(cs, 0, "∨"@, ")"@ + rest),
        Formula::Implication(l, r) => {
            lemma_spell_len(*r, ")"@ + rest);
            lemma_spell_len(*l, "→"@ + spell(*r, ")"@ + rest));
        },
        Formula::Negation(c) => lemma_spell_len(*c, rest),
        Formula::Variable(_) => {},
        Formula::Contradiction => {},
    }
}

/// What is spelled of a list is no shorter than what follows it.
proof fn lemma_spell_from_len(cs: Seq<Formula>, k: int, separator: Seq<char>, rest: Seq<char>)
    ensures
        spell_from(cs, k, separator, rest).len() >= rest.len(),
    decreases cs, cs.len() - k,
{
    if 0 <= k < cs.len() {
        if k + 1 < cs.len() {
            lemma_spell_from_len(cs, k + 1, separator, rest);
            lemma_spell_len(cs[k], separator + spell_from(cs, k + 1, separator, rest));
        } else {
            lemma_spell_len(cs[k], rest);
        }
    }
}

/// The spelling of a readable formula is one of its spellings as a factor.
pub proof fn lemma_spell_is_spelled(formula: Formula, rest: Seq<char>)
    requires
        formula.is_readable(),
    ensures
        spells_factor(formula, spell(formula, rest), rest),
    decreases formula, 1int,
{
    lemma_operators();
    let text = spell(formula, rest);
    match formula {
        Formula::Conjunction(cs) => {
            assert(and_spellings().contains(and_spellings()[1]));
            lemma_operands_are_spelled(cs, "∧"@, ")"@ + rest);
            let inner = spell_from(cs, 0, "∧"@, ")"@ + rest);
            assert(formula->Conjunction_0 == cs);
            assert(spells_term(formula, inner, ")"@ + rest));
            lemma_tag_reads("("@, inner);
            lemma_tag_reads(")"@, rest);
        },
        Formula::Disjunction(cs) => {
            assert(or_spellings().contains(or_spellings()[1]));
            lemma_operands_are_spelled(cs, "∨"@, ")"@ + rest);
            let inner = spell_from(cs, 0, "∨"@, ")"@ + rest);
            assert(formula->Disjunction_0 == cs);
            assert(spells_term(formula, inner, ")"@ + rest));
            lemma_tag_reads("("@, inner);
            lemma_tag_reads(")"@, rest);
        },
        Formula::Implication(l, r) => {
            let closing = ")"@ + rest;
            let after = spell(*r, closing);
            let middle = "→"@ + after;
            let inner = spell(*l, middle);
            assert(arrow_spellings().contains(arrow_spellings()[1]));
            lemma_spell_is_spelled(*l, middle);
            lemma_spell_is_spelled(*r, closing);
            lemma_spell_len(*l, middle);
            lemma_tag_reads("→"@, after);
            assert(*formula->Implication_0 == *l && *formula->Implication_1 == *r);
            assert(after_tag("→"@, middle) == Some(after));
            assert(spells_term(formula, inner, closing));
            lemma_tag_reads("("@, inner);
            lemma_tag_reads(")"@, rest);
        },
        Formula::Negation(c) => {
            let after = spell(*c, rest);
            assert(not_spellings().contains(not_spellings()[1]));
            lemma_spell_is_spelled(*c, rest);
            lemma_tag_reads("¬"@, after);
            assert(*formula->Negation_0 == *c);
            assert(after_tag("¬"@, text) == Some(after));
        },
        Formula::Variable(name) => {
            assert(formula->Variable_0 == name);
        },
        Formula::Contradiction => {
            lemma_tag_reads(contradiction_glyph(), rest);
        },
    }
}

/// The spelling of two or more readable formulas with `separator` between
/// them is one of their spellings as operands.
proof fn lemma_operands_are_spelled(cs: Seq<Formula>, separator: Seq<char>, rest: Seq<char>)
    requires
        cs.len() >= 2,
        forall|i: int| 0 <= i < cs.len() ==> (#[trigger] cs[i]).is_readable(),
        separator.len() > 0,
    ensures
        spells_operands(cs, separator, spell_from(cs, 0, separator, rest), rest),
    decreases cs, cs.len() + 1,
{
    let tail = spell_from(cs, 1, separator, rest);
    let middle = separator + tail;
    lemma_tag_reads(separator, tail);
    lemma_spell_is_spelled(cs[0], middle);
    lemma_spell_len(cs[0], middle);
    lemma_more_are_spelled(cs, 1, separator, rest);
    assert(after_tag(separator, middle) is Some);
}

/// The spelling of the readable formulas from index `k` on, each after
/// `separator`, is one of their spellings as further operands.
proof fn lemma_more_are_spelled(cs: Seq<Formula>, k: int, separator: Seq<char>, rest: Seq<char>)
    requires
        1 <= k < cs.len(),
        forall|i: int| 0 <= i < cs.len() ==> (#[trigger] cs[i]).is_readable(),
        separator.len() > 0,
    ensures
        spells_more(cs, k, separator, separator + spell_from(cs, k, separator, rest), rest),
    decreases cs, cs.len() - k,
{
    let spelled = spell_from(cs, k, separator, rest);
    lemma_tag_reads(separator, spelled);
    if k + 1 < cs.len() {
        let tail = spell_from(cs, k + 1, separator, rest);
        let middle = separator + tail;
        lemma_tag_reads(separator, tail);
        lemma_spell_is_spelled(cs[k], middle);
        lemma_spell_len(cs[k], middle);
        lemma_more_are_spelled(cs, k + 1, separator, rest);
        assert(after_tag(separator, middle) is Some);
    } else {
        lemma_spell_is_spelled(cs[k], rest);
    }
}

/// Taking the white space out of a text that holds none leaves the text.
proof fn lemma_nothing_to_strip(text: Seq<char>)
    requires
        forall|i: int| 0 <= i < text.len() ==> !is_whitespace(#[trigger] text[i]),
    ensures
        without_whitespace(text) == text,
    decreases text.len(),
{
    reveal(Seq::filter);
    if text.len() > 0 {
        let shorter = text.drop_last();
        assert forall|i: int| 0 <= i < shorter.len() implies !is_whitespace(
            #[trigger] shorter[i],
        ) by {
            assert(shorter[i] == text[i]);
        }
        lemma_nothing_to_strip(shorter);
        assert(shorter.push(text.last()) =~= text);
    }
}

/// Taking the white space out of a text made of two parts is taking it out
/// of each part.
proof fn lemma_strip_parts(a: Seq<char>, b: Seq<char>)
    ensures
        without_whitespace(a + b) == without_whitespace(a) + without_whitespace(b),
{
    Seq::filter_distributes_over_add(a, b, is_kept());
}

/// A character that is no white space stays, and the spaces around it go.
proof fn lemma_strip_spaced(c: char)
    requires
        !is_whitespace(c),
    ensures
        without_whitespace(seq![c]) == seq![c],
        without_whitespace(seq![' ', c, ' ']) == seq![c],
{
    let space = seq![' '];
    let middle = seq![c];
    lemma_nothing_to_strip(middle);
    assert(without_whitespace(space) =~= Seq::<char>::empty()) by {
        reveal_with_fuel(Seq::filter, 2);
        assert(space.drop_last() =~= Seq::<char>::empty());
    }
    lemma_strip_parts(space + middle, space);
    lemma_strip_parts(space, middle);
    assert(seq![' ', c, ' '] =~= space + middle + space);
    assert(Seq::<char>::empty() + middle + Seq::<char>::empty() =~= middle);
}

/// What is left of the literals of the rendering without their white space.
proof fn lemma_strip_literals()
    ensures
        without_whitespace("("@) == "("@,
        without_whitespace(")"@) == ")"@,
        without_whitespace("¬"@) == "¬"@,
        without_whitespace(contradiction_glyph()) == contradiction_glyph(),
        without_whitespace(" ∧ "@) == "∧"@,
        without_whitespace(" ∨ "@) == "∨"@,
        without_whitespace(" → "@) == "→"@,
{
    lemma_literals();
    lemma_strip_spaced('(');
    lemma_strip_spaced(')');
    lemma_strip_spaced('¬');
    lemma_strip_spaced('⊥');
    lemma_strip_spaced('∧');
    lemma_strip_spaced('∨');
    lemma_strip_spaced('→');
}

/// Two or more parts joined are the first part, the separator and the
/// other parts joined.
proof fn lemma_join_first(parts: Seq<Seq<char>>, separator: Seq<char>)
    requires
        parts.len() >= 2,
    ensures
        join(parts, separator) == parts[0] + separator + join(parts.skip(1), separator),
    decreases parts.len(),
{
    let others = parts.skip(1);
    if parts.len() == 2 {
        assert(parts.drop_last().len() == 1);
        assert(join(parts.drop_last(), separator) == parts[0]);
        assert(join(others, separator) == parts[1]);
    } else {
        let shorter = parts.drop_last();
        lemma_join_first(shorter, separator);
        assert(shorter.skip(1) =~= others.drop_last());
        assert(others.last() == parts.last());
        assert(join(parts, separator) =~= parts[0] + separator + join(others, separator));
    }
}

/// A readable formula's rendering without its white space is its spelling.
pub proof fn lemma_render_spells(formula: Formula, rest: Seq<char>)
    requires
        formula.is_readable(),
    ensures
        without_whitespace(formula.render()) + rest == spell(formula, rest),
    decreases formula, 0int,
{
    lemma_strip_literals();
    match formula {
        Formula::Conjunction(cs) => {
            let joined = join(Formula::render_all(cs), " ∧ "@);
            lemma_join_spells(cs, 0, " ∧ "@, "∧"@, ")"@ + rest);
            assert(Formula::render_all(cs).skip(0) =~= Formula::render_all(cs));
            lemma_strip_parts("("@ + joined, ")"@);
            lemma_strip_parts("("@, joined);
            assert("("@ + without_whitespace(joined) + ")"@ + rest =~= "("@ + (without_whitespace(
                joined,
            ) + (")"@ + rest)));
        },
        Formula::Disjunction(cs) => {
            let joined = join(Formula::render_all(cs), " ∨ "@);
            lemma_join_spells(cs, 0, " ∨ "@, "∨"@, ")"@ + rest);
            assert(Formula::render_all(cs).skip(0) =~= Formula::render_all(cs));
            lemma_strip_parts("("@ + joined, ")"@);
            lemma_strip_parts("("@, joined);
            assert("("@ + without_whitespace(joined) + ")"@ + rest =~= "("@ + (without_whitespace(
                joined,
            ) + (")"@ + rest)));
        },
        Formula::Implication(l, r) => {
            let left = l.render();
            let right = r.render();
            lemma_render_spells(*r, ")"@ + rest);
            lemma_render_spells(*l, "→"@ + spell(*r, ")"@ + rest));
            lemma_strip_parts("("@ + left + " → "@ + right, ")"@);
            lemma_strip_parts("("@ + left + " → "@, right);
            lemma_strip_parts("("@ + left, " → "@);
            lemma_strip_parts("("@, left);
            assert("("@ + without_whitespace(left) + "→"@ + without_whitespace(right) + ")"@ + rest
                =~= "("@ + (without_whitespace(left) + ("→"@ + (without_whitespace(right) + (")"@
                + rest)))));
        },
        Formula::Negation(c) => {
            lemma_render_spells(*c, rest);
            lemma_strip_parts("¬"@, c.render());
            assert("¬"@ + without_whitespace(c.render()) + rest =~= "¬"@ + (without_whitespace(
                c.render(),
            ) + rest));
        },
        Formula::Variable(name) => {
            assert forall|i: int| 0 <= i < name.len() implies !is_whitespace(#[trigger] name[i]) by {
                assert(is_letter(name[i]));
            }
            lemma_nothing_to_strip(name);
        },
        Formula::Contradiction => {},
    }
}

/// The renderings of readable formulas from index `k` on, joined by a
/// separator, are without their white space the spelling of those formulas.
proof fn lemma_join_spells(
    cs: Seq<Formula>,
    k: int,
    wide: Seq<char>,
    separator: Seq<char>,
    rest: Seq<char>,
)
    requires
        0 <= k < cs.len(),
        forall|i: int| 0 <= i < cs.len() ==> (#[trigger] cs[i]).is_readable(),
        without_whitespace(wide) == separator,
    ensures
        without_whitespace(join(Formula::render_all(cs).skip(k), wide)) + rest == spell_from(
            cs,
            k,
            separator,
            rest,
        ),
    decreases cs, cs.len() - k,
{
    let parts = Formula::render_all(cs).skip(k);
    assert(parts[0] == cs[k].render());
    if k + 1 < cs.len() {
        let others = Formula::render_all(cs).skip(k + 1);
        assert(parts.skip(1) =~= others);
        lemma_join_first(parts, wide);
        lemma_join_spells(cs, k + 1, wide, separator, rest);
        let tail = spell_from(cs, k + 1, separator, rest);
        lemma_render_spells(cs[k], separator + tail);
        lemma_strip_parts(parts[0] + wide, join(others, wide));
        lemma_strip_parts(parts[0], wide);
        assert(without_whitespace(parts[0]) + separator + without_whitespace(join(others, wide))
            + rest =~= without_whitespace(parts[0]) + (separator + (without_whitespace(
            join(others, wide),
        ) + rest)));
    } else {
        assert(parts.len() == 1);
        lemma_render_spells(cs[k], rest);
    }
}

/// The grammar reads the rendering of a readable formula as that formula.
pub proof fn lemma_rendering_reads(formula: Formula)
    requires
        formula.is_readable(),
    ensures
        whole_term(formula.render()) == Some(formula),
{
    let nothing = Seq::<char>::empty();
    lemma_render_spells(formula, nothing);
    assert(without_whitespace(formula.render()) + nothing =~= without_whitespace(formula.render()));
    lemma_spell_is_spelled(formula, nothing);
    lemma_term_complete(formula, spell(formula, nothing), nothing);
}

/// Round trip: where a text spells a formula, the rendering of that formula
/// spells the same formula, and so renders as the same text again.
pub proof fn lemma_round_trip(text: Seq<char>)
    requires
        whole_term(text) is Some,
    ensures
        whole_term(whole_term(text).unwrap().render()) == whole_term(text),
        whole_term(whole_term(text).unwrap().render()).unwrap().render() == whole_term(
            text,
        ).unwrap().render(),
{
    lemma_whole_term_sound(text);
    lemma_rendering_reads(whole_term(text).unwrap());
}

} // verus!
