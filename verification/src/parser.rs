//! The recursive-descent parser for the grammar of `crate::grammar`.
//!
//! Tokens are recognized by `nom`; sequencing, ordered choice and repetition
//! are written out and verified against the grammar.

use crate::characterization::lemma_reads_what_is_spelled;
use crate::derivation::spells;
use crate::formula::Formula;
use crate::grammar::{
    after_tag, and_spellings, arrow_spellings, conjunction, disjunction, factor, first_spelling,
    glyph, implication, lemma_letters, letters, more_operands, negation, not_spellings, operands,
    or_spellings, parenthesized, term, whole_term, without_whitespace, word, Parsed,
};
use crate::names::views;
use crate::node::{
    formulas, AndNode, ContradictionNode, IfThenNode, Node, NotNode, OrNode, PropositionNode,
};
use crate::shape::lemma_whole_term_sound;
use crate::whitespace::strip_whitespace;
use vstd::prelude::*;

verus! {

/// `nom::bytes::complete::tag` on string slices: where `input` starts with
/// `pattern`, the text after the pattern; `None` where it does not.
#[verifier::external_body]
fn tag<'a>(pattern: &str, input: &'a str) -> (r: Option<&'a str>)
    ensures
        match r {
            Some(rest) => pattern@.is_prefix_of(input@) && rest@ == input@.skip(
                pattern@.len() as int,
            ),
            None => !pattern@.is_prefix_of(input@),
        },
{
    nom::bytes::complete::tag::<&str, &'a str, ()>(pattern)(input).ok().map(|found| found.0)
}

/// `nom::character::complete::alpha1` on string slices: the text after the
/// longest run of the letters `a` to `z` and `A` to `Z` that `input` starts
/// with, and that run; `None` where `input` starts with no letter.
#[verifier::external_body]
fn alpha1<'a>(input: &'a str) -> (r: Option<(&'a str, &'a str)>)
    ensures
        match r {
            Some((rest, run)) => {
                &&& letters(input@) > 0
                &&& run@ == input@.take(letters(input@) as int)
                &&& rest@ == input@.skip(letters(input@) as int)
            },
            None => letters(input@) == 0,
        },
{
    nom::character::complete::alpha1::<&'a str, ()>(input).ok()
}

/// `nom::combinator::eof` on string slices: whether `input` is empty.
#[verifier::external_body]
fn eof(input: &str) -> (r: bool)
    ensures
        r == (input@.len() == 0),
{
    nom::combinator::eof::<&str, ()>(input).is_ok()
}

/// What a parsing function returned stands for what the grammar makes of
/// the text.
pub open spec fn agrees(r: Option<(&str, Node)>, expected: Parsed) -> bool {
    match r {
        Some((rest, node)) => expected == Some((node@, rest@)),
        None => expected is None,
    }
}

/// The text that a successful parsing function left is shorter than the
/// text it was given.
pub open spec fn consumed(r: Option<(&str, Node)>, fragment: &str) -> bool {
    r matches Some((rest, _)) ==> rest@.len() < fragment@.len()
}

/// Every one of `patterns` holds at least one character.
pub open spec fn all_non_empty(patterns: Seq<&str>) -> bool {
    forall|i: int| 0 <= i < patterns.len() ==> (#[trigger] patterns[i])@.len() > 0
}

/// The spellings of AND.
fn and_operators() -> (r: Vec<&'static str>)
    ensures
        views(r@) == and_spellings(),
        all_non_empty(r@),
{
    proof {
        reveal_strlit("/\\");
        reveal_strlit("∧");
        reveal_strlit("&");
    }
    let r = vec!["/\\", "∧", "&"];
    assert(views(r@) =~= and_spellings());
    r
}

/// The spellings of OR.
fn or_operators() -> (r: Vec<&'static str>)
    ensures
        views(r@) == or_spellings(),
        all_non_empty(r@),
{
    proof {
        reveal_strlit("\\/");
        reveal_strlit("∨");
        reveal_strlit("||");
    }
    let r = vec!["\\/", "∨", "||"];
    assert(views(r@) =~= or_spellings());
    r
}

/// The spellings of the arrow.
fn arrow_operators() -> (r: Vec<&'static str>)
    ensures
        views(r@) == arrow_spellings(),
        all_non_empty(r@),
{
    proof {
        reveal_strlit("->");
        reveal_strlit("→");
    }
    let r = vec!["->", "→"];
    assert(views(r@) =~= arrow_spellings());
    r
}

/// The spellings of NOT.
fn not_operators() -> (r: Vec<&'static str>)
    ensures
        views(r@) == not_spellings(),
        all_non_empty(r@),
{
    proof {
        reveal_strlit("~");
        reveal_strlit("¬");
        reveal_strlit("!");
    }
    let r = vec!["~", "¬", "!"];
    assert(views(r@) =~= not_spellings());
    r
}

/// Tries `patterns` in order: the index of the first that `input` starts
/// with, and the text after it.
fn first_tag<'a>(patterns: &Vec<&str>, input: &'a str) -> (r: Option<(usize, &'a str)>)
    requires
        all_non_empty(patterns@),
    ensures
        match r {
            Some((k, rest)) => {
                &&& k < patterns.len()
                &&& first_spelling(views(patterns@), input@) == Some(patterns@[k as int]@)
                &&& after_tag(patterns@[k as int]@, input@) == Some(rest@)
            },
            None => first_spelling(views(patterns@), input@) is None,
        },
{
    let ghost all = views(patterns@);
    let mut k: usize = 0;
    assert(all.skip(0) =~= all);
    while k < patterns.len()
        invariant
            k <= patterns.len(),
            all == views(patterns@),
            all_non_empty(patterns@),
            first_spelling(all, input@) == first_spelling(all.skip(k as int), input@),
        decreases patterns.len() - k,
    {
        proof {
            assert(all.skip(k as int)[0] == patterns@[k as int]@);
            assert(all.skip(k as int).drop_first() =~= all.skip(k + 1));
        }
        match tag(patterns[k], input) {
            Some(rest) => {
                return Some((k, rest));
            },
            None => {
                k += 1;
            },
        }
    }
    None
}

/// The whole of `term`, white space apart, as one formula; `None` where the
/// text is no formula or more than one.
///
/// The formula that is returned is the one that the text spells by the
/// grammar, and `None` is returned only where the text spells none.
pub fn parse_whole_term(term: &str) -> (r: Option<Node>)
    ensures
        match r {
            Some(node) => {
                &&& whole_term(term@) == Some(node@)
                &&& spells(node@, without_whitespace(term@))
                &&& node@.is_readable()
                &&& node@.well_formed()
            },
            None => {
                &&& whole_term(term@) is None
                &&& forall|formula: Formula| !spells(formula, without_whitespace(term@))
            },
        },
{
    proof {
        lemma_whole_term_sound(term@);
        assert forall|formula: Formula|
            whole_term(term@) == Some(formula) <==> #[trigger] spells(
                formula,
                without_whitespace(term@),
            ) by {
            lemma_reads_what_is_spelled(term@, formula);
        }
    }
    let stripped = strip_whitespace(term);
    match parse_term(stripped.as_str()) {
        Some((rest, node)) => {
            if eof(rest) {
                Some(node)
            } else {
                None
            }
        },
        None => None,
    }
}

/// The term that `fragment` starts with, and the text after it.
pub fn parse_term<'a>(fragment: &'a str) -> (r: Option<(&'a str, Node)>)
    ensures
        agrees(r, term(fragment@)),
        consumed(r, fragment),
    decreases fragment@.len(), 5int,
{
    if let Some(found) = parse_and(fragment) {
        return Some(found);
    }
    if let Some(found) = parse_or(fragment) {
        return Some(found);
    }
    if let Some(found) = parse_if_then(fragment) {
        return Some(found);
    }
    parse_factor(fragment)
}

/// Two or more factors with one of `spellings` between each two neighbours,
/// and the text after them.
fn parse_separated_list<'a>(spellings: &Vec<&str>, fragment: &'a str) -> (r: Option<
    (&'a str, Vec<Node>),
>)
    requires
        all_non_empty(spellings@),
    ensures
        match r {
            Some((rest, children)) => {
                &&& operands(views(spellings@), fragment@) == Some((formulas(children@), rest@))
                &&& rest@.len() < fragment@.len()
            },
            None => operands(views(spellings@), fragment@) is None,
        },
    decreases fragment@.len(), 3int,
{
    let (start, first) = match parse_factor(fragment) {
        Some(found) => found,
        None => {
            return None;
        },
    };
    let k = match first_tag(spellings, start) {
        Some(found) => found.0,
        None => {
            return None;
        },
    };
    let spelling = spellings[k];
    let ghost total = more_operands(spelling@, start@);
    let mut children: Vec<Node> = Vec::new();
    children.push(first);
    let mut rest = start;
    assert(formulas(children@).skip(1) =~= Seq::<Formula>::empty());
    loop
        invariant
            children@.len() >= 1,
            formulas(children@)[0] == first@,
            spelling@.len() > 0,
            rest@.len() <= start@.len(),
            start@.len() < fragment@.len(),
            total.0 == formulas(children@).skip(1) + more_operands(spelling@, rest@).0,
            total.1 == more_operands(spelling@, rest@).1,
        ensures
            children@.len() >= 1,
            formulas(children@)[0] == first@,
            rest@.len() <= start@.len(),
            total == (formulas(children@).skip(1), rest@),
        decreases rest@.len(),
    {
        match tag(spelling, rest) {
            None => {
                assert(formulas(children@).skip(1) + Seq::<Formula>::empty()
                    =~= formulas(children@).skip(1));
                break ;
            },
            Some(after) => match parse_factor(after) {
                None => {
                    assert(formulas(children@).skip(1) + Seq::<Formula>::empty()
                        =~= formulas(children@).skip(1));
                    break ;
                },
                Some((next, node)) => {
                    let ghost before = formulas(children@);
                    let ghost tail = more_operands(spelling@, next@);
                    children.push(node);
                    proof {
                        assert(formulas(children@) =~= before.push(node@));
                        assert(formulas(children@).skip(1) =~= before.skip(1).push(node@));
                        assert(before.skip(1) + (seq![node@] + tail.0) =~= before.skip(1).push(
                            node@,
                        ) + tail.0);
                    }
                    rest = next;
                },
            },
        }
    }
    if children.len() >= 2 {
        proof {
            assert(seq![first@] + formulas(children@).skip(1) =~= formulas(children@));
        }
        Some((rest, children))
    } else {
        None
    }
}

/// `conjunction := factor (AND factor)+`
fn parse_and<'a>(fragment: &'a str) -> (r: Option<(&'a str, Node)>)
    ensures
        agrees(r, conjunction(fragment@)),
        consumed(r, fragment),
    decreases fragment@.len(), 4int,
{
    let spellings = and_operators();
    match parse_separated_list(&spellings, fragment) {
        Some((rest, factors)) => Some((rest, AndNode::new(factors))),
        None => None,
    }
}

/// `disjunction := factor (OR factor)+`
fn parse_or<'a>(fragment: &'a str) -> (r: Option<(&'a str, Node)>)
    ensures
        agrees(r, disjunction(fragment@)),
        consumed(r, fragment),
    decreases fragment@.len(), 4int,
{
    let spellings = or_operators();
    match parse_separated_list(&spellings, fragment) {
        Some((rest, factors)) => Some((rest, OrNode::new(factors))),
        None => None,
    }
}

/// `implication := factor ARROW factor`
fn parse_if_then<'a>(fragment: &'a str) -> (r: Option<(&'a str, Node)>)
    ensures
        agrees(r, implication(fragment@)),
        consumed(r, fragment),
    decreases fragment@.len(), 4int,
{
    let (rest, left) = match parse_factor(fragment) {
        Some(found) => found,
        None => {
            return None;
        },
    };
    let spellings = arrow_operators();
    let after = match first_tag(&spellings, rest) {
        Some(found) => found.1,
        None => {
            return None;
        },
    };
    match parse_factor(after) {
        Some((end, right)) => Some((end, IfThenNode::new(left, right))),
        None => None,
    }
}

/// `factor := word | glyph | '(' term ')' | negation`
fn parse_factor<'a>(fragment: &'a str) -> (r: Option<(&'a str, Node)>)
    ensures
        agrees(r, factor(fragment@)),
        consumed(r, fragment),
    decreases fragment@.len(), 1int,
{
    if let Some(found) = parse_prop(fragment) {
        return Some(found);
    }
    if let Some(found) = parse_contradiction(fragment) {
        return Some(found);
    }
    if let Some(found) = parse_paren(fragment) {
        return Some(found);
    }
    parse_not(fragment)
}

/// A run of letters: the contradiction where it is the reserved name, else
/// the variable of that name.
fn parse_prop<'a>(fragment: &'a str) -> (r: Option<(&'a str, Node)>)
    ensures
        agrees(r, word(fragment@)),
        consumed(r, fragment),
{
    let (rest, run) = match alpha1(fragment) {
        Some(found) => found,
        None => {
            return None;
        },
    };
    proof {
        lemma_letters(fragment@);
    }
    let name = run.to_owned();
    let reserved = "X".to_owned();
    if name == reserved {
        Some((rest, ContradictionNode::new()))
    } else {
        Some((rest, PropositionNode::new(name)))
    }
}

/// The contradiction glyph.
fn parse_contradiction<'a>(fragment: &'a str) -> (r: Option<(&'a str, Node)>)
    ensures
        agrees(r, glyph(fragment@)),
        consumed(r, fragment),
{
    proof {
        reveal_strlit("⊥");
    }
    match tag("⊥", fragment) {
        Some(rest) => Some((rest, ContradictionNode::new())),
        None => None,
    }
}

/// `'(' term ')'`
fn parse_paren<'a>(fragment: &'a str) -> (r: Option<(&'a str, Node)>)
    ensures
        agrees(r, parenthesized(fragment@)),
        consumed(r, fragment),
    decreases fragment@.len(), 0int,
{
    proof {
        reveal_strlit("(");
        reveal_strlit(")");
    }
    let inner = match tag("(", fragment) {
        Some(found) => found,
        None => {
            return None;
        },
    };
    let (rest, node) = match parse_term(inner) {
        Some(found) => found,
        None => {
            return None;
        },
    };
    match tag(")", rest) {
        Some(end) => Some((end, node)),
        None => None,
    }
}

/// `negation := NOT factor`
fn parse_not<'a>(fragment: &'a str) -> (r: Option<(&'a str, Node)>)
    ensures
        agrees(r, negation(fragment@)),
        consumed(r, fragment),
    decreases fragment@.len(), 0int,
{
    let spellings = not_operators();
    let after = match first_tag(&spellings, fragment) {
        Some(found) => found.1,
        None => {
            return None;
        },
    };
    match parse_factor(after) {
        Some((rest, prop)) => Some((rest, NotNode::new(prop))),
        None => None,
    }
}

} // verus!
