//! How a text is read as a formula: the productions of the grammar as
//! functions from a text to the formula it starts with and the text that is
//! left.
//!
//! ```text
//! term        := conjunction | disjunction | implication | factor
//! conjunction := factor (AND factor)+
//! disjunction := factor (OR factor)+
//! implication := factor ARROW factor
//! factor      := word | glyph | '(' term ')' | negation
//! negation    := NOT factor
//! ```
//!
//! Choice is ordered: the first alternative that matches is taken and no
//! later one is tried. Each operator has several spellings; the spelling that
//! follows the first operand of a conjunction or disjunction is the one that
//! separates all its operands.
//!
//! The productions are defined by recursion on the length of the text. Where
//! a production goes on after a factor, it asks that the factor left no more
//! text than it was given. Every factor does (`crate::shape::lemma_factor_sound`),
//! so the condition rejects nothing; it is what makes the recursion well
//! founded.

use crate::formula::{contradiction_glyph, reserved_name, Formula};
use vstd::prelude::*;

verus! {

/// What a production makes of a text: the formula it read and the text
/// after it, or `None` where the text does not start with the production.
pub type Parsed = Option<(Formula, Seq<char>)>;

/// The spellings of AND, in the order in which they are tried.
pub open spec fn and_spellings() -> Seq<Seq<char>> {
    seq!["/\\"@, "∧"@, "&"@]
}

/// The spellings of OR, in the order in which they are tried.
pub open spec fn or_spellings() -> Seq<Seq<char>> {
    seq!["\\/"@, "∨"@, "||"@]
}

/// The spellings of the arrow, in the order in which they are tried.
pub open spec fn arrow_spellings() -> Seq<Seq<char>> {
    seq!["->"@, "→"@]
}

/// The spellings of NOT, in the order in which they are tried.
pub open spec fn not_spellings() -> Seq<Seq<char>> {
    seq!["~"@, "¬"@, "!"@]
}

/// Whether `c` is one of the letters `a` to `z` and `A` to `Z`.
pub open spec fn is_letter(c: char) -> bool {
    ('a' <= c && c <= 'z') || ('A' <= c && c <= 'Z')
}

/// The number of letters that `input` starts with.
pub open spec fn letters(input: Seq<char>) -> nat
    decreases input.len(),
{
    if input.len() > 0 && is_letter(input[0]) {
        1 + letters(input.drop_first())
    } else {
        0
    }
}

/// The letters that `input` starts with are a prefix of it, made of letters
/// only, and the character after them is no letter.
pub proof fn lemma_letters(input: Seq<char>)
    ensures
        letters(input) <= input.len(),
        forall|i: int| 0 <= i < letters(input) ==> is_letter(#[trigger] input[i]),
        letters(input) < input.len() ==> !is_letter(input[letters(input) as int]),
    decreases input.len(),
{
    if input.len() > 0 && is_letter(input[0]) {
        let rest = input.drop_first();
        lemma_letters(rest);
        assert forall|i: int| 0 <= i < letters(input) implies is_letter(#[trigger] input[i]) by {
            if i > 0 {
                assert(input[i] == rest[i - 1]);
            }
        }
        if letters(input) < input.len() {
            assert(input[letters(input) as int] == rest[letters(rest) as int]);
        }
    }
}

/// The text after `pattern`, where `input` starts with the non-empty `pattern`.
pub open spec fn after_tag(pattern: Seq<char>, input: Seq<char>) -> Option<Seq<char>> {
    if pattern.len() > 0 && pattern.is_prefix_of(input) {
        Some(input.skip(pattern.len() as int))
    } else {
        None
    }
}

/// The first of `patterns` that `input` starts with.
pub open spec fn first_spelling(patterns: Seq<Seq<char>>, input: Seq<char>) -> Option<Seq<char>>
    decreases patterns.len(),
{
    if patterns.len() == 0 {
        None
    } else if after_tag(patterns[0], input) is Some {
        Some(patterns[0])
    } else {
        first_spelling(patterns.drop_first(), input)
    }
}

/// The text after the first of `patterns` that `input` starts with.
pub open spec fn after_first_tag(patterns: Seq<Seq<char>>, input: Seq<char>) -> Option<Seq<char>> {
    match first_spelling(patterns, input) {
        Some(spelling) => after_tag(spelling, input),
        None => None,
    }
}

/// A run of letters, as long as it can be: the reserved name is the
/// contradiction, any other run is the variable of that name.
pub open spec fn word(input: Seq<char>) -> Parsed {
    let n = letters(input) as int;
    if n == 0 {
        None
    } else if input.take(n) == reserved_name() {
        Some((Formula::Contradiction, input.skip(n)))
    } else {
        Some((Formula::Variable(input.take(n)), input.skip(n)))
    }
}

/// The contradiction glyph.
pub open spec fn glyph(input: Seq<char>) -> Parsed {
    match after_tag(contradiction_glyph(), input) {
        Some(rest) => Some((Formula::Contradiction, rest)),
        None => None,
    }
}

/// `term := conjunction | disjunction | implication | factor`
pub open spec fn term(input: Seq<char>) -> Parsed
    decreases input.len(), 5int,
{
    if conjunction(input) is Some {
        conjunction(input)
    } else if disjunction(input) is Some {
        disjunction(input)
    } else if implication(input) is Some {
        implication(input)
    } else {
        factor(input)
    }
}

/// `conjunction := factor (AND factor)+`
pub open spec fn conjunction(input: Seq<char>) -> Parsed
    decreases input.len(), 4int,
{
    match operands(and_spellings(), input) {
        Some((children, rest)) => Some((Formula::Conjunction(children), rest)),
        None => None,
    }
}

/// `disjunction := factor (OR factor)+`
pub open spec fn disjunction(input: Seq<char>) -> Parsed
    decreases input.len(), 4int,
{
    match operands(or_spellings(), input) {
        Some((children, rest)) => Some((Formula::Disjunction(children), rest)),
        None => None,
    }
}

/// Two or more factors with one of `spellings` between each two neighbours:
/// the spelling that follows the first factor is the one that must follow
/// each factor but the last.
pub open spec fn operands(spellings: Seq<Seq<char>>, input: Seq<char>) -> Option<
    (Seq<Formula>, Seq<char>),
>
    decreases input.len(), 3int,
{
    match factor(input) {
        Some((first, rest)) if rest.len() <= input.len() => match first_spelling(spellings, rest) {
            Some(spelling) => {
                let (others, end) = more_operands(spelling, rest);
                if others.len() >= 1 {
                    Some((seq![first] + others, end))
                } else {
                    None
                }
            },
            None => None,
        },
        _ => None,
    }
}

/// As many repetitions of `spelling factor` as `input` starts with, and the
/// text after them. A `spelling` that no factor follows is left unread.
pub open spec fn more_operands(spelling: Seq<char>, input: Seq<char>) -> (
    Seq<Formula>,
    Seq<char>,
)
    decreases input.len(), 2int,
{
    match after_tag(spelling, input) {
        Some(after) => match factor(after) {
            Some((operand, rest)) if rest.len() < input.len() => {
                let (others, end) = more_operands(spelling, rest);
                (seq![operand] + others, end)
            },
            _ => (Seq::empty(), input),
        },
        None => (Seq::empty(), input),
    }
}

/// `implication := factor ARROW factor`
pub open spec fn implication(input: Seq<char>) -> Parsed
    decreases input.len(), 4int,
{
    match factor(input) {
        Some((left, rest)) if rest.len() <= input.len() => match after_first_tag(
            arrow_spellings(),
            rest,
        ) {
            Some(after) => match factor(after) {
                Some((right, end)) => Some(
                    (Formula::Implication(Box::new(left), Box::new(right)), end),
                ),
                None => None,
            },
            None => None,
        },
        _ => None,
    }
}

/// `factor := word | glyph | '(' term ')' | negation`
pub open spec fn factor(input: Seq<char>) -> Parsed
    decreases input.len(), 1int,
{
    if word(input) is Some {
        word(input)
    } else if glyph(input) is Some {
        glyph(input)
    } else if parenthesized(input) is Some {
        parenthesized(input)
    } else {
        negation(input)
    }
}

/// `'(' term ')'`
pub open spec fn parenthesized(input: Seq<char>) -> Parsed
    decreases input.len(), 0int,
{
    match after_tag("("@, input) {
        Some(inner) => match term(inner) {
            Some((formula, rest)) => match after_tag(")"@, rest) {
                Some(end) => Some((formula, end)),
                None => None,
            },
            None => None,
        },
        None => None,
    }
}

/// `negation := NOT factor`
pub open spec fn negation(input: Seq<char>) -> Parsed
    decreases input.len(), 0int,
{
    match after_first_tag(not_spellings(), input) {
        Some(after) => match factor(after) {
            Some((operand, rest)) => Some((Formula::Negation(Box::new(operand)), rest)),
            None => None,
        },
        None => None,
    }
}

/// Whether `c` is a white-space character.
pub open spec fn is_whitespace(c: char) -> bool {
    let u = c as u32;
    ||| 0x09 <= u <= 0x0D
    ||| u == 0x20
    ||| u == 0x85
    ||| u == 0xA0
    ||| u == 0x1680
    ||| 0x2000 <= u <= 0x200A
    ||| u == 0x2028
    ||| u == 0x2029
    ||| u == 0x202F
    ||| u == 0x205F
    ||| u == 0x3000
}

/// The characters that stay where white space is taken out.
pub open spec fn is_kept() -> spec_fn(char) -> bool {
    |c: char| !is_whitespace(c)
}

/// `text` without its white-space characters.
pub open spec fn without_whitespace(text: Seq<char>) -> Seq<char> {
    text.filter(is_kept())
}

/// The formula that `text` spells: after its white space is taken out, `text`
/// is one term from its first character to its last.
pub open spec fn whole_term(text: Seq<char>) -> Option<Formula> {
    match term(without_whitespace(text)) {
        Some((formula, rest)) if rest.len() == 0 => Some(formula),
        _ => None,
    }
}

} // verus!
