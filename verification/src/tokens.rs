//! Facts about the tokens of the grammar: its literals, and when a text
//! starts with one of them.

use crate::formula::{contradiction_glyph, reserved_name};
use crate::grammar::{
    after_first_tag, after_tag, and_spellings, arrow_spellings, first_spelling, is_letter, letters,
    not_spellings, or_spellings,
};
use vstd::prelude::*;

verus! {

/// Whether `text` is empty or starts with a character that is no letter.
pub open spec fn starts_with_no_letter(text: Seq<char>) -> bool {
    text.len() == 0 || !is_letter(text[0])
}

/// Whether `text` is empty or starts with a character with which none of
/// `patterns` starts.
pub open spec fn starts_with_none_of(patterns: Seq<Seq<char>>, text: Seq<char>) -> bool {
    text.len() == 0 || forall|i: int|
        0 <= i < patterns.len() ==> (#[trigger] patterns[i]).len() > 0 && patterns[i][0] != text[0]
}

/// The characters of the literals of the grammar and of the rendering.
pub proof fn lemma_literals()
    ensures
        and_spellings() == seq![seq!['/', '\\'], seq!['∧'], seq!['&']],
        or_spellings() == seq![seq!['\\', '/'], seq!['∨'], seq!['|', '|']],
        arrow_spellings() == seq![seq!['-', '>'], seq!['→']],
        not_spellings() == seq![seq!['~'], seq!['¬'], seq!['!']],
        contradiction_glyph() == seq!['⊥'],
        reserved_name() == seq!['X'],
        "("@ == seq!['('],
        ")"@ == seq![')'],
        "∧"@ == seq!['∧'],
        "∨"@ == seq!['∨'],
        "→"@ == seq!['→'],
        "¬"@ == seq!['¬'],
        " ∧ "@ == seq![' ', '∧', ' '],
        " ∨ "@ == seq![' ', '∨', ' '],
        " → "@ == seq![' ', '→', ' '],
{
    reveal_strlit("/\\");
    reveal_strlit("∧");
    reveal_strlit("&");
    reveal_strlit("\\/");
    reveal_strlit("∨");
    reveal_strlit("||");
    reveal_strlit("->");
    reveal_strlit("→");
    reveal_strlit("~");
    reveal_strlit("¬");
    reveal_strlit("!");
    reveal_strlit("⊥");
    reveal_strlit("X");
    reveal_strlit("(");
    reveal_strlit(")");
    reveal_strlit(" ∧ ");
    reveal_strlit(" ∨ ");
    reveal_strlit(" → ");
    assert("/\\"@ =~= seq!['/', '\\']);
    assert("∧"@ =~= seq!['∧']);
    assert("&"@ =~= seq!['&']);
    assert("\\/"@ =~= seq!['\\', '/']);
    assert("∨"@ =~= seq!['∨']);
    assert("||"@ =~= seq!['|', '|']);
    assert("->"@ =~= seq!['-', '>']);
    assert("→"@ =~= seq!['→']);
    assert("~"@ =~= seq!['~']);
    assert("¬"@ =~= seq!['¬']);
    assert("!"@ =~= seq!['!']);
    assert("⊥"@ =~= seq!['⊥']);
    assert("X"@ =~= seq!['X']);
    assert("("@ =~= seq!['(']);
    assert(")"@ =~= seq![')']);
    assert(" ∧ "@ =~= seq![' ', '∧', ' ']);
    assert(" ∨ "@ =~= seq![' ', '∨', ' ']);
    assert(" → "@ =~= seq![' ', '→', ' ']);
}

/// Whether `pattern` starts with the character `c`.
pub open spec fn starts_with(pattern: Seq<char>, c: char) -> bool {
    pattern.len() > 0 && pattern[0] == c
}

/// The first characters of the operators, of the parentheses and of the glyph.
pub proof fn lemma_operators()
    ensures
        and_spellings().len() == 3,
        starts_with(and_spellings()[0], '/'),
        starts_with(and_spellings()[1], '∧'),
        starts_with(and_spellings()[2], '&'),
        and_spellings()[1] == "∧"@,
        or_spellings().len() == 3,
        starts_with(or_spellings()[0], '\\'),
        starts_with(or_spellings()[1], '∨'),
        starts_with(or_spellings()[2], '|'),
        or_spellings()[1] == "∨"@,
        arrow_spellings().len() == 2,
        starts_with(arrow_spellings()[0], '-'),
        starts_with(arrow_spellings()[1], '→'),
        arrow_spellings()[1] == "→"@,
        not_spellings().len() == 3,
        starts_with(not_spellings()[0], '~'),
        starts_with(not_spellings()[1], '¬'),
        starts_with(not_spellings()[2], '!'),
        not_spellings()[1] == "¬"@,
        starts_with(contradiction_glyph(), '⊥'),
        starts_with("("@, '('),
        starts_with(")"@, ')'),
{
    lemma_literals();
}

/// A text that `pattern` and then `tail` make up starts with `pattern`, and
/// `tail` is the text after it.
pub proof fn lemma_tag_reads(pattern: Seq<char>, tail: Seq<char>)
    requires
        pattern.len() > 0,
    ensures
        after_tag(pattern, pattern + tail) == Some(tail),
{
    let input = pattern + tail;
    assert(input.subrange(0, pattern.len() as int) =~= pattern);
    assert(input.skip(pattern.len() as int) =~= tail);
}

/// A text that starts with another character than `pattern` does not start
/// with `pattern`.
pub proof fn lemma_tag_fails(pattern: Seq<char>, input: Seq<char>)
    requires
        pattern.len() > 0,
        input.len() == 0 || input[0] != pattern[0],
    ensures
        after_tag(pattern, input) is None,
{
    if pattern.is_prefix_of(input) {
        assert(input.subrange(0, pattern.len() as int)[0] == pattern[0]);
    }
}

/// None of `patterns` is read from a text that starts with none of them.
pub proof fn lemma_no_spelling(patterns: Seq<Seq<char>>, input: Seq<char>)
    requires
        forall|i: int| 0 <= i < patterns.len() ==> (#[trigger] patterns[i]).len() > 0,
        starts_with_none_of(patterns, input),
    ensures
        first_spelling(patterns, input) is None,
        after_first_tag(patterns, input) is None,
    decreases patterns.len(),
{
    if patterns.len() > 0 {
        assert(patterns[0].len() > 0);
        lemma_tag_fails(patterns[0], input);
        let others = patterns.drop_first();
        assert forall|i: int| 0 <= i < others.len() implies (#[trigger] others[i]).len() > 0 && (
        input.len() == 0 || others[i][0] != input[0]) by {
            assert(others[i] == patterns[i + 1]);
        }
        lemma_no_spelling(others, input);
    }
}

/// The pattern at index `k` is the one read from a text that starts with it
/// and with none of the patterns before it.
pub proof fn lemma_spelling_at(patterns: Seq<Seq<char>>, k: int, tail: Seq<char>)
    requires
        0 <= k < patterns.len(),
        forall|i: int| 0 <= i <= k ==> (#[trigger] patterns[i]).len() > 0,
        forall|i: int| 0 <= i < k ==> (#[trigger] patterns[i])[0] != patterns[k][0],
    ensures
        first_spelling(patterns, patterns[k] + tail) == Some(patterns[k]),
        after_first_tag(patterns, patterns[k] + tail) == Some(tail),
    decreases k,
{
    let input = patterns[k] + tail;
    lemma_tag_reads(patterns[k], tail);
    if k > 0 {
        assert(patterns[0].len() > 0);
        assert(input[0] == patterns[k][0]);
        lemma_tag_fails(patterns[0], input);
        let others = patterns.drop_first();
        assert(others[k - 1] == patterns[k]);
        assert forall|i: int| 0 <= i <= k - 1 implies (#[trigger] others[i]).len() > 0 by {
            assert(others[i] == patterns[i + 1]);
        }
        assert forall|i: int| 0 <= i < k - 1 implies (#[trigger] others[i])[0] != others[k - 1][0] by {
            assert(others[i] == patterns[i + 1]);
        }
        lemma_spelling_at(others, k - 1, tail);
    }
}

/// A run of letters that no letter follows is read as a whole and no further.
pub proof fn lemma_letters_of_run(run: Seq<char>, rest: Seq<char>)
    requires
        forall|i: int| 0 <= i < run.len() ==> is_letter(#[trigger] run[i]),
        starts_with_no_letter(rest),
    ensures
        letters(run + rest) == run.len(),
    decreases run.len(),
{
    let input = run + rest;
    if run.len() == 0 {
        assert(input =~= rest);
    } else {
        assert(input[0] == run[0]);
        assert(input.drop_first() =~= run.drop_first() + rest);
        assert forall|i: int| 0 <= i < run.drop_first().len() implies is_letter(
            #[trigger] run.drop_first()[i],
        ) by {
            assert(run.drop_first()[i] == run[i + 1]);
        }
        lemma_letters_of_run(run.drop_first(), rest);
    }
}

/// Whether `text` is empty or starts with a closing parenthesis: what may
/// follow a term.
pub open spec fn ends_term(text: Seq<char>) -> bool {
    text.len() == 0 || text[0] == ')'
}

/// Whether `spellings` are the spellings of an operator: none is empty, no
/// two start with the same character, and none starts with a letter or with
/// a closing parenthesis.
pub open spec fn is_operator(spellings: Seq<Seq<char>>) -> bool {
    &&& forall|i: int|
        0 <= i < spellings.len() ==> (#[trigger] spellings[i]).len() > 0 && !is_letter(
            spellings[i][0],
        ) && spellings[i][0] != ')'
    &&& forall|i: int, j: int|
        0 <= i < j < spellings.len() ==> (#[trigger] spellings[i])[0] != (
        #[trigger] spellings[j])[0]
}

/// The four sets of spellings are operators, and no character starts
/// spellings of two of them, the glyph or an opening parenthesis.
pub proof fn lemma_operator_sets()
    ensures
        is_operator(and_spellings()),
        is_operator(or_spellings()),
        is_operator(arrow_spellings()),
        is_operator(not_spellings()),
        forall|text: Seq<char>, spelling: Seq<char>|
            or_spellings().contains(spelling) && #[trigger] starts_with(text, spelling[0])
                ==> starts_with_none_of(and_spellings(), text),
        forall|text: Seq<char>, spelling: Seq<char>|
            arrow_spellings().contains(spelling) && #[trigger] starts_with(text, spelling[0])
                ==> starts_with_none_of(and_spellings(), text) && starts_with_none_of(
                or_spellings(),
                text,
            ),
        forall|spelling: Seq<char>| #[trigger]
            not_spellings().contains(spelling) ==> spelling[0] != '⊥' && spelling[0] != '(',
{
    lemma_operators();
    assert forall|text: Seq<char>, spelling: Seq<char>|
        or_spellings().contains(spelling) && #[trigger] starts_with(
            text,
            spelling[0],
        ) implies starts_with_none_of(and_spellings(), text) by {
        let k = choose|k: int| 0 <= k < or_spellings().len() && or_spellings()[k] == spelling;
        assert(k == 0 || k == 1 || k == 2);
    }
    assert forall|text: Seq<char>, spelling: Seq<char>|
        arrow_spellings().contains(spelling) && #[trigger] starts_with(
            text,
            spelling[0],
        ) implies starts_with_none_of(and_spellings(), text) && starts_with_none_of(
        or_spellings(),
        text,
    ) by {
        let k = choose|k: int| 0 <= k < arrow_spellings().len() && arrow_spellings()[k] == spelling;
        assert(k == 0 || k == 1);
    }
    assert forall|spelling: Seq<char>| #[trigger]
        not_spellings().contains(spelling) implies spelling[0] != '⊥' && spelling[0] != '(' by {
        let k = choose|k: int| 0 <= k < not_spellings().len() && not_spellings()[k] == spelling;
        assert(k == 0 || k == 1 || k == 2);
    }
}

/// A spelling of an operator with which a text starts is the one that is
/// read from the text.
pub proof fn lemma_spelling_found(spellings: Seq<Seq<char>>, spelling: Seq<char>, text: Seq<char>)
    requires
        is_operator(spellings),
        spellings.contains(spelling),
        after_tag(spelling, text) is Some,
    ensures
        first_spelling(spellings, text) == Some(spelling),
        after_first_tag(spellings, text) == after_tag(spelling, text),
        text.len() > 0,
        text[0] == spelling[0],
        !is_letter(text[0]),
        text[0] != ')',
{
    let k = choose|k: int| 0 <= k < spellings.len() && spellings[k] == spelling;
    let tail = after_tag(spelling, text).unwrap();
    assert(text.subrange(0, spelling.len() as int)[0] == spelling[0]);
    assert(text =~= spelling + tail);
    assert(spellings[k].len() > 0);
    lemma_spelling_at(spellings, k, tail);
}

/// No spelling of an operator is read from a text that may follow a term.
pub proof fn lemma_no_operator_follows(spellings: Seq<Seq<char>>, text: Seq<char>)
    requires
        is_operator(spellings),
        ends_term(text),
    ensures
        first_spelling(spellings, text) is None,
        after_first_tag(spellings, text) is None,
        starts_with_no_letter(text),
{
    assert(!is_letter(')'));
    lemma_no_spelling(spellings, text);
}

} // verus!
