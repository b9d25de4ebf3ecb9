use proplogic::report::{analyze, join_names, syntax_text, verdict_text, Verdict};
use proplogic::whitespace::{is_whitespace_char, strip_whitespace};

#[test]
fn report_of_a_tautology() {
    let r = analyze("P -> P");
    assert!(r.valid);
    assert_eq!(r.formatted, "(P → P)");
    assert_eq!(r.propositions, "P");
    assert_eq!(r.verdict, Some(Verdict::Yes));
}

#[test]
fn report_of_a_formula_that_can_be_false() {
    let r = analyze("q /\\ (~p) /\\ a");
    assert!(r.valid);
    assert_eq!(r.formatted, "(q ∧ ¬p ∧ a)");
    assert_eq!(r.propositions, "a, p, q");
    assert_eq!(r.verdict, Some(Verdict::No));
}

#[test]
fn report_of_a_formula_without_variables() {
    let r = analyze("X");
    assert!(r.valid);
    assert_eq!(r.formatted, "⊥");
    assert_eq!(r.propositions, "---");
    assert_eq!(r.verdict, Some(Verdict::No));
    let r = analyze("~X");
    assert_eq!(r.verdict, Some(Verdict::Yes));
}

#[test]
fn report_of_what_is_no_formula() {
    let r = analyze("P∧Q∨R");
    assert!(!r.valid);
    assert_eq!(r.formatted, "---");
    assert_eq!(r.propositions, "---");
    assert_eq!(r.verdict, None);
}

#[test]
fn report_of_too_many_variables() {
    let r = analyze("a\\/~a\\/b\\/c\\/d\\/e\\/f\\/g\\/h\\/i\\/j\\/k\\/l\\/m\\/n\\/o\\/p");
    assert!(r.valid);
    assert_eq!(r.propositions, "a, b, c, d, e, f, g, h, i, j, k, l, m, n, o, p");
    assert_eq!(r.verdict, Some(Verdict::TooManyPropositions));
}

#[test]
fn texts_of_the_report() {
    assert_eq!(syntax_text(true), "OK");
    assert_eq!(syntax_text(false), "INVALID");
    assert_eq!(verdict_text(Some(Verdict::Yes)), "YES");
    assert_eq!(verdict_text(Some(Verdict::No)), "NO");
    assert_eq!(verdict_text(Some(Verdict::TooManyPropositions)), "Too much propositions");
    assert_eq!(verdict_text(None), "---");
}

#[test]
fn names_are_joined_with_the_separator_between() {
    assert_eq!(join_names(&vec![], ", "), "");
    assert_eq!(join_names(&vec!["a"], ", "), "a");
    assert_eq!(join_names(&vec!["a", "b", "c"], ", "), "a, b, c");
}

#[test]
fn white_space_characters() {
    for c in [' ', '\t', '\n', '\u{b}', '\u{c}', '\r', '\u{85}', '\u{a0}', '\u{1680}', '\u{2000}',
        '\u{200a}', '\u{2028}', '\u{2029}', '\u{202f}', '\u{205f}', '\u{3000}']
    {
        assert!(is_whitespace_char(c));
        assert!(c.is_whitespace());
    }
    for c in ['a', 'X', '(', '∧', '∨', '→', '¬', '⊥', '\u{200b}', '\u{8}', '\u{e}', '\u{2228}'] {
        assert!(!is_whitespace_char(c));
        assert!(!c.is_whitespace());
    }
}

#[test]
fn white_space_is_stripped_and_the_rest_kept() {
    assert_eq!(strip_whitespace(""), "");
    assert_eq!(strip_whitespace(" \t\n"), "");
    assert_eq!(strip_whitespace(" a ∧\tb\u{3000}"), "a∧b");
    assert_eq!(strip_whitespace("(P→Q)"), "(P→Q)");
}
