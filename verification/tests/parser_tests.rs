use proplogic::assignment::Assignment;
use proplogic::parser::{parse_term, parse_whole_term};

fn rendered(text: &str) -> Option<String> {
    parse_whole_term(text).map(|term| term.to_string())
}

#[test]
fn test_parse_term() {
    assert_eq!(
        parse_whole_term("P").map(|term| term.to_string()),
        Some("P".to_string())
    );

    assert_eq!(
        parse_whole_term("P/\\(~Q)").map(|term| term.to_string()),
        Some("(P ∧ ¬Q)".to_string())
    );
}

#[test]
fn single_variable() {
    let term = parse_whole_term("P").unwrap();
    assert_eq!(term.to_string(), "P");
    let props = term.get_all_propositions();
    assert_eq!(props, vec!["P"]);
    assert_eq!(term.is_tautology(&props), Some(false));
}

#[test]
fn conjunction_with_negation() {
    let term = parse_whole_term("P/\\(~Q)").unwrap();
    assert_eq!(term.to_string(), "(P ∧ ¬Q)");
    let props = term.get_all_propositions();
    assert_eq!(props, vec!["P", "Q"]);
    assert_eq!(term.is_tautology(&props), Some(false));
}

#[test]
fn implication_of_itself_is_a_tautology() {
    let term = parse_whole_term("P->P").unwrap();
    assert_eq!(term.to_string(), "(P → P)");
    let props = term.get_all_propositions();
    assert_eq!(props, vec!["P"]);
    assert_eq!(term.is_tautology(&props), Some(true));
}

#[test]
fn reserved_name_is_the_contradiction() {
    let term = parse_whole_term("X").unwrap();
    assert_eq!(term.to_string(), "⊥");
    let props = term.get_all_propositions();
    assert!(props.is_empty());
    assert_eq!(term.is_tautology(&props), Some(false));
}

#[test]
fn mixed_operators_need_parentheses() {
    assert!(parse_whole_term("P∧Q∨R").is_none());
    assert_eq!(rendered("(P∧Q)∨R"), Some("((P ∧ Q) ∨ R)".to_string()));
    assert_eq!(rendered("P∧(Q∨R)"), Some("(P ∧ (Q ∨ R))".to_string()));
}

#[test]
fn sixteen_variables_are_refused() {
    let text = "a\\/~a\\/b\\/c\\/d\\/e\\/f\\/g\\/h\\/i\\/j\\/k\\/l\\/m\\/n\\/o\\/p";
    let term = parse_whole_term(text).unwrap();
    let props = term.get_all_propositions();
    assert_eq!(props.len(), 16);
    assert_eq!(term.is_tautology(&props), None);
}

#[test]
fn fifteen_variables_are_tried() {
    let text = "a\\/~a\\/b\\/c\\/d\\/e\\/f\\/g\\/h\\/i\\/j\\/k\\/l\\/m\\/n\\/o";
    let term = parse_whole_term(text).unwrap();
    let props = term.get_all_propositions();
    assert_eq!(props.len(), 15);
    assert_eq!(term.is_tautology(&props), Some(true));
}

#[test]
fn parse_term_leaves_what_follows() {
    let (rest, node) = parse_term("P&Q)R").unwrap();
    assert_eq!(rest, ")R");
    assert_eq!(node.to_string(), "(P ∧ Q)");
    let (rest, node) = parse_term("P∧Q∨R").unwrap();
    assert_eq!(rest, "∨R");
    assert_eq!(node.to_string(), "(P ∧ Q)");
    assert!(parse_term("").is_none());
    assert!(parse_term(")").is_none());
}

#[test]
fn rendering_reads_back_as_itself() {
    let texts = [
        "P",
        "X",
        "⊥",
        "~P",
        "P/\\(~Q)",
        "P->P",
        "(P&Q)||R",
        "!(a\\/b\\/c)->(d∧e)",
        "((P))",
        "~~~X",
        "(P→Q)→(¬Q→¬P)",
    ];
    for text in texts {
        let first = parse_whole_term(text).unwrap().to_string();
        let second = parse_whole_term(&first).unwrap().to_string();
        assert_eq!(first, second);
    }
}

#[test]
fn every_spelling_of_an_operator_is_read() {
    assert_eq!(rendered("P/\\Q"), Some("(P ∧ Q)".to_string()));
    assert_eq!(rendered("P∧Q"), Some("(P ∧ Q)".to_string()));
    assert_eq!(rendered("P&Q"), Some("(P ∧ Q)".to_string()));
    assert_eq!(rendered("P\\/Q"), Some("(P ∨ Q)".to_string()));
    assert_eq!(rendered("P∨Q"), Some("(P ∨ Q)".to_string()));
    assert_eq!(rendered("P||Q"), Some("(P ∨ Q)".to_string()));
    assert_eq!(rendered("P->Q"), Some("(P → Q)".to_string()));
    assert_eq!(rendered("P→Q"), Some("(P → Q)".to_string()));
    assert_eq!(rendered("~P"), Some("¬P".to_string()));
    assert_eq!(rendered("¬P"), Some("¬P".to_string()));
    assert_eq!(rendered("!P"), Some("¬P".to_string()));
}

#[test]
fn one_spelling_per_conjunction_and_disjunction() {
    assert_eq!(rendered("P&Q&R"), Some("(P ∧ Q ∧ R)".to_string()));
    assert_eq!(rendered("P||Q||R"), Some("(P ∨ Q ∨ R)".to_string()));
    assert!(parse_whole_term("P&Q∧R").is_none());
    assert!(parse_whole_term("(P/\\Q&R)").is_none());
    assert!(parse_whole_term("P||Q∨R").is_none());
    assert_eq!(rendered("(P&Q)∧(R/\\S)"), Some("((P ∧ Q) ∧ (R ∧ S))".to_string()));
}

#[test]
fn implication_takes_one_factor_on_each_side() {
    assert!(parse_whole_term("P->Q->R").is_none());
    assert_eq!(rendered("P->(Q->R)"), Some("(P → (Q → R))".to_string()));
    assert!(parse_whole_term("P&Q->R").is_none());
}

#[test]
fn white_space_is_taken_out_first() {
    assert_eq!(rendered("  P  /\\ ( ~ Q ) "), Some("(P ∧ ¬Q)".to_string()));
    assert_eq!(rendered("P\t->\nQ"), Some("(P → Q)".to_string()));
    assert_eq!(rendered("P Q"), Some("PQ".to_string()));
    assert_eq!(rendered("P\u{a0}&\u{2003}Q\u{3000}"), Some("(P ∧ Q)".to_string()));
    assert!(parse_whole_term("   ").is_none());
    assert!(parse_whole_term("").is_none());
}

#[test]
fn names_are_runs_of_ascii_letters() {
    assert_eq!(rendered("abcXYZ"), Some("abcXYZ".to_string()));
    assert_eq!(rendered("XY"), Some("XY".to_string()));
    assert_eq!(rendered("x"), Some("x".to_string()));
    assert!(parse_whole_term("Q7").is_none());
    assert!(parse_whole_term("é").is_none());
    assert!(parse_whole_term("P_Q").is_none());
}

#[test]
fn both_spellings_of_the_contradiction() {
    assert_eq!(rendered("X"), Some("⊥".to_string()));
    assert_eq!(rendered("⊥"), Some("⊥".to_string()));
    assert_eq!(rendered("X&⊥"), Some("(⊥ ∧ ⊥)".to_string()));
    let term = parse_whole_term("P\\/X").unwrap();
    assert_eq!(term.get_all_propositions(), vec!["P"]);
}

#[test]
fn what_is_no_formula() {
    for text in ["(", ")", "()", "(P", "P)", "&", "P&", "&P", "~", "P~", "->", "P->", "(P&)", "P(Q)"] {
        assert!(parse_whole_term(text).is_none(), "{}", text);
    }
}

#[test]
fn a_separator_without_a_factor_is_left_unread() {
    let (rest, node) = parse_term("P&Q&").unwrap();
    assert_eq!(rest, "&");
    assert_eq!(node.to_string(), "(P ∧ Q)");
    let (rest, node) = parse_term("P&").unwrap();
    assert_eq!(rest, "&");
    assert_eq!(node.to_string(), "P");
}

#[test]
fn tautology_equals_evaluating_under_every_assignment() {
    let texts = [
        "P",
        "P\\/~P",
        "(P->Q)->(~Q->~P)",
        "(P&Q)->P",
        "P->(P&Q)",
        "((a||b)&(a->c)&(b->c))->c",
        "(a&b&c)||~a||~b",
        "~X",
        "X->a",
    ];
    for text in texts {
        let term = parse_whole_term(text).unwrap();
        let props = term.get_all_propositions();
        let mut always = true;
        for index in 0u32..(1 << props.len()) {
            let mut a = Assignment::new();
            for (c, name) in props.iter().enumerate() {
                a.insert(name, (index >> c) & 1 == 1);
            }
            always = always && term.evaluate(&a);
        }
        assert_eq!(term.is_tautology(&props), Some(always), "{}", text);
    }
}
