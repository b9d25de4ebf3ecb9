use proplogic::assignment::Assignment;
use proplogic::names::{compare_names, NameOrder};
use proplogic::node::{
    AndNode, ContradictionNode, IfThenNode, Node, NotNode, OrNode, PropositionNode,
};
use proplogic::proposition_set::PropositionSet;

fn var(name: &str) -> Node {
    PropositionNode::new(name.to_string())
}

fn assignment(values: &[(&str, bool)]) -> Assignment {
    let mut a = Assignment::new();
    for (name, value) in values {
        a.insert(name, *value);
    }
    a
}

#[test]
fn renders_each_kind_of_node() {
    assert_eq!(var("P").to_string(), "P");
    assert_eq!(ContradictionNode::new().to_string(), "⊥");
    assert_eq!(NotNode::new(var("P")).to_string(), "¬P");
    assert_eq!(IfThenNode::new(var("P"), var("Q")).to_string(), "(P → Q)");
    assert_eq!(AndNode::new(vec![var("P"), var("Q"), var("R")]).to_string(), "(P ∧ Q ∧ R)");
    assert_eq!(OrNode::new(vec![var("P"), var("Q")]).to_string(), "(P ∨ Q)");
}

#[test]
fn single_child_renders_bare() {
    assert_eq!(AndNode::new(vec![var("P")]).to_string(), "P");
    assert_eq!(OrNode::new(vec![NotNode::new(var("Q"))]).to_string(), "¬Q");
}

#[test]
fn no_child_renders_as_empty_parentheses() {
    assert_eq!(AndNode::new(vec![]).to_string(), "()");
    assert_eq!(OrNode::new(vec![]).to_string(), "()");
}

#[test]
fn nested_rendering() {
    let inner = OrNode::new(vec![var("Q"), ContradictionNode::new()]);
    let outer = AndNode::new(vec![var("P"), NotNode::new(inner)]);
    assert_eq!(outer.to_string(), "(P ∧ ¬(Q ∨ ⊥))");
}

#[test]
fn implication_truth_table() {
    let f = IfThenNode::new(var("P"), var("Q"));
    assert!(f.evaluate(&assignment(&[("P", false), ("Q", false)])));
    assert!(f.evaluate(&assignment(&[("P", false), ("Q", true)])));
    assert!(!f.evaluate(&assignment(&[("P", true), ("Q", false)])));
    assert!(f.evaluate(&assignment(&[("P", true), ("Q", true)])));
}

#[test]
fn negation_and_contradiction_values() {
    let a = assignment(&[("P", true)]);
    assert!(!NotNode::new(var("P")).evaluate(&a));
    assert!(NotNode::new(ContradictionNode::new()).evaluate(&a));
    assert!(!ContradictionNode::new().evaluate(&Assignment::new()));
    assert!(var("P").evaluate(&a));
}

#[test]
fn conjunction_and_disjunction_equal_full_evaluation() {
    let names = ["a", "b", "c"];
    for bits in 0u32..8 {
        let values: Vec<bool> = (0..3).map(|c| (bits >> c) & 1 == 1).collect();
        let mut a = Assignment::new();
        for c in 0..3 {
            a.insert(names[c], values[c]);
        }
        let and = AndNode::new(vec![var("a"), var("b"), var("c")]);
        let or = OrNode::new(vec![var("a"), var("b"), var("c")]);
        assert_eq!(and.evaluate(&a), values.iter().all(|v| *v));
        assert_eq!(or.evaluate(&a), values.iter().any(|v| *v));
    }
}

#[test]
fn empty_conjunction_is_true_and_empty_disjunction_false() {
    let a = Assignment::new();
    assert!(AndNode::new(vec![]).evaluate(&a));
    assert!(!OrNode::new(vec![]).evaluate(&a));
}

#[test]
fn evaluation_returns_for_every_covering_assignment() {
    let f = AndNode::new(vec![
        OrNode::new(vec![var("p"), NotNode::new(var("q"))]),
        IfThenNode::new(var("q"), var("r")),
    ]);
    let props = f.get_all_propositions();
    assert_eq!(props, vec!["p", "q", "r"]);
    for bits in 0u32..8 {
        let mut a = Assignment::new();
        for (c, name) in props.iter().enumerate() {
            a.insert(name, (bits >> c) & 1 == 1);
        }
        let p = bits & 1 == 1;
        let q = bits & 2 == 2;
        let r = bits & 4 == 4;
        assert_eq!(f.evaluate(&a), (p || !q) && (!q || r));
    }
}

#[test]
fn variables_are_listed_once_and_in_order() {
    let f = AndNode::new(vec![var("b"), var("a"), var("b"), NotNode::new(var("B"))]);
    assert_eq!(f.get_all_propositions(), vec!["B", "a", "b"]);
    let set = f.retrieve();
    assert_eq!(set.len(), 3);
    assert!(set.contains("a"));
    assert!(set.contains("B"));
    assert!(!set.contains("c"));
    assert!(ContradictionNode::new().get_all_propositions().is_empty());
}

#[test]
fn tautology_agrees_with_trying_every_assignment() {
    let excluded_middle = OrNode::new(vec![var("P"), NotNode::new(var("P"))]);
    assert_eq!(excluded_middle.is_tautology(&vec!["P"]), Some(true));
    let f = IfThenNode::new(AndNode::new(vec![var("P"), var("Q")]), var("P"));
    assert_eq!(f.is_tautology(&vec!["P", "Q"]), Some(true));
    let g = IfThenNode::new(var("P"), AndNode::new(vec![var("P"), var("Q")]));
    assert_eq!(g.is_tautology(&vec!["P", "Q"]), Some(false));
    assert_eq!(ContradictionNode::new().is_tautology(&vec![]), Some(false));
    assert_eq!(NotNode::new(ContradictionNode::new()).is_tautology(&vec![]), Some(true));
}

#[test]
fn tautology_is_refused_above_fifteen_names() {
    let names = vec![
        "a", "b", "c", "d", "e", "f", "g", "h", "i", "j", "k", "l", "m", "n", "o", "p",
    ];
    let f = OrNode::new(vec![var("a"), NotNode::new(var("a"))]);
    assert_eq!(f.is_tautology(&names), None);
    let fifteen: Vec<&str> = names[..15].to_vec();
    assert_eq!(f.is_tautology(&fifteen), Some(true));
}

#[test]
fn last_bit_decides_the_last_name() {
    let names = vec![
        "a", "b", "c", "d", "e", "f", "g", "h", "i", "j", "k", "l", "m", "n", "o",
    ];
    assert_eq!(var("o").is_tautology(&names), Some(false));
    assert_eq!(NotNode::new(var("o")).is_tautology(&names), Some(false));
}

#[test]
fn assignment_keeps_the_last_value() {
    let mut a = Assignment::new();
    assert_eq!(a.get("P"), None);
    assert!(!a.contains("P"));
    a.insert("P", true);
    assert_eq!(a.get("P"), Some(true));
    a.insert("P", false);
    assert_eq!(a.get("P"), Some(false));
    assert!(a.contains("P"));
    assert_eq!(a.get("Q"), None);
}

#[test]
fn proposition_set_is_a_set_in_order() {
    let mut set = PropositionSet::new();
    assert_eq!(set.len(), 0);
    set.insert("q");
    set.insert("p");
    set.insert("q");
    set.insert("Z");
    assert_eq!(set.len(), 3);
    let mut other = PropositionSet::new();
    other.insert("a");
    other.insert("p");
    set.extend(other);
    assert_eq!(set.into_sorted_vec(), vec!["Z", "a", "p", "q"]);
}

#[test]
fn names_are_ordered_by_their_bytes() {
    assert_eq!(compare_names("a", "b"), NameOrder::Before);
    assert_eq!(compare_names("b", "a"), NameOrder::After);
    assert_eq!(compare_names("ab", "ab"), NameOrder::Same);
    assert_eq!(compare_names("a", "ab"), NameOrder::Before);
    assert_eq!(compare_names("", "a"), NameOrder::Before);
    assert_eq!(compare_names("Z", "a"), NameOrder::Before);
    assert_eq!(compare_names("é", "z"), NameOrder::After);
}
