//! The analysis of one line of text: whether it is a formula, and if so its
//! canonical form, its variables and whether it is a tautology.

use crate::formula::{join, Formula};
use crate::grammar::whole_term;
use crate::names::{lemma_sorted_no_duplicates, sorted_listing, views};
use crate::parser::parse_whole_term;
use crate::tautology::MAX_PROPOSITIONS;
use vstd::prelude::*;
use vstd::string::StringExecFns;

verus! {

/// The outcome of a tautology check.
#[derive(Clone, Copy, Debug, PartialEq, Eq)]
pub enum Verdict {
    /// The formula is true under every assignment.
    Yes,
    /// The formula is false under some assignment.
    No,
    /// The formula has more variables than are tried.
    TooManyPropositions,
}

/// What is reported of one line.
#[derive(Debug)]
pub struct Report {
    /// Whether the line is a formula.
    pub valid: bool,
    /// The canonical form of the formula, or the placeholder.
    pub formatted: String,
    /// The variables of the formula in order, separated by `", "`, or the
    /// placeholder where there is none.
    pub propositions: String,
    /// The outcome of the tautology check, or `None` where the line is no
    /// formula.
    pub verdict: Option<Verdict>,
}

/// The text that stands where there is nothing to report.
pub open spec fn placeholder() -> Seq<char> {
    "---"@
}

/// The outcome of the tautology check of `formula`.
pub open spec fn verdict_of(formula: Formula) -> Verdict {
    if formula.variables().len() > MAX_PROPOSITIONS {
        Verdict::TooManyPropositions
    } else if formula.is_tautology() {
        Verdict::Yes
    } else {
        Verdict::No
    }
}

/// The variables of `formula` in order, separated by `", "`, or the
/// placeholder where it has none.
pub open spec fn listing_of(formula: Formula) -> Seq<char> {
    let names = sorted_listing(formula.variables());
    if names.len() == 0 {
        placeholder()
    } else {
        join(names, ", "@)
    }
}

/// What is reported of a line that spells `parsed`, or no formula.
pub open spec fn reports(r: Report, parsed: Option<Formula>) -> bool {
    match parsed {
        Some(formula) => {
            &&& r.valid
            &&& r.formatted@ == formula.render()
            &&& r.propositions@ == listing_of(formula)
            &&& r.verdict == Some(verdict_of(formula))
        },
        None => {
            &&& !r.valid
            &&& r.formatted@ == placeholder()
            &&& r.propositions@ == placeholder()
            &&& r.verdict is None
        },
    }
}

/// `names`, with `separator` between each two neighbours.
pub fn join_names(names: &Vec<&str>, separator: &str) -> (r: String)
    ensures
        r@ == join(views(names@), separator@),
{
    let ghost parts = views(names@);
    let mut joined = String::new();
    let mut i: usize = 0;
    assert(parts.take(0) =~= Seq::<Seq<char>>::empty());
    while i < names.len()
        invariant
            i <= names.len(),
            parts == views(names@),
            joined@ == join(parts.take(i as int), separator@),
        decreases names.len() - i,
    {
        if i > 0 {
            joined.append(separator);
        }
        joined.append(names[i]);
        proof {
            let next = parts.take(i + 1);
            assert(next.last() == names@[i as int]@);
            assert(next.drop_last() =~= parts.take(i as int));
            if i == 0 {
                assert(joined@ =~= names@[0]@);
            }
        }
        i += 1;
    }
    assert(parts.take(i as int) =~= parts);
    joined
}

/// Parses `line` and reports its canonical form, its variables and whether
/// it is a tautology.
pub fn analyze(line: &str) -> (r: Report)
    ensures
        reports(r, whole_term(line@)),
{
    match parse_whole_term(line) {
        None => Report {
            valid: false,
            formatted: String::from_str("---"),
            propositions: String::from_str("---"),
            verdict: None,
        },
        Some(term) => {
            let formatted = term.to_string();
            let props = term.get_all_propositions();
            proof {
                lemma_sorted_no_duplicates(views(props@));
            }
            let propositions = if props.len() == 0 {
                String::from_str("---")
            } else {
                join_names(&props, ", ")
            };
            let verdict = match term.is_tautology(&props) {
                Some(true) => Verdict::Yes,
                Some(false) => Verdict::No,
                None => Verdict::TooManyPropositions,
            };
            Report { valid: true, formatted, propositions, verdict: Some(verdict) }
        },
    }
}

/// How the validity of a line is reported.
pub fn syntax_text(valid: bool) -> (r: &'static str)
    ensures
        r@ == if valid {
            "OK"@
        } else {
            "INVALID"@
        },
{
    if valid {
        "OK"
    } else {
        "INVALID"
    }
}

/// How the outcome of the tautology check is reported.
pub fn verdict_text(verdict: Option<Verdict>) -> (r: &'static str)
    ensures
        r@ == match verdict {
            Some(Verdict::Yes) => "YES"@,
            Some(Verdict::No) => "NO"@,
            Some(Verdict::TooManyPropositions) => "Too much propositions"@,
            None => placeholder(),
        },
{
    match verdict {
        Some(Verdict::Yes) => "YES",
        Some(Verdict::No) => "NO",
        Some(Verdict::TooManyPropositions) => "Too much propositions",
        None => "---",
    }
}

} // verus!
