//! Why trying the enumerated valuations is trying every valuation.

use crate::formula::{Formula, Valuation};
use crate::tautology::{
    bit, enumerated, lemma_enumerated_domain, valuation_count, MAX_PROPOSITIONS,
};
use vstd::prelude::*;

verus! {

/// Whether `a` and `b` give the same value to every variable of `formula`.
pub open spec fn agree_on(formula: Formula, a: Valuation, b: Valuation) -> bool {
    forall|name: Seq<char>| formula.mentions(name) ==> a[name] == b[name]
}

/// The truth value of a formula depends on the values of its own variables
/// only.
pub proof fn lemma_eval_depends_on_variables(formula: Formula, a: Valuation, b: Valuation)
    requires
        agree_on(formula, a, b),
    ensures
        formula.eval(a) == formula.eval(b),
    decreases formula,
{
    match formula {
        Formula::Conjunction(cs) => {
            assert forall|i: int| 0 <= i < cs.len() implies (#[trigger] cs[i]).eval(a) == cs[i].eval(
                b,
            ) by {
                assert forall|name: Seq<char>| cs[i].mentions(name) implies a[name] == b[name] by {
                    assert(formula.mentions(name));
                }
                lemma_eval_depends_on_variables(cs[i], a, b);
            }
        },
        Formula::Disjunction(cs) => {
            assert forall|i: int| 0 <= i < cs.len() implies (#[trigger] cs[i]).eval(a) == cs[i].eval(
                b,
            ) by {
                assert forall|name: Seq<char>| cs[i].mentions(name) implies a[name] == b[name] by {
                    assert(formula.mentions(name));
                }
                lemma_eval_depends_on_variables(cs[i], a, b);
            }
        },
        Formula::Implication(l, r) => {
            lemma_eval_depends_on_variables(*l, a, b);
            lemma_eval_depends_on_variables(*r, a, b);
        },
        Formula::Negation(c) => {
            lemma_eval_depends_on_variables(*c, a, b);
        },
        Formula::Variable(name) => {
            assert(formula.mentions(name));
        },
        Formula::Contradiction => {},
    }
}

/// The value that the valuation with number `index` gives to a name of
/// `names` is a bit of `index`, at a position where the name stands.
pub proof fn lemma_enumerated_value(names: Seq<Seq<char>>, index: u32, name: Seq<char>)
    requires
        names.contains(name),
    ensures
        exists|c: int|
            0 <= c < names.len() && #[trigger] names[c] == name && enumerated(names, index)[name]
                == bit(index, c),
    decreases names.len(),
{
    let last = names.len() - 1;
    if names[last] == name {
        assert(names[last] == name && enumerated(names, index)[name] == bit(index, last));
    } else {
        let shorter = names.drop_last();
        let p = choose|p: int| 0 <= p < names.len() && names[p] == name;
        assert(shorter[p] == name);
        lemma_enumerated_value(shorter, index, name);
        let c = choose|c: int|
            0 <= c < shorter.len() && #[trigger] shorter[c] == name && enumerated(shorter, index)[name]
                == bit(index, c);
        assert(names[c] == name);
    }
}

/// Where no name stands twice in `names`, the valuation with number `index`
/// gives the name at position `c` the value of bit `c` of `index`.
pub proof fn lemma_enumerated_bit(names: Seq<Seq<char>>, index: u32, c: int)
    requires
        names.no_duplicates(),
        0 <= c < names.len(),
    ensures
        enumerated(names, index)[names[c]] == bit(index, c),
{
    assert(names.contains(names[c]));
    lemma_enumerated_value(names, index, names[c]);
}

/// The number of a valuation that gives each of `names` the value that `v`
/// gives it.
pub open spec fn number_of(names: Seq<Seq<char>>, v: Valuation) -> u32
    decreases names.len(),
{
    if names.len() == 0 {
        0
    } else {
        let low = number_of(names.drop_last(), v);
        if v[names.last()] {
            low | (1u32 << ((names.len() - 1) as u32))
        } else {
            low
        }
    }
}

/// The number of `v` is one of the numbers that are tried, and its bits are
/// the values that `v` gives to `names`.
pub proof fn lemma_number_of(names: Seq<Seq<char>>, v: Valuation)
    requires
        names.len() <= MAX_PROPOSITIONS,
    ensures
        number_of(names, v) < valuation_count(names.len()),
        forall|c: int| 0 <= c < names.len() ==> bit(number_of(names, v), c) == v[#[trigger] names[c]],
    decreases names.len(),
{
    if names.len() == 0 {
        assert(0u32 < 1u32 << 0u32) by (bit_vector);
    } else {
        let shorter = names.drop_last();
        lemma_number_of(shorter, v);
        let low = number_of(shorter, v);
        let k = (names.len() - 1) as u32;
        let high = low | (1u32 << k);
        assert(low < 1u32 << k);
        let next = names.len() as u32;
        assert(high < 1u32 << next && low < 1u32 << next && (high >> k) & 1 == 1 && (low >> k) & 1
            == 0) by (bit_vector)
            requires
                k < 15,
                next == k + 1,
                low < 1u32 << k,
                high == low | (1u32 << k),
        ;
        assert forall|c: int| 0 <= c < names.len() implies bit(number_of(names, v), c) == v[names[c]] by {
            if c < names.len() - 1 {
                let cu = c as u32;
                assert(shorter[c] == names[c]);
                assert(bit(low, c) == v[names[c]]);
                assert((high >> cu) & 1 == (low >> cu) & 1) by (bit_vector)
                    requires
                        cu < k,
                        k < 15,
                        high == low | (1u32 << k),
                ;
            }
        }
    }
}

/// Exhaustiveness: a formula is true under each of the enumerated
/// valuations of `names` iff it is true under every valuation that gives a
/// value to each of its variables, that is, iff it is a tautology.
pub proof fn lemma_enumeration_is_exhaustive(formula: Formula, names: Seq<Seq<char>>)
    requires
        names.len() <= MAX_PROPOSITIONS,
        formula.variables().subset_of(names.to_set()),
    ensures
        formula.true_under_all(names) <==> formula.is_tautology(),
{
    if formula.true_under_all(names) {
        assert forall|v: Valuation| formula.covered_by(v) implies #[trigger] formula.eval(v) by {
            let index = number_of(names, v);
            lemma_number_of(names, v);
            let tried = enumerated(names, index);
            assert forall|name: Seq<char>| formula.mentions(name) implies tried[name] == v[name] by {
                assert(formula.variables().contains(name));
                assert(names.to_set().contains(name));
                lemma_enumerated_value(names, index, name);
            }
            lemma_eval_depends_on_variables(formula, tried, v);
            assert(formula.eval(tried));
        }
    }
    if formula.is_tautology() {
        assert forall|index: u32| index < valuation_count(names.len()) implies formula.eval(
            #[trigger] enumerated(names, index),
        ) by {
            lemma_enumerated_domain(names, index);
            let tried = enumerated(names, index);
            assert forall|name: Seq<char>| formula.mentions(name) implies tried.dom().contains(
                name,
            ) by {
                assert(formula.variables().contains(name));
            }
        }
    }
}

} // verus!
