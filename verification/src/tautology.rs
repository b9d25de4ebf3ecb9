//! Exhaustive tautology checking over an ordered list of variable names.

use crate::assignment::Assignment;
use crate::exhaustive::lemma_enumeration_is_exhaustive;
use crate::formula::{Formula, Valuation};
use crate::names::views;
use crate::node::Node;
use vstd::prelude::*;

verus! {

/// The largest number of variables for which every assignment is tried.
pub const MAX_PROPOSITIONS: usize = 15;

/// Bit `position` of `index`.
pub open spec fn bit(index: u32, position: int) -> bool {
    (index >> (position as u32)) & 1 == 1
}

/// The valuation with number `index`: the name at position `c` of `names` is
/// true iff bit `c` of `index` is set. Where a name stands at several
/// positions, the last of them decides.
pub open spec fn enumerated(names: Seq<Seq<char>>, index: u32) -> Valuation
    decreases names.len(),
{
    if names.len() == 0 {
        Map::empty()
    } else {
        enumerated(names.drop_last(), index).insert(names.last(), bit(index, names.len() - 1))
    }
}

/// The number of valuations of `count` names: 2 to the power of `count`.
pub open spec fn valuation_count(count: nat) -> u32 {
    1u32 << (count as u32)
}

impl Formula {
    /// Whether the formula is true under each of the 2^n valuations of the
    /// `n` names `names`.
    pub open spec fn true_under_all(self, names: Seq<Seq<char>>) -> bool {
        forall|index: u32|
            index < valuation_count(names.len()) ==> self.eval(#[trigger] enumerated(names, index))
    }
}

/// The valuation with number `index` gives a value to exactly the names of `names`.
pub proof fn lemma_enumerated_domain(names: Seq<Seq<char>>, index: u32)
    ensures
        enumerated(names, index).dom() == names.to_set(),
    decreases names.len(),
{
    if names.len() == 0 {
        assert(enumerated(names, index).dom() =~= names.to_set());
    } else {
        lemma_enumerated_domain(names.drop_last(), index);
        let shorter = names.drop_last();
        assert forall|name: Seq<char>| names.to_set().contains(name) <==> (shorter.to_set().contains(
            name,
        ) || name == names.last()) by {
            if names.contains(name) {
                let p = choose|p: int| 0 <= p < names.len() && names[p] == name;
                if p < shorter.len() {
                    assert(shorter[p] == name);
                }
            }
            if shorter.contains(name) {
                let p = choose|p: int| 0 <= p < shorter.len() && shorter[p] == name;
                assert(names[p] == name);
            }
            if name == names.last() {
                assert(names[names.len() - 1] == name);
            }
        }
        assert(enumerated(names, index).dom() =~= names.to_set());
    }
}

/// The assignment with number `index` over `props`.
fn assignment_at(props: &Vec<&str>, index: u32) -> (r: Assignment)
    requires
        props.len() <= MAX_PROPOSITIONS,
    ensures
        r@ == enumerated(views(props@), index),
{
    let ghost names = views(props@);
    let mut map = Assignment::new();
    let mut c: usize = 0;
    assert(names.take(0) =~= Seq::<Seq<char>>::empty());
    while c < props.len()
        invariant
            c <= props.len(),
            props.len() <= MAX_PROPOSITIONS,
            names == views(props@),
            map@ == enumerated(names.take(c as int), index),
        decreases props.len() - c,
    {
        let position = c as u32;
        map.insert(props[c], ((index >> position) & 1) == 1);
        proof {
            let next = names.take(c + 1);
            assert(next.drop_last() =~= names.take(c as int));
            assert(next.last() == props@[c as int]@);
        }
        c += 1;
    }
    assert(names.take(c as int) =~= names);
    map
}

impl Node {
    /// Whether the formula is true under every assignment of truth values to
    /// `props`, or `None` where `props` holds more than
    /// [`MAX_PROPOSITIONS`] names and nothing is tried.
    ///
    /// Unless it is refused, `props` must hold every variable of the
    /// formula. The assignments are tried in the order of their numbers and
    /// the first under which the formula is false ends the search.
    pub fn is_tautology(&self, props: &Vec<&str>) -> (r: Option<bool>)
        requires
            props.len() <= MAX_PROPOSITIONS ==> self@.variables().subset_of(
                views(props@).to_set(),
            ),
        ensures
            r == if props.len() > MAX_PROPOSITIONS {
                None
            } else {
                Some(self@.true_under_all(views(props@)))
            },
            props.len() <= MAX_PROPOSITIONS ==> r == Some(self@.is_tautology()),
    {
        proof {
            if props.len() <= MAX_PROPOSITIONS {
                lemma_enumeration_is_exhaustive(self@, views(props@));
            }
        }
        if props.len() > MAX_PROPOSITIONS {
            None
        } else {
            let ghost names = views(props@);
            let count = props.len() as u32;
            assert(1u32 << count <= 32768) by (bit_vector)
                requires
                    count <= 15,
            ;
            let limit: u32 = 1u32 << count;
            let mut i: u32 = 0;
            while i < limit
                invariant
                    i <= limit,
                    limit == valuation_count(names.len()),
                    names == views(props@),
                    props.len() <= MAX_PROPOSITIONS,
                    self@.variables().subset_of(names.to_set()),
                    forall|j: u32| j < i ==> self@.eval(#[trigger] enumerated(names, j)),
                decreases limit - i,
            {
                let map = assignment_at(props, i);
                proof {
                    lemma_enumerated_domain(names, i);
                    assert forall|name: Seq<char>| self@.mentions(name) implies map@.dom().contains(
                        name,
                    ) by {
                        assert(self@.variables().contains(name));
                    }
                }
                if !self.evaluate(&map) {
                    return Some(false);
                }
                i += 1;
            }
            Some(true)
        }
    }
}

} // verus!
