//! A finite set of variable names, held in the order of names.

use crate::names::{
    compare_names, lemma_name_order, lemma_sorted_no_duplicates, name_lt, strictly_sorted, views,
    NameOrder,
};
use vstd::prelude::*;

verus! {

/// A finite set of variable names, borrowed from the formula that mentions them.
///
/// The names are held strictly sorted, so the set has one representation and
/// its listing in order is immediate.
pub struct PropositionSet<'a> {
    names: Vec<&'a str>,
}

impl<'a> View for PropositionSet<'a> {
    type V = Set<Seq<char>>;

    closed spec fn view(&self) -> Set<Seq<char>> {
        views(self.names@).to_set()
    }
}

/// Putting `name` at index `i` of a strictly sorted sequence, between the
/// names that come before it and those that come after it, keeps the
/// sequence strictly sorted.
proof fn lemma_insert_keeps_sorted(s: Seq<Seq<char>>, i: int, name: Seq<char>)
    requires
        strictly_sorted(s),
        0 <= i <= s.len(),
        forall|j: int| 0 <= j < i ==> name_lt(#[trigger] s[j], name),
        i < s.len() ==> name_lt(name, s[i]),
    ensures
        strictly_sorted(s.insert(i, name)),
{
    let t = s.insert(i, name);
    assert forall|p: int, q: int| 0 <= p < q < t.len() implies name_lt(t[p], t[q]) by {
        if q == i {
            assert(t[p] == s[p]);
        } else if p == i {
            assert(t[q] == s[q - 1]);
            if q - 1 > i {
                lemma_name_order(name, s[i], s[q - 1]);
            }
        } else if p < i && q > i {
            assert(t[p] == s[p]);
            assert(t[q] == s[q - 1]);
        } else if p < i {
            assert(t[p] == s[p]);
            assert(t[q] == s[q]);
        } else {
            assert(t[p] == s[p - 1]);
            assert(t[q] == s[q - 1]);
        }
    }
}

/// The index of the first of `names` that does not come before `name`, and
/// whether the name at that index is `name` itself.
fn position(names: &Vec<&str>, name: &str) -> (r: (usize, bool))
    requires
        strictly_sorted(views(names@)),
    ensures
        r.0 <= names.len(),
        forall|j: int| 0 <= j < r.0 ==> name_lt(#[trigger] views(names@)[j], name@),
        r.1 ==> r.0 < names.len() && views(names@)[r.0 as int] == name@,
        !r.1 && r.0 < names.len() ==> name_lt(name@, views(names@)[r.0 as int]),
{
    let mut i: usize = 0;
    while i < names.len()
        invariant
            i <= names.len(),
            forall|j: int| 0 <= j < i ==> name_lt(#[trigger] views(names@)[j], name@),
        decreases names.len() - i,
    {
        match compare_names(names[i], name) {
            NameOrder::Before => {
                assert(views(names@)[i as int] == names@[i as int]@);
                i += 1;
            },
            NameOrder::Same => {
                assert(views(names@)[i as int] == names@[i as int]@);
                return (i, true);
            },
            NameOrder::After => {
                assert(views(names@)[i as int] == names@[i as int]@);
                return (i, false);
            },
        }
    }
    (i, false)
}

impl<'a> PropositionSet<'a> {
    #[verifier::type_invariant]
    spec fn sorted(&self) -> bool {
        strictly_sorted(views(self.names@))
    }

    /// The empty set.
    pub fn new() -> (r: Self)
        ensures
            r@ == Set::<Seq<char>>::empty(),
    {
        let r = PropositionSet { names: Vec::new() };
        assert(views(r.names@) =~= Seq::<Seq<char>>::empty());
        assert(r@ =~= Set::<Seq<char>>::empty());
        r
    }

    /// Adds `name` to the set; a name that is in the set already stays once.
    pub fn insert(&mut self, name: &'a str)
        ensures
            final(self)@ == old(self)@.insert(name@),
    {
        proof {
            use_type_invariant(&*self);
        }
        let ghost before = views(self.names@);
        let (i, found) = position(&self.names, name);
        if found {
            assert(before.contains(name@));
            assert(self@ =~= self@.insert(name@));
            return ;
        }
        let mut out: Vec<&'a str> = Vec::new();
        let mut k: usize = 0;
        while k < self.names.len()
            invariant
                k <= self.names.len(),
                i <= self.names.len(),
                out@ =~= if k <= i {
                    self.names@.take(k as int)
                } else {
                    self.names@.take(k as int).insert(i as int, name)
                },
            decreases self.names.len() - k,
        {
            if k == i {
                out.push(name);
            }
            out.push(self.names[k]);
            k += 1;
        }
        if i == self.names.len() {
            out.push(name);
        }
        assert(out@ =~= self.names@.insert(i as int, name));
        proof {
            let after = views(out@);
            assert(after =~= before.insert(i as int, name@));
            lemma_insert_keeps_sorted(before, i as int, name@);
            assert forall|n: Seq<char>| after.contains(n) <==> (before.contains(n) || n == name@) by {
                if after.contains(n) {
                    let p = choose|p: int| 0 <= p < after.len() && after[p] == n;
                    if p < i {
                        assert(before[p] == n);
                    } else if p > i {
                        assert(before[p - 1] == n);
                    }
                }
                if before.contains(n) {
                    let p = choose|p: int| 0 <= p < before.len() && before[p] == n;
                    if p < i {
                        assert(after[p] == n);
                    } else {
                        assert(after[p + 1] == n);
                    }
                }
                if n == name@ {
                    assert(after[i as int] == n);
                }
            }
            assert(after.to_set() =~= before.to_set().insert(name@));
        }
        self.names = out;
    }

    /// Adds every name of `other` to the set.
    pub fn extend(&mut self, other: PropositionSet<'a>)
        ensures
            final(self)@ == old(self)@.union(other@),
    {
        proof {
            use_type_invariant(&other);
        }
        let ghost start = self@;
        let ghost added = views(other.names@);
        let mut k: usize = 0;
        while k < other.names.len()
            invariant
                k <= other.names.len(),
                added == views(other.names@),
                self@ =~= start.union(added.take(k as int).to_set()),
            decreases other.names.len() - k,
        {
            self.insert(other.names[k]);
            proof {
                assert(added[k as int] == other.names@[k as int]@);
                assert(added.take(k + 1) =~= added.take(k as int).push(added[k as int]));
                assert(added.take(k + 1).to_set() =~= added.take(k as int).to_set().insert(
                    added[k as int],
                )) by {
                    let a = added.take(k as int);
                    let b = a.push(added[k as int]);
                    assert forall|n: Seq<char>| b.contains(n) <==> (a.contains(n) || n
                        == added[k as int]) by {
                        if b.contains(n) {
                            let p = choose|p: int| 0 <= p < b.len() && b[p] == n;
                            if p < a.len() {
                                assert(a[p] == n);
                            }
                        }
                        if a.contains(n) {
                            let p = choose|p: int| 0 <= p < a.len() && a[p] == n;
                            assert(b[p] == n);
                        }
                        if n == added[k as int] {
                            assert(b[a.len() as int] == n);
                        }
                    }
                }
            }
            k += 1;
        }
        assert(added.take(k as int) =~= added);
    }

    /// Whether `name` is in the set.
    pub fn contains(&self, name: &str) -> (r: bool)
        ensures
            r == self@.contains(name@),
    {
        proof {
            use_type_invariant(self);
        }
        let (i, found) = position(&self.names, name);
        proof {
            let s = views(self.names@);
            if !found && s.contains(name@) {
                let p = choose|p: int| 0 <= p < s.len() && s[p] == name@;
                lemma_name_order(name@, name@, name@);
                if p > i {
                    lemma_name_order(name@, s[i as int], s[p]);
                }
            }
        }
        found
    }

    /// The number of names in the set.
    pub fn len(&self) -> (r: usize)
        ensures
            r == self@.len(),
            self@.finite(),
    {
        proof {
            use_type_invariant(self);
            lemma_sorted_no_duplicates(views(self.names@));
        }
        self.names.len()
    }

    /// The names of the set in order: each once, each before every later one.
    pub fn into_sorted_vec(self) -> (r: Vec<&'a str>)
        ensures
            strictly_sorted(views(r@)),
            views(r@).to_set() == self@,
    {
        proof {
            use_type_invariant(&self);
        }
        self.names
    }
}

} // verus!
