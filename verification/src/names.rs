//! The order on variable names and a set of names kept in that order.

use vstd::prelude::*;
use vstd::utf8::*;

verus! {

/// `a` and `b` hold the same bytes at every index below `k`.
pub open spec fn agree_below(a: Seq<u8>, b: Seq<u8>, k: int) -> bool {
    &&& 0 <= k <= a.len()
    &&& k <= b.len()
    &&& forall|j: int| 0 <= j < k ==> a[j] == b[j]
}

/// `a` comes before `b` in the lexicographic order on byte sequences: at the
/// first index where they part, `a` has ended or holds the smaller byte.
pub open spec fn bytes_lt(a: Seq<u8>, b: Seq<u8>) -> bool {
    exists|k: int|
        #[trigger] agree_below(a, b, k) && k < b.len() && (k == a.len() || a[k] < b[k])
}

/// `a` comes before `b` in the order of names: the lexicographic order on
/// the bytes of their UTF-8 encodings, by which strings are ordered.
pub open spec fn name_lt(a: Seq<char>, b: Seq<char>) -> bool {
    bytes_lt(encode_utf8(a), encode_utf8(b))
}

/// Each name of `names` comes before every later one: the sequence is sorted
/// and holds no name twice.
pub open spec fn strictly_sorted(names: Seq<Seq<char>>) -> bool {
    forall|i: int, j: int| 0 <= i < j < names.len() ==> name_lt(names[i], names[j])
}

/// The views of the strings of `v`, in order.
pub open spec fn views(v: Seq<&str>) -> Seq<Seq<char>> {
    Seq::new(v.len(), |i: int| v[i]@)
}

/// No byte sequence comes before itself.
pub proof fn lemma_bytes_lt_irreflexive(a: Seq<u8>)
    ensures
        !bytes_lt(a, a),
{
}

/// What comes before a sequence comes before all that the sequence comes
/// before.
pub proof fn lemma_bytes_lt_transitive(a: Seq<u8>, b: Seq<u8>, c: Seq<u8>)
    requires
        bytes_lt(a, b),
        bytes_lt(b, c),
    ensures
        bytes_lt(a, c),
{
    let k1 = choose|k: int|
        #[trigger] agree_below(a, b, k) && k < b.len() && (k == a.len() || a[k] < b[k]);
    let k2 = choose|k: int|
        #[trigger] agree_below(b, c, k) && k < c.len() && (k == b.len() || b[k] < c[k]);
    let k = if k1 <= k2 {
        k1
    } else {
        k2
    };
    assert(agree_below(a, c, k));
}

/// Of two different byte sequences one comes before the other.
pub proof fn lemma_bytes_lt_total(a: Seq<u8>, b: Seq<u8>)
    ensures
        a == b || bytes_lt(a, b) || bytes_lt(b, a),
{
    if a != b && !bytes_lt(a, b) && !bytes_lt(b, a) {
        lemma_first_difference(a, b, 0);
    }
}

/// Two sequences that agree below `k` are equal, or part at some index from
/// `k` on, where one of them comes before the other.
proof fn lemma_first_difference(a: Seq<u8>, b: Seq<u8>, k: int)
    requires
        agree_below(a, b, k),
    ensures
        a == b || bytes_lt(a, b) || bytes_lt(b, a),
    decreases a.len() - k,
{
    if k == a.len() {
        if k == b.len() {
            assert(a =~= b);
        } else {
            assert(bytes_lt(a, b));
        }
    } else if k == b.len() {
        assert(agree_below(b, a, k));
        assert(bytes_lt(b, a));
    } else if a[k] < b[k] {
        assert(bytes_lt(a, b));
    } else if b[k] < a[k] {
        assert(agree_below(b, a, k));
        assert(bytes_lt(b, a));
    } else {
        assert(agree_below(a, b, k + 1));
        lemma_first_difference(a, b, k + 1);
    }
}

/// The order of names is a strict total order.
pub proof fn lemma_name_order(a: Seq<char>, b: Seq<char>, c: Seq<char>)
    ensures
        !name_lt(a, a),
        name_lt(a, b) && name_lt(b, c) ==> name_lt(a, c),
        a == b || name_lt(a, b) || name_lt(b, a),
{
    lemma_bytes_lt_irreflexive(encode_utf8(a));
    if name_lt(a, b) && name_lt(b, c) {
        lemma_bytes_lt_transitive(encode_utf8(a), encode_utf8(b), encode_utf8(c));
    }
    lemma_bytes_lt_total(encode_utf8(a), encode_utf8(b));
    encode_utf8_decode_utf8(a);
    encode_utf8_decode_utf8(b);
}

/// A strictly sorted sequence holds no name twice.
pub proof fn lemma_sorted_no_duplicates(names: Seq<Seq<char>>)
    requires
        strictly_sorted(names),
    ensures
        names.no_duplicates(),
        names.to_set().finite(),
        names.to_set().len() == names.len(),
{
    assert forall|i: int, j: int|
        0 <= i < names.len() && 0 <= j < names.len() && i != j implies names[i] != names[j] by {
        lemma_name_order(names[i], names[i], names[i]);
    }
    names.unique_seq_to_set();
}

/// A set of names has at most one listing in order: two strictly sorted
/// sequences that hold the same names are the same sequence.
pub proof fn lemma_sorted_listing_unique(a: Seq<Seq<char>>, b: Seq<Seq<char>>)
    requires
        strictly_sorted(a),
        strictly_sorted(b),
        a.to_set() == b.to_set(),
    ensures
        a == b,
    decreases a.len(),
{
    lemma_sorted_no_duplicates(a);
    lemma_sorted_no_duplicates(b);
    if a.len() > 0 {
        assert(a.to_set().contains(a[0]));
        assert(b.to_set().contains(b[0]));
        let j = choose|j: int| 0 <= j < b.len() && b[j] == a[0];
        let i = choose|i: int| 0 <= i < a.len() && a[i] == b[0];
        lemma_name_order(a[0], b[0], a[0]);
        assert(a[0] == b[0]);
        let x = a.skip(1);
        let y = b.skip(1);
        assert forall|name: Seq<char>| x.to_set().contains(name) == y.to_set().contains(name) by {
            if x.contains(name) {
                let p = choose|p: int| 0 <= p < x.len() && x[p] == name;
                assert(a[p + 1] == name);
                assert(a.to_set().contains(name));
                let q = choose|q: int| 0 <= q < b.len() && b[q] == name;
                assert(y[q - 1] == name);
            }
            if y.contains(name) {
                let p = choose|p: int| 0 <= p < y.len() && y[p] == name;
                assert(b[p + 1] == name);
                assert(b.to_set().contains(name));
                let q = choose|q: int| 0 <= q < a.len() && a[q] == name;
                assert(x[q - 1] == name);
            }
        }
        assert(x.to_set() =~= y.to_set());
        assert forall|p: int, q: int| 0 <= p < q < x.len() implies name_lt(x[p], x[q]) by {
            assert(x[p] == a[p + 1] && x[q] == a[q + 1]);
        }
        assert forall|p: int, q: int| 0 <= p < q < y.len() implies name_lt(y[p], y[q]) by {
            assert(y[p] == b[p + 1] && y[q] == b[q + 1]);
        }
        lemma_sorted_listing_unique(x, y);
        assert(a =~= seq![a[0]] + x);
        assert(b =~= seq![b[0]] + y);
    } else {
        assert(b.len() == 0);
        assert(a =~= b);
    }
}

/// The names of `set`, each once, in the order of names.
pub open spec fn sorted_listing(set: Set<Seq<char>>) -> Seq<Seq<char>> {
    choose|names: Seq<Seq<char>>| strictly_sorted(names) && names.to_set() == set
}

/// A strictly sorted sequence is the listing in order of the names it holds.
pub proof fn lemma_is_sorted_listing(names: Seq<Seq<char>>)
    requires
        strictly_sorted(names),
    ensures
        sorted_listing(names.to_set()) == names,
{
    let chosen = sorted_listing(names.to_set());
    assert(strictly_sorted(names) && names.to_set() == names.to_set());
    lemma_sorted_listing_unique(chosen, names);
}

/// How one name stands to another in the order of names.
#[derive(Clone, Copy, Debug, PartialEq, Eq)]
pub enum NameOrder {
    Before,
    Same,
    After,
}

/// Compares two names byte by byte.
pub fn compare_names(a: &str, b: &str) -> (r: NameOrder)
    ensures
        r == NameOrder::Before <==> name_lt(a@, b@),
        r == NameOrder::Same <==> a@ == b@,
        r == NameOrder::After <==> name_lt(b@, a@),
{
    let x = a.as_bytes();
    let y = b.as_bytes();
    let mut i: usize = 0;
    while i < x.len() && i < y.len() && x[i] == y[i]
        invariant
            agree_below(x@, y@, i as int),
        decreases x.len() - i,
    {
        i += 1;
    }
    proof {
        assert(x@ == encode_utf8(a@));
        assert(y@ == encode_utf8(b@));
        assert(agree_below(y@, x@, i as int));
        lemma_name_order(a@, b@, a@);
        lemma_name_order(b@, a@, b@);
    }
    if i < x.len() && i < y.len() {
        if x[i] < y[i] {
            assert(bytes_lt(x@, y@));
            NameOrder::Before
        } else {
            assert(bytes_lt(y@, x@));
            NameOrder::After
        }
    } else if i < y.len() {
        assert(bytes_lt(x@, y@));
        NameOrder::Before
    } else if i < x.len() {
        assert(bytes_lt(y@, x@));
        NameOrder::After
    } else {
        assert(x@ =~= y@);
        NameOrder::Same
    }
}

} // verus!
