use vstd::multiset::Multiset;
use vstd::prelude::*;
use vstd::relations::{sorted_by, total_ordering};
use vstd::seq_lib::{group_to_multiset_ensures, lemma_multiset_commutative, to_multiset_build};

verus! {

/// Bit pattern of the sign bit of an IEEE-754 double.
pub const SIGN_BIT: u64 = 0x8000_0000_0000_0000;

/// Position of a double in the IEEE-754 `totalOrder` relation, as an
/// unsigned integer: `-NaN < -inf < ... < -0 < +0 < ... < +inf < +NaN`.
///
/// This is the ordering policy of the engine: NaN values carrying a clear
/// sign bit sort above every number, those carrying a set sign bit below
/// every number, and `-0.0` sorts just below `+0.0`.
pub open spec fn total_key(bits: u64) -> u64 {
    if bits & SIGN_BIT != 0 {
        !bits
    } else {
        bits | SIGN_BIT
    }
}

/// `a` comes no later than `b` in the total order of doubles.
pub open spec fn key_le(a: u64, b: u64) -> bool {
    total_key(a) <= total_key(b)
}

/// Distinct patterns have distinct keys.
pub proof fn lemma_total_key_injective(a: u64, b: u64)
    ensures
        total_key(a) == total_key(b) ==> a == b,
{
    assert((if a & 0x8000_0000_0000_0000u64 != 0 { !a } else { a | 0x8000_0000_0000_0000u64 })
        == (if b & 0x8000_0000_0000_0000u64 != 0 { !b } else { b | 0x8000_0000_0000_0000u64 })
        ==> a == b) by (bit_vector);
}

/// Computes `total_key`.
pub fn total_order_key(bits: u64) -> (k: u64)
    ensures
        k == total_key(bits),
{
    if bits & SIGN_BIT != 0 {
        !bits
    } else {
        bits | SIGN_BIT
    }
}


/// The total order of doubles, as a relation on bit patterns.
pub open spec fn key_order() -> spec_fn(u64, u64) -> bool {
    |a: u64, b: u64| key_le(a, b)
}

/// The dataset `s` in ascending total order: `ranked(s)[k]` is its `k`-th
/// smallest value (counting from 0).
pub open spec fn ranked(s: Seq<u64>) -> Seq<u64> {
    s.sort_by(key_order())
}

/// `key_order` is a total order: reflexive, antisymmetric, transitive and
/// total.
pub proof fn lemma_key_order_total()
    ensures
        total_ordering(key_order()),
{
    assert forall|a: u64, b: u64| #[trigger] key_le(a, b) && #[trigger] key_le(b, a) implies a
        == b by {
        lemma_total_key_injective(a, b);
    }
}

/// `ranked(s)` holds the values of `s` and is sorted.
pub proof fn lemma_ranked_sorted_permutation(s: Seq<u64>)
    ensures
        sorted_by(ranked(s), key_order()),
        ranked(s).to_multiset() == s.to_multiset(),
        ranked(s).len() == s.len(),
{
    broadcast use group_to_multiset_ensures;

    lemma_key_order_total();
    s.lemma_sort_by_ensures(key_order());
    assert(ranked(s).to_multiset().len() == s.to_multiset().len());
}

/// Two sorted arrangements of one multiset are the same sequence.
pub proof fn lemma_sorted_arrangement_unique(a: Seq<u64>, b: Seq<u64>)
    requires
        sorted_by(a, key_order()),
        sorted_by(b, key_order()),
        a.to_multiset() == b.to_multiset(),
    ensures
        a == b,
    decreases a.len(),
{
    broadcast use group_to_multiset_ensures;

    assert(a.len() == a.to_multiset().len());
    assert(b.len() == b.to_multiset().len());
    if a.len() == 0 {
        assert(a =~= b);
    } else {
        let x = a[0];
        let y = b[0];
        assert(a.to_multiset().count(x) > 0);
        assert(b.contains(x));
        let j = choose|j: int| 0 <= j < b.len() && b[j] == x;
        assert(key_le(y, x)) by {
            if j > 0 {
                assert(key_order()(b[0], b[j]));
            }
        }
        assert(b.to_multiset().count(y) > 0);
        assert(a.contains(y));
        let i = choose|i: int| 0 <= i < a.len() && a[i] == y;
        assert(key_le(x, y)) by {
            if i > 0 {
                assert(key_order()(a[0], a[i]));
            }
        }
        lemma_total_key_injective(x, y);
        let ra = a.drop_first();
        let rb = b.drop_first();
        assert(a == seq![x] + ra) by {
            assert(a =~= seq![x] + ra);
        }
        assert(b == seq![x] + rb) by {
            assert(b =~= seq![x] + rb);
        }
        lemma_multiset_commutative(seq![x], ra);
        lemma_multiset_commutative(seq![x], rb);
        assert(seq![x].to_multiset() =~= Multiset::singleton(x)) by {
            assert(seq![x] =~= Seq::<u64>::empty().push(x));
        }
        assert(ra.to_multiset() =~= rb.to_multiset()) by {
            assert(ra.to_multiset() =~= a.to_multiset().sub(Multiset::singleton(x)));
            assert(rb.to_multiset() =~= b.to_multiset().sub(Multiset::singleton(x)));
        }
        assert(sorted_by(ra, key_order())) by {
            assert forall|p: int, q: int| 0 <= p < q < ra.len() implies #[trigger] key_order()(
                ra[p],
                ra[q],
            ) by {
                assert(key_order()(a[p + 1], a[q + 1]));
            }
        }
        assert(sorted_by(rb, key_order())) by {
            assert forall|p: int, q: int| 0 <= p < q < rb.len() implies #[trigger] key_order()(
                rb[p],
                rb[q],
            ) by {
                assert(key_order()(b[p + 1], b[q + 1]));
            }
        }
        lemma_sorted_arrangement_unique(ra, rb);
    }
}


/// Merges two sorted runs into one sorted run holding the values of both.
fn merge_runs(a: Vec<u64>, b: Vec<u64>) -> (r: Vec<u64>)
    requires
        sorted_by(a@, key_order()),
        sorted_by(b@, key_order()),
        a.len() + b.len() <= usize::MAX,
    ensures
        sorted_by(r@, key_order()),
        r@.to_multiset() == a@.to_multiset().add(b@.to_multiset()),
{
    broadcast use group_to_multiset_ensures;

    let mut r: Vec<u64> = Vec::with_capacity(a.len() + b.len());
    let mut i: usize = 0;
    let mut j: usize = 0;
    while i < a.len() || j < b.len()
        invariant
            i <= a.len(),
            j <= b.len(),
            a.len() + b.len() <= usize::MAX,
            r.len() == i + j,
            sorted_by(a@, key_order()),
            sorted_by(b@, key_order()),
            sorted_by(r@, key_order()),
            r@.to_multiset() == a@.subrange(0, i as int).to_multiset().add(
                b@.subrange(0, j as int).to_multiset(),
            ),
            r.len() > 0 && i < a.len() ==> key_le(r@.last(), a@[i as int]),
            r.len() > 0 && j < b.len() ==> key_le(r@.last(), b@[j as int]),
        decreases a.len() + b.len() - i - j,
    {
        let take_a = j >= b.len() || (i < a.len() && total_order_key(a[i]) <= total_order_key(
            b[j],
        ));
        let x: u64 = if take_a {
            a[i]
        } else {
            b[j]
        };
        let ghost old_r = r@;
        let ghost old_ma = a@.subrange(0, i as int).to_multiset();
        let ghost old_mb = b@.subrange(0, j as int).to_multiset();
        proof {
            if take_a {
                assert(a@.subrange(0, i + 1) =~= a@.subrange(0, i as int).push(x));
                to_multiset_build(a@.subrange(0, i as int), x);
                if i + 1 < a.len() {
                    assert(key_order()(a@[i as int], a@[i + 1]));
                }
            } else {
                assert(b@.subrange(0, j + 1) =~= b@.subrange(0, j as int).push(x));
                to_multiset_build(b@.subrange(0, j as int), x);
                if j + 1 < b.len() {
                    assert(key_order()(b@[j as int], b@[j + 1]));
                }
            }
        }
        r.push(x);
        if take_a {
            i = i + 1;
        } else {
            j = j + 1;
        }
        proof {
            assert(r@ =~= old_r.push(x));
            to_multiset_build(old_r, x);
            if take_a {
                assert(a@.subrange(0, i as int).to_multiset() =~= old_ma.insert(x));
            } else {
                assert(b@.subrange(0, j as int).to_multiset() =~= old_mb.insert(x));
            }
            assert forall|p: int, q: int| 0 <= p < q < r@.len() implies #[trigger] key_order()(
                r@[p],
                r@[q],
            ) by {
                if q == r@.len() - 1 && p < q {
                    if p < old_r.len() - 1 {
                        assert(key_order()(old_r[p], old_r.last()));
                    }
                }
            }
        }
    }
    assert(a@.subrange(0, i as int) =~= a@);
    assert(b@.subrange(0, j as int) =~= b@);
    r
}

/// Sorts `v[lo..hi]` into a new vector.
fn sort_range(v: &Vec<u64>, lo: usize, hi: usize) -> (r: Vec<u64>)
    requires
        lo <= hi <= v.len(),
    ensures
        sorted_by(r@, key_order()),
        r@.to_multiset() == v@.subrange(lo as int, hi as int).to_multiset(),
        r.len() == hi - lo,
    decreases hi - lo,
{
    broadcast use group_to_multiset_ensures;

    if hi - lo == 0 {
        let r: Vec<u64> = Vec::new();
        assert(v@.subrange(lo as int, hi as int) =~= r@);
        r
    } else if hi - lo == 1 {
        let mut r: Vec<u64> = Vec::new();
        r.push(v[lo]);
        assert(v@.subrange(lo as int, hi as int) =~= r@);
        r
    } else {
        let mid: usize = lo + (hi - lo) / 2;
        let left = sort_range(v, lo, mid);
        let right = sort_range(v, mid, hi);
        assert(v@.subrange(lo as int, hi as int) =~= v@.subrange(lo as int, mid as int)
            + v@.subrange(mid as int, hi as int));
        proof {
            lemma_multiset_commutative(
                v@.subrange(lo as int, mid as int),
                v@.subrange(mid as int, hi as int),
            );
        }
        let r = merge_runs(left, right);
        assert(r@.to_multiset().len() == r@.len());
        r
    }
}

/// Returns a copy of `values` in ascending total order; `values` itself is
/// left as it was.
pub fn sort_by_total_order(values: &Vec<u64>) -> (r: Vec<u64>)
    ensures
        r@ == ranked(values@),
{
    let r = sort_range(values, 0, values.len());
    proof {
        assert(values@.subrange(0, values@.len() as int) =~= values@);
        lemma_ranked_sorted_permutation(values@);
        lemma_sorted_arrangement_unique(r@, ranked(values@));
    }
    r
}

} // verus!
