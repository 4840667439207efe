use vstd::prelude::*;

use vstd::relations::sorted_by;
use vstd::seq_lib::group_to_multiset_ensures;

use crate::order::{
    key_le, key_order, lemma_ranked_sorted_permutation, lemma_sorted_arrangement_unique, ranked,
    sort_by_total_order, total_order_key,
};

verus! {

/// Bit pattern of `-0.0`.
pub const NEG_ZERO_BITS: u64 = 0x8000_0000_0000_0000;

/// Bit pattern of `100.0`.
pub const HUNDRED_BITS: u64 = 0x4059_0000_0000_0000;

/// Bit pattern of `95.0`, the percentile used when a request names none.
pub const DEFAULT_PERCENTILE_BITS: u64 = 0x4057_C000_0000_0000;

/// Why a percentile cannot be computed.
#[derive(Debug, Clone, Copy, PartialEq, Eq, Structural)]
pub enum PercentileError {
    /// The dataset holds no values.
    EmptyDataset,
    /// The percentile is below 0, above 100, or not a number.
    PercentileOutOfRange,
}

/// The percentile pattern denotes a number in `[0, 100]`: in the total
/// order it lies between `-0.0` and `100.0`. Either zero is accepted; NaN,
/// infinities and every other number are not.
pub open spec fn valid_percentile(bits: u64) -> bool {
    key_le(NEG_ZERO_BITS, bits) && key_le(bits, HUNDRED_BITS)
}

impl PercentileError {
    /// Text shown to a user for this error.
    pub open spec fn text(self) -> Seq<char> {
        match self {
            PercentileError::EmptyDataset => "Cannot calculate percentile of empty dataset"@,
            PercentileError::PercentileOutOfRange => "Percentile must be between 0 and 100"@,
        }
    }

    /// Text shown to a user for this error.
    pub fn message(&self) -> (r: String)
        ensures
            r@ == self.text(),
    {
        match self {
            PercentileError::EmptyDataset => "Cannot calculate percentile of empty dataset".to_owned(),
            PercentileError::PercentileOutOfRange => "Percentile must be between 0 and 100".to_owned(),
        }
    }
}

/// Outcome of validating a request over `len` values at percentile `p`.
pub open spec fn request_outcome(len: nat, p: u64) -> Result<(), PercentileError> {
    if len == 0 {
        Err(PercentileError::EmptyDataset)
    } else if !valid_percentile(p) {
        Err(PercentileError::PercentileOutOfRange)
    } else {
        Ok(())
    }
}

/// Checks a request before any work is done: an empty dataset is refused
/// first, then a percentile outside `[0, 100]` (NaN included).
pub fn check_request(len: usize, percentile_bits: u64) -> (r: Result<(), PercentileError>)
    ensures
        r == request_outcome(len as nat, percentile_bits),
        len == 0 ==> r == Err::<(), PercentileError>(PercentileError::EmptyDataset),
        len > 0 && !valid_percentile(percentile_bits) ==> r == Err::<(), PercentileError>(
            PercentileError::PercentileOutOfRange,
        ),
        r is Ok <==> len > 0 && valid_percentile(percentile_bits),
{
    if len == 0 {
        return Err(PercentileError::EmptyDataset);
    }
    let k = total_order_key(percentile_bits);
    if k < total_order_key(NEG_ZERO_BITS) || k > total_order_key(HUNDRED_BITS) {
        return Err(PercentileError::PercentileOutOfRange);
    }
    Ok(())
}


/// The values of ranks `lower` and `upper` in the dataset: the two order
/// statistics between which a fractional rank is interpolated. The dataset
/// is sorted on a private copy and is not changed.
pub fn order_statistics(values: &Vec<u64>, lower: usize, upper: usize) -> (r: (u64, u64))
    requires
        lower < values.len(),
        upper < values.len(),
    ensures
        r.0 == ranked(values@)[lower as int],
        r.1 == ranked(values@)[upper as int],
{
    let sorted = sort_by_total_order(values);
    proof {
        lemma_ranked_sorted_permutation(values@);
    }
    (sorted[lower], sorted[upper])
}

/// Rank 0 holds the minimum of a non-empty dataset: a value of the dataset
/// that no value of it precedes.
pub proof fn lemma_lowest_rank_is_minimum(s: Seq<u64>)
    requires
        s.len() > 0,
    ensures
        s.contains(ranked(s)[0]),
        forall|i: int| 0 <= i < s.len() ==> key_le(ranked(s)[0], #[trigger] s[i]),
{
    broadcast use group_to_multiset_ensures;

    lemma_ranked_sorted_permutation(s);
    let r = ranked(s);
    assert(r.to_multiset().count(r[0]) > 0);
    assert forall|i: int| 0 <= i < s.len() implies key_le(r[0], #[trigger] s[i]) by {
        assert(s.to_multiset().count(s[i]) > 0);
        assert(r.contains(s[i]));
        let j = choose|j: int| 0 <= j < r.len() && r[j] == s[i];
        if j > 0 {
            assert(key_order()(r[0], r[j]));
        }
    }
}

/// The last rank holds the maximum of a non-empty dataset: a value of the
/// dataset that no value of it follows.
pub proof fn lemma_highest_rank_is_maximum(s: Seq<u64>)
    requires
        s.len() > 0,
    ensures
        s.contains(ranked(s)[s.len() - 1]),
        forall|i: int| 0 <= i < s.len() ==> key_le(#[trigger] s[i], ranked(s)[s.len() - 1]),
{
    broadcast use group_to_multiset_ensures;

    lemma_ranked_sorted_permutation(s);
    let r = ranked(s);
    let last = s.len() - 1;
    assert(r.to_multiset().count(r[last]) > 0);
    assert forall|i: int| 0 <= i < s.len() implies key_le(#[trigger] s[i], r[last]) by {
        assert(s.to_multiset().count(s[i]) > 0);
        assert(r.contains(s[i]));
        let j = choose|j: int| 0 <= j < r.len() && r[j] == s[i];
        if j < last {
            assert(key_order()(r[j], r[last]));
        }
    }
}

/// Every rank of a non-empty dataset holds a value of it, and lies between
/// the minimum and the maximum.
pub proof fn lemma_rank_within_extremes(s: Seq<u64>, k: int)
    requires
        0 <= k < s.len(),
    ensures
        s.contains(ranked(s)[k]),
        key_le(ranked(s)[0], ranked(s)[k]),
        key_le(ranked(s)[k], ranked(s)[s.len() - 1]),
{
    broadcast use group_to_multiset_ensures;

    lemma_ranked_sorted_permutation(s);
    let r = ranked(s);
    assert(r.to_multiset().count(r[k]) > 0);
    if k > 0 {
        assert(key_order()(r[0], r[k]));
    }
    if k < s.len() - 1 {
        assert(key_order()(r[k], r[s.len() - 1]));
    }
}

/// The order in which the values arrive does not matter: two datasets that
/// hold the same values, each as often, have the same ranks.
pub proof fn lemma_ranking_ignores_input_order(a: Seq<u64>, b: Seq<u64>)
    requires
        a.to_multiset() == b.to_multiset(),
    ensures
        ranked(a) == ranked(b),
{
    lemma_ranked_sorted_permutation(a);
    lemma_ranked_sorted_permutation(b);
    lemma_sorted_arrangement_unique(ranked(a), ranked(b));
}

/// A dataset of one value has that value at its only rank.
pub proof fn lemma_single_value_ranks(x: u64)
    ensures
        ranked(seq![x]) == seq![x],
{
    lemma_ranked_sorted_permutation(seq![x]);
    let r = ranked(seq![x]);
    assert(sorted_by(seq![x], key_order()));
    lemma_sorted_arrangement_unique(r, seq![x]);
}

} // verus!
