use vstd::prelude::*;

use crate::errors::ScanError;
use crate::worker::PartialResult;

verus! {

/// The aggregation policy over a sequence of partial results, in order:
/// if any result carries an error, the first one wins and the whole run
/// fails; otherwise the aggregate is the sum of all subtotals.
pub open spec fn reduce_spec(s: Seq<PartialResult>) -> Result<int, ScanError>
    decreases s.len(),
{
    if s.len() == 0 {
        Ok(0)
    } else {
        match reduce_spec(s.drop_last()) {
            Err(e) => Err(e),
            Ok(t) => match s.last().error {
                Some(e) => Err(e),
                None => Ok(t + s.last().count),
            },
        }
    }
}

/// Sum of the `count` fields of all partial results, errors included.
pub open spec fn sum_counts(s: Seq<PartialResult>) -> int
    decreases s.len(),
{
    if s.len() == 0 {
        0
    } else {
        sum_counts(s.drop_last()) + s.last().count
    }
}

/// Counts are non-negative, so a prefix never sums to more than the whole.
pub proof fn lemma_sum_counts_prefix(s: Seq<PartialResult>, k: int)
    requires
        0 <= k <= s.len(),
    ensures
        0 <= sum_counts(s.subrange(0, k)) <= sum_counts(s),
    decreases s.len(),
{
    if k == s.len() {
        assert(s.subrange(0, k) =~= s);
        lemma_sum_counts_nonneg(s);
    } else {
        lemma_sum_counts_prefix(s.drop_last(), k);
        assert(s.drop_last().subrange(0, k) =~= s.subrange(0, k));
    }
}

/// The sum of counts is never negative.
pub proof fn lemma_sum_counts_nonneg(s: Seq<PartialResult>)
    ensures
        0 <= sum_counts(s),
    decreases s.len(),
{
    if s.len() > 0 {
        lemma_sum_counts_nonneg(s.drop_last());
    }
}

/// What the aggregate means: it fails exactly when some partial result
/// carries an error, the surfaced error is one that a partial result
/// carries, and on success the total is the sum of every subtotal —
/// each incorporated exactly once.
pub proof fn lemma_reduce_characterization(s: Seq<PartialResult>)
    ensures
        (reduce_spec(s) is Err) <==> (exists|i: int|
            0 <= i < s.len() && (#[trigger] s[i].error) is Some),
        reduce_spec(s) is Ok ==> reduce_spec(s) == Ok::<int, ScanError>(sum_counts(s)),
        reduce_spec(s) matches Err(e) ==> (exists|i: int|
            0 <= i < s.len() && (#[trigger] s[i].error) == Some(e)),
    decreases s.len(),
{
    if s.len() > 0 {
        lemma_reduce_characterization(s.drop_last());
        if reduce_spec(s) is Err {
            if reduce_spec(s.drop_last()) is Err {
                let e = reduce_spec(s.drop_last())->Err_0;
                let i = choose|i: int|
                    0 <= i < s.drop_last().len() && (#[trigger] s.drop_last()[i].error) == Some(e);
                assert(s[i].error == Some(e));
            } else {
                assert(s[s.len() - 1].error is Some);
            }
        }
        if exists|i: int| 0 <= i < s.len() && (#[trigger] s[i].error) is Some {
            let i = choose|i: int| 0 <= i < s.len() && (#[trigger] s[i].error) is Some;
            if i < s.len() - 1 {
                assert(s.drop_last()[i].error is Some);
            }
        }
    }
}

/// Reduces the partial results of one parallel run to one aggregate:
/// either the grand total of every shard's subtotal, or the first error
/// any shard reported. Results may stand in any order; each is
/// incorporated exactly once, and nothing is concluded before every
/// result is in.
///
/// The caller keeps the mathematical sum of the subtotals within `u128`;
/// results produced by shard workers over one range always satisfy that.
pub fn reduce(results: &Vec<PartialResult>) -> (r: Result<u128, ScanError>)
    requires
        sum_counts(results@) <= u128::MAX,
    ensures
        r matches Ok(t) ==> reduce_spec(results@) == Ok::<int, ScanError>(t as int),
        r matches Err(e) ==> reduce_spec(results@) == Err::<int, ScanError>(e),
{
    let mut total: u128 = 0;
    let mut first_error: Option<ScanError> = None;
    let mut k: usize = 0;
    while k < results.len()
        invariant
            0 <= k <= results@.len(),
            sum_counts(results@) <= u128::MAX,
            first_error is None ==> reduce_spec(results@.subrange(0, k as int)) == Ok::<
                int,
                ScanError,
            >(total as int),
            first_error is None ==> total <= sum_counts(results@.subrange(0, k as int)),
            first_error matches Some(e) ==> reduce_spec(results@.subrange(0, k as int)) == Err::<
                int,
                ScanError,
            >(e),
        decreases results@.len() - k,
    {
        proof {
            assert(results@.subrange(0, k + 1).drop_last() =~= results@.subrange(0, k as int));
            assert(results@.subrange(0, k + 1).last() == results@[k as int]);
        }
        match first_error {
            None => {
                match results[k].error {
                    Some(e) => {
                        first_error = Some(e);
                    },
                    None => {
                        proof {
                            lemma_sum_counts_prefix(results@, k + 1);
                        }
                        total = total + results[k].count;
                    },
                }
            },
            Some(_) => {},
        }
        k = k + 1;
    }
    proof {
        assert(results@.subrange(0, results@.len() as int) =~= results@);
    }
    match first_error {
        Some(e) => Err(e),
        None => Ok(total),
    }
}

} // verus!
