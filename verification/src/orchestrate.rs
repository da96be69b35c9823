use vstd::prelude::*;

use crate::aggregate::lemma_sum_counts_nonneg;
use crate::aggregate::reduce;
use crate::aggregate::reduce_spec;
use crate::aggregate::sum_counts;
use crate::errors::ScanError;
use crate::gateway::Gateway;
use crate::range::HeightRange;
use crate::scan::lemma_shard_sum_bound;
use crate::scan::lemma_single_shard;
use crate::scan::scan;
use crate::scan::scan_all;
use crate::scan::shard_total_sum;
use crate::worker::run_shard;
use crate::worker::shard_result_matches;
use crate::worker::PartialResult;

verus! {

/// What a whole parallel run over range `r` with shards `0..k` yields,
/// shard `j` scanned against gateway `gs[j]`: the sum of all shard
/// subtotals, or the failure of the lowest-numbered failed shard.
pub open spec fn combine<G: Gateway>(gs: Seq<G>, r: HeightRange, n: u64, k: int) -> Result<
    int,
    ScanError,
>
    decreases k,
{
    if k <= 0 {
        Ok(0)
    } else {
        match combine(gs, r, n, k - 1) {
            Err(e) => Err(e),
            Ok(s) => match scan(gs[k - 1], r.start as int, r.end as int, n, (k - 1) as u64).fail {
                Some(e) => Err(e),
                None => Ok(s + scan(gs[k - 1], r.start as int, r.end as int, n, (k - 1) as u64).total),
            },
        }
    }
}

/// A combined run succeeds exactly when no shard scan failed, and then its
/// total is the sum of the shard subtotals.
pub proof fn lemma_combine_ok<G: Gateway>(gs: Seq<G>, r: HeightRange, n: u64, k: int)
    requires
        1 <= n,
        gs.len() == n,
        0 <= k <= n,
    ensures
        (combine(gs, r, n, k) is Ok) <==> (forall|j: int|
            0 <= j < k ==> (#[trigger] scan(
                gs[j],
                r.start as int,
                r.end as int,
                n,
                j as u64,
            ).fail) is None),
        combine(gs, r, n, k) is Ok ==> combine(gs, r, n, k) == Ok::<int, ScanError>(
            shard_total_sum(gs, r.start as int, r.end as int, n, k),
        ),
    decreases k,
{
    if k > 0 {
        lemma_combine_ok(gs, r, n, k - 1);
    }
}

/// A sequence of partial results that reports, entry by entry, exactly the
/// shard outcomes reduces to exactly the combined run: same total on
/// success, same surfaced error on failure, and the same sum of counts.
pub proof fn lemma_results_bridge<G: Gateway>(
    results: Seq<PartialResult>,
    gs: Seq<G>,
    r: HeightRange,
    n: u64,
    k: int,
)
    requires
        1 <= n,
        gs.len() == n,
        results.len() == n,
        0 <= k <= n,
        forall|j: int|
            0 <= j < n ==> shard_result_matches(#[trigger] results[j], gs[j], r, n, j as u64),
    ensures
        reduce_spec(results.subrange(0, k)) == combine(gs, r, n, k),
        sum_counts(results.subrange(0, k)) == shard_total_sum(gs, r.start as int, r.end as int, n, k),
    decreases k,
{
    if k > 0 {
        lemma_results_bridge(results, gs, r, n, k - 1);
        assert(results.subrange(0, k).drop_last() =~= results.subrange(0, k - 1));
        assert(results.subrange(0, k).last() == results[k - 1]);
    }
}

/// Scans the whole range over one gateway connection, height by height in
/// ascending order, and returns the total number of transactions — or the
/// error of the first height whose query failed, later heights never
/// queried.
pub fn count_total_transactions<G: Gateway>(start_height: u64, end_height: u64, gateway: &G) -> (r:
    Result<u128, ScanError>)
    requires
        start_height <= end_height,
    ensures
        scan_all(*gateway, start_height as int, end_height as int).fail is None ==> (r matches Ok(t)
            && t as int == scan_all(*gateway, start_height as int, end_height as int).total),
        scan_all(*gateway, start_height as int, end_height as int).fail matches Some(e) ==> r
            == Err::<u128, ScanError>(e),
{
    let range = HeightRange { start: start_height, end: end_height };
    proof {
        lemma_single_shard(*gateway, start_height as int, end_height as int);
    }
    let p = run_shard(range, 1, 0, gateway);
    match p.error {
        Some(e) => Err(e),
        None => Ok(p.count),
    }
}

/// Runs every shard worker of a parallel scan, shard `j` against its own
/// gateway `gateways[j]`, and hands back one partial result per shard —
/// exactly `gateways.len()` of them, in shard order, whether the shards
/// succeeded or failed.
pub fn run_all_shards<G: Gateway>(range: HeightRange, gateways: &Vec<G>) -> (results: Vec<
    PartialResult,
>)
    requires
        range.wf(),
        1 <= gateways@.len(),
    ensures
        results@.len() == gateways@.len(),
        forall|j: int|
            0 <= j < gateways@.len() ==> shard_result_matches(
                #[trigger] results@[j],
                gateways@[j],
                range,
                gateways@.len() as u64,
                j as u64,
            ),
{
    let n_shards: usize = gateways.len();
    let n: u64 = n_shards as u64;
    let mut results: Vec<PartialResult> = Vec::new();
    let mut i: usize = 0;
    while i < n_shards
        invariant
            range.wf(),
            1 <= n_shards,
            i <= n_shards,
            n == n_shards as u64,
            n_shards == gateways@.len(),
            results@.len() == i,
            forall|j: int|
                0 <= j < i ==> shard_result_matches(
                    #[trigger] results@[j],
                    gateways@[j],
                    range,
                    n,
                    j as u64,
                ),
        decreases n_shards - i,
    {
        let p = run_shard(range, n, i as u64, &gateways[i]);
        results.push(p);
        i = i + 1;
    }
    results
}

/// Scans the range in parallel: one shard worker per gateway, heights
/// striped over the `gateways.len()` shards, every worker run to
/// completion or first failure, and the partial results aggregated into
/// one total — or the first failed shard's error, with no partial number
/// ever surfaced.
pub fn parallel_count_total_transactions<G: Gateway>(
    start_height: u64,
    end_height: u64,
    gateways: &Vec<G>,
) -> (r: Result<u128, ScanError>)
    requires
        start_height <= end_height,
        1 <= gateways@.len(),
    ensures
        combine(
            gateways@,
            (HeightRange { start: start_height, end: end_height }),
            gateways@.len() as u64,
            gateways@.len() as int,
        ) matches Ok(t) ==> (r matches Ok(u) && u as int == t),
        combine(
            gateways@,
            (HeightRange { start: start_height, end: end_height }),
            gateways@.len() as u64,
            gateways@.len() as int,
        ) matches Err(e) ==> r == Err::<u128, ScanError>(e),
{
    let range = HeightRange { start: start_height, end: end_height };
    let n_shards: usize = gateways.len();
    let results = run_all_shards(range, gateways);
    proof {
        let gs = gateways@;
        let nn = n_shards as u64;
        assert(gs.len() == n_shards);
        assert(gs.len() as u64 == nn);
        lemma_results_bridge(results@, gs, range, nn, gs.len() as int);
        assert(results@.subrange(0, results@.len() as int) =~= results@);
        lemma_shard_sum_bound(gs, range.start as int, range.end as int, nn);
        lemma_combine_ok(gs, range, nn, gs.len() as int);
        lemma_sum_counts_nonneg(results@);
    }
    reduce(&results)
}

} // verus!
