use vstd::prelude::*;

use crate::errors::ScanError;
use crate::gateway::Gateway;
use crate::range::HeightRange;
use crate::scan::lemma_scan_fail_sticky;
use crate::scan::scan;
use crate::scan::ShardOutcome;

verus! {

/// What one shard worker reports: its shard id, the subtotal of the counts
/// it gathered, and the error it stopped at, if any. Immutable once
/// produced; a parallel run yields exactly one per shard.
#[derive(Clone, Copy, Debug, PartialEq, Eq)]
pub struct PartialResult {
    pub shard_id: u64,
    pub count: u128,
    pub error: Option<ScanError>,
}

/// Whether `p` reports exactly the fail-fast outcome of scanning shard `i`
/// of range `r` (striped over `n` shards) against gateway `g`.
pub open spec fn shard_result_matches<G: Gateway>(
    p: PartialResult,
    g: G,
    r: HeightRange,
    n: u64,
    i: u64,
) -> bool {
    &&& p.shard_id == i
    &&& p.count as int == scan(g, r.start as int, r.end as int, n, i).total
    &&& p.error == scan(g, r.start as int, r.end as int, n, i).fail
}

/// Runs one shard worker to completion or first failure.
///
/// The worker walks the heights of range `r` in ascending order, queries
/// the gateway for each height the striping partition assigns to
/// `shard_id`, and accumulates the counts. On the first failing query it
/// stops at once — later heights of the shard are never queried — and
/// reports that error together with the subtotal gathered so far.
///
/// The subtotal is exact and cannot overflow: a `u64` range holds at most
/// `2^64` heights of at most `u64::MAX` transactions each, which always
/// fits in a `u128`.
pub fn run_shard<G: Gateway>(r: HeightRange, n: u64, shard_id: u64, gateway: &G) -> (p:
    PartialResult)
    requires
        r.wf(),
        1 <= n,
        shard_id < n,
    ensures
        shard_result_matches(p, *gateway, r, n, shard_id),
{
    let len: u128 = (r.end - r.start) as u128 + 1;
    let mut total: u128 = 0;
    let mut k: u128 = 0;
    while k < len
        invariant
            r.wf(),
            1 <= n,
            shard_id < n,
            len == r.end - r.start + 1,
            0 <= k <= len,
            scan(*gateway, r.start as int, r.start + k - 1, n, shard_id) == (ShardOutcome {
                total: total as int,
                fail: None,
            }),
            total <= k * (u64::MAX as u128),
        decreases len - k,
    {
        let h: u64 = r.start + (k as u64);
        if h % n == shard_id {
            match gateway.transaction_count(h) {
                Ok(c) => {
                    assert(scan(*gateway, r.start as int, r.start + k, n, shard_id)
                        == (ShardOutcome { total: total + c, fail: None }));
                    total = total + (c as u128);
                },
                Err(e) => {
                    proof {
                        assert(scan(*gateway, r.start as int, r.start + k, n, shard_id)
                            == (ShardOutcome { total: total as int, fail: Some(e) }));
                        lemma_scan_fail_sticky(
                            *gateway,
                            r.start as int,
                            r.start + k,
                            r.end as int,
                            n,
                            shard_id,
                        );
                    }
                    return PartialResult { shard_id, count: total, error: Some(e) };
                },
            }
        } else {
            assert(scan(*gateway, r.start as int, r.start + k, n, shard_id) == scan(
                *gateway,
                r.start as int,
                r.start + k - 1,
                n,
                shard_id,
            ));
        }
        k = k + 1;
    }
    PartialResult { shard_id, count: total, error: None }
}

} // verus!
