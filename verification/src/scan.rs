use vstd::prelude::*;

use crate::errors::ScanError;
use crate::gateway::Gateway;

verus! {

/// What a fail-fast pass over some heights yields: the subtotal of the
/// counts gathered before the first error, and that error if one occurred.
/// Heights after the first failing one contribute nothing.
pub struct ShardOutcome {
    pub total: int,
    pub fail: Option<ScanError>,
}

/// Outcome of scanning every height in `[start, h]` in ascending order
/// against gateway `g`, stopping at the first error.
pub open spec fn scan_all<G: Gateway>(g: G, start: int, h: int) -> ShardOutcome
    decreases h - start + 1,
{
    if h < start {
        ShardOutcome { total: 0, fail: None }
    } else {
        let prev = scan_all(g, start, h - 1);
        if prev.fail is Some {
            prev
        } else {
            match g.response(h as u64) {
                Ok(c) => ShardOutcome { total: prev.total + c, fail: None },
                Err(e) => ShardOutcome { total: prev.total, fail: Some(e) },
            }
        }
    }
}

/// Outcome of scanning, in ascending order and stopping at the first error,
/// those heights in `[start, h]` that the striping partition with `n` shards
/// assigns to shard `i` (that is, the heights with `h % n == i`).
pub open spec fn scan<G: Gateway>(g: G, start: int, h: int, n: u64, i: u64) -> ShardOutcome
    decreases h - start + 1,
{
    if h < start {
        ShardOutcome { total: 0, fail: None }
    } else {
        let prev = scan(g, start, h - 1, n, i);
        if prev.fail is Some {
            prev
        } else if h % (n as int) == i as int {
            match g.response(h as u64) {
                Ok(c) => ShardOutcome { total: prev.total + c, fail: None },
                Err(e) => ShardOutcome { total: prev.total, fail: Some(e) },
            }
        } else {
            prev
        }
    }
}

/// How much shard `i`'s subtotal grows when height `h` joins the scanned
/// range: the count at `h` if `h` is shard `i`'s and answered, else nothing.
pub open spec fn scan_delta<G: Gateway>(g: G, start: int, h: int, n: u64, i: u64) -> int {
    scan(g, start, h, n, i).total - scan(g, start, h - 1, n, i).total
}

/// Sum of the subtotals of shards `0..k` over `[start, h]`, shard `j`
/// scanned against its own gateway `gs[j]`.
pub open spec fn shard_total_sum<G: Gateway>(gs: Seq<G>, start: int, h: int, n: u64, k: int) -> int
    decreases k,
{
    if k <= 0 {
        0
    } else {
        shard_total_sum(gs, start, h, n, k - 1) + scan(gs[k - 1], start, h, n, (k - 1) as u64).total
    }
}

/// A height outside shard `i` leaves shard `i`'s scan unchanged.
pub proof fn lemma_scan_skip<G: Gateway>(g: G, start: int, h: int, n: u64, i: u64)
    requires
        start <= h,
        h % (n as int) != i as int,
    ensures
        scan(g, start, h, n, i) == scan(g, start, h - 1, n, i),
{
}

/// One height changes one shard's subtotal by at most one block's count.
pub proof fn lemma_scan_delta_bound<G: Gateway>(g: G, start: int, h: int, n: u64, i: u64)
    requires
        start <= h,
    ensures
        0 <= scan_delta(g, start, h, n, i) <= u64::MAX,
{
}

/// Over an empty range every shard subtotal is zero.
pub proof fn lemma_shard_sum_empty<G: Gateway>(gs: Seq<G>, start: int, h: int, n: u64, k: int)
    requires
        h < start,
    ensures
        shard_total_sum(gs, start, h, n, k) == 0,
    decreases k,
{
    if k > 0 {
        lemma_shard_sum_empty(gs, start, h, n, k - 1);
    }
}

/// Adding height `h` to the scanned range moves the sum of the first `k`
/// shard subtotals by exactly the delta of the one shard `h` is striped
/// to — if that shard is among the first `k` — and by nothing otherwise.
pub proof fn lemma_shard_sum_step<G: Gateway>(gs: Seq<G>, start: int, h: int, n: u64, k: int)
    requires
        1 <= n,
        start <= h,
        0 <= k <= n,
        gs.len() == n,
    ensures
        shard_total_sum(gs, start, h, n, k) == shard_total_sum(gs, start, h - 1, n, k) + (
        if h % (n as int) < k {
            scan_delta(gs[h % (n as int)], start, h, n, (h % (n as int)) as u64)
        } else {
            0
        }),
    decreases k,
{
    vstd::arithmetic::div_mod::lemma_mod_bound(h, n as int);
    let m = h % (n as int);
    if k > 0 {
        lemma_shard_sum_step(gs, start, h, n, k - 1);
        if k - 1 == m {
            assert(scan(gs[m], start, h, n, m as u64).total == scan(
                gs[m],
                start,
                h - 1,
                n,
                m as u64,
            ).total + scan_delta(gs[m], start, h, n, m as u64));
        } else {
            lemma_scan_skip(gs[k - 1], start, h, n, (k - 1) as u64);
        }
    }
}

/// The sum of all `n` shard subtotals over `[start, h]` never exceeds one
/// maximal block count per height — whatever the gateways answer and
/// wherever scans fail. This is what keeps every aggregate within `u128`.
pub proof fn lemma_shard_sum_bound<G: Gateway>(gs: Seq<G>, start: int, h: int, n: u64)
    requires
        1 <= n,
        start - 1 <= h,
        gs.len() == n,
    ensures
        0 <= shard_total_sum(gs, start, h, n, n as int) <= (h - start + 1) * (u64::MAX as int),
    decreases h - start + 1,
{
    if h == start - 1 {
        lemma_shard_sum_empty(gs, start, h, n, n as int);
    } else {
        lemma_shard_sum_bound(gs, start, h - 1, n);
        lemma_shard_sum_step(gs, start, h, n, n as int);
        vstd::arithmetic::div_mod::lemma_mod_bound(h, n as int);
        let m = h % (n as int);
        lemma_scan_delta_bound(gs[m], start, h, n, m as u64);
    }
}

/// Striping distributes a sequential scan: when every gateway agrees with
/// `g` and `g` answers every height of `[start, h]`, no shard scan fails
/// and the shard subtotals sum to exactly the sequential total.
pub proof fn lemma_equiv_scan<G: Gateway>(g: G, gs: Seq<G>, start: int, h: int, n: u64)
    requires
        1 <= n,
        gs.len() == n,
        0 <= start,
        start - 1 <= h,
        h <= u64::MAX,
        forall|j: int, hh: u64| 0 <= j < n ==> #[trigger] gs[j].response(hh) == g.response(hh),
        forall|hh: u64| start <= hh <= h ==> (#[trigger] g.response(hh)) is Ok,
    ensures
        scan_all(g, start, h).fail is None,
        shard_total_sum(gs, start, h, n, n as int) == scan_all(g, start, h).total,
        forall|j: int|
            0 <= j < n ==> (#[trigger] scan(gs[j], start, h, n, j as u64).fail) is None,
    decreases h - start + 1,
{
    if h == start - 1 {
        lemma_shard_sum_empty(gs, start, h, n, n as int);
        assert forall|j: int| 0 <= j < n implies (#[trigger] scan(
            gs[j],
            start,
            h,
            n,
            j as u64,
        ).fail) is None by {
            assert(scan(gs[j], start, h, n, j as u64) == ShardOutcome { total: 0, fail: None });
        }
    } else {
        lemma_equiv_scan(g, gs, start, h - 1, n);
        lemma_shard_sum_step(gs, start, h, n, n as int);
        vstd::arithmetic::div_mod::lemma_mod_bound(h, n as int);
        let m = h % (n as int);
        assert(g.response(h as u64) is Ok);
        assert(gs[m].response(h as u64) == g.response(h as u64));
        assert(scan(gs[m], start, h, n, m as u64).fail is None);
        assert(scan_delta(gs[m], start, h, n, m as u64) == g.response(h as u64)->Ok_0);
        assert forall|j: int| 0 <= j < n implies (#[trigger] scan(
            gs[j],
            start,
            h,
            n,
            j as u64,
        ).fail) is None by {
            if j != m {
                lemma_scan_skip(gs[j], start, h, n, j as u64);
            }
        }
    }
}

/// A shard scan that never failed got an answer for every one of its
/// heights.
pub proof fn lemma_scan_ok_responses<G: Gateway>(g: G, start: int, h: int, n: u64, i: u64)
    requires
        1 <= n,
        scan(g, start, h, n, i).fail is None,
    ensures
        forall|hh: u64|
            start <= hh <= h && hh as int % (n as int) == i as int ==> (#[trigger] g.response(
                hh,
            )) is Ok,
    decreases h - start + 1,
{
    if h >= start {
        assert(scan(g, start, h - 1, n, i).fail is None) by {
            if scan(g, start, h - 1, n, i).fail is Some {
                assert(scan(g, start, h, n, i) == scan(g, start, h - 1, n, i));
            }
        }
        lemma_scan_ok_responses(g, start, h - 1, n, i);
        assert forall|hh: u64|
            start <= hh <= h && hh as int % (n as int) == i as int implies (#[trigger] g.response(
            hh,
        )) is Ok by {
            if hh == h {
                assert(g.response(hh) is Ok);
            }
        }
    }
}

/// A shard scan whose every height is answered never fails.
pub proof fn lemma_scan_ok_of_responses<G: Gateway>(g: G, start: int, h: int, n: u64, i: u64)
    requires
        1 <= n,
        0 <= start,
        h <= u64::MAX,
        forall|hh: u64|
            start <= hh <= h && hh as int % (n as int) == i as int ==> (#[trigger] g.response(
                hh,
            )) is Ok,
    ensures
        scan(g, start, h, n, i).fail is None,
    decreases h - start + 1,
{
    if h >= start {
        lemma_scan_ok_of_responses(g, start, h - 1, n, i);
        if h % (n as int) == i as int {
            assert(g.response(h as u64) is Ok);
        }
    }
}

/// A sequential scan that never failed got an answer for every height.
pub proof fn lemma_scan_all_ok_responses<G: Gateway>(g: G, start: int, h: int)
    requires
        scan_all(g, start, h).fail is None,
    ensures
        forall|hh: u64| start <= hh <= h ==> (#[trigger] g.response(hh)) is Ok,
    decreases h - start + 1,
{
    if h >= start {
        assert(scan_all(g, start, h - 1).fail is None) by {
            if scan_all(g, start, h - 1).fail is Some {
                assert(scan_all(g, start, h) == scan_all(g, start, h - 1));
            }
        }
        lemma_scan_all_ok_responses(g, start, h - 1);
        assert forall|hh: u64| start <= hh <= h implies (#[trigger] g.response(hh)) is Ok by {
            if hh == h {
                assert(g.response(hh) is Ok);
            }
        }
    }
}

/// With one shard, striping assigns every height to it: the shard scan is
/// the sequential scan.
pub proof fn lemma_single_shard<G: Gateway>(g: G, start: int, h: int)
    ensures
        scan(g, start, h, 1, 0) == scan_all(g, start, h),
    decreases h - start + 1,
{
    if h >= start {
        lemma_single_shard(g, start, h - 1);
        vstd::arithmetic::div_mod::lemma_mod_bound(h, 1);
    }
}

/// Once a shard scan has failed, scanning further heights changes nothing.
pub proof fn lemma_scan_fail_sticky<G: Gateway>(g: G, start: int, h1: int, h2: int, n: u64, i: u64)
    requires
        h1 <= h2,
        scan(g, start, h1, n, i).fail is Some,
    ensures
        scan(g, start, h2, n, i) == scan(g, start, h1, n, i),
    decreases h2 - h1,
{
    if h1 < h2 {
        lemma_scan_fail_sticky(g, start, h1, h2 - 1, n, i);
        assert(h2 >= start) by {
            if h2 < start {
                assert(h1 < start);
                assert(scan(g, start, h1, n, i).fail is None);
            }
        }
    }
}

} // verus!
