use vstd::prelude::*;

use crate::errors::ScanError;
use crate::gateway::Gateway;
use crate::orchestrate::combine;
use crate::orchestrate::lemma_combine_ok;
use crate::partition::in_shard;
use crate::range::HeightRange;
use crate::scan::lemma_equiv_scan;
use crate::scan::lemma_scan_all_ok_responses;
use crate::scan::lemma_scan_fail_sticky;
use crate::scan::lemma_scan_ok_of_responses;
use crate::scan::lemma_scan_ok_responses;
use crate::scan::lemma_single_shard;
use crate::scan::scan;
use crate::scan::scan_all;

verus! {

/// Strategy equivalence: over any well-formed range, when all `n` gateways
/// answer as one deterministic gateway `g` does and `g` answers every
/// height of the range, the parallel run succeeds and its total equals the
/// sequential scan's.
pub proof fn lemma_strategy_equivalence<G: Gateway>(g: G, gs: Seq<G>, r: HeightRange, n: u64)
    requires
        r.wf(),
        1 <= n,
        gs.len() == n,
        forall|j: int, h: u64| 0 <= j < n ==> #[trigger] gs[j].response(h) == g.response(h),
        forall|h: u64| r.contains(h) ==> (#[trigger] g.response(h)) is Ok,
    ensures
        scan_all(g, r.start as int, r.end as int).fail is None,
        combine(gs, r, n, n as int) == Ok::<int, ScanError>(
            scan_all(g, r.start as int, r.end as int).total,
        ),
{
    lemma_equiv_scan(g, gs, r.start as int, r.end as int, n);
    lemma_combine_ok(gs, r, n, n as int);
}

/// Single-shard degeneracy: a parallel run with one worker is the
/// sequential scan — same total on success, same error on failure.
pub proof fn lemma_single_shard_degeneracy<G: Gateway>(gs: Seq<G>, r: HeightRange)
    requires
        r.wf(),
        gs.len() == 1,
    ensures
        scan_all(gs[0], r.start as int, r.end as int).fail is None ==> combine(gs, r, 1, 1)
            == Ok::<int, ScanError>(scan_all(gs[0], r.start as int, r.end as int).total),
        scan_all(gs[0], r.start as int, r.end as int).fail matches Some(e) ==> combine(gs, r, 1, 1)
            == Err::<int, ScanError>(e),
{
    lemma_single_shard(gs[0], r.start as int, r.end as int);
    assert(combine(gs, r, 1, 0) == Ok::<int, ScanError>(0));
}

/// Fail-fast within a shard: when the gateway answers every height of
/// shard `i` below `h0` but fails at `h0`, the shard's scan surfaces
/// exactly that error, and its subtotal is the sum over the shard's
/// heights below `h0` alone — heights past the failure contribute nothing.
pub proof fn lemma_fail_fast<G: Gateway>(g: G, r: HeightRange, n: u64, i: u64, h0: u64)
    requires
        r.wf(),
        1 <= n,
        i < n,
        in_shard(h0, r, n, i),
        g.response(h0) is Err,
        forall|h: u64|
            r.start <= h < h0 && h as int % (n as int) == i as int ==> (#[trigger] g.response(
                h,
            )) is Ok,
    ensures
        scan(g, r.start as int, r.end as int, n, i).fail == Some(g.response(h0)->Err_0),
        scan(g, r.start as int, r.end as int, n, i).total == scan(
            g,
            r.start as int,
            h0 - 1,
            n,
            i,
        ).total,
        scan(g, r.start as int, h0 - 1, n, i).fail is None,
{
    lemma_scan_ok_of_responses(g, r.start as int, h0 - 1, n, i);
    assert(scan(g, r.start as int, h0 as int, n, i).fail == Some(g.response(h0)->Err_0));
    assert(scan(g, r.start as int, h0 as int, n, i).total == scan(
        g,
        r.start as int,
        h0 - 1,
        n,
        i,
    ).total);
    lemma_scan_fail_sticky(g, r.start as int, h0 as int, r.end as int, n, i);
}

/// A failing gateway yields a returned error: if any height of the range
/// is answered with an error, the sequential scan surfaces a failure
/// rather than a total.
pub proof fn lemma_failure_surfaces_sequential<G: Gateway>(g: G, r: HeightRange, h0: u64)
    requires
        r.wf(),
        r.contains(h0),
        g.response(h0) is Err,
    ensures
        scan_all(g, r.start as int, r.end as int).fail is Some,
{
    if scan_all(g, r.start as int, r.end as int).fail is None {
        lemma_scan_all_ok_responses(g, r.start as int, r.end as int);
        assert(g.response(h0) is Ok);
    }
}

/// A failing gateway yields a returned error from a parallel run too: if
/// shard `i`'s gateway fails at one of the shard's heights, the combined
/// run is an error, never a partial total.
pub proof fn lemma_failure_surfaces_parallel<G: Gateway>(
    gs: Seq<G>,
    r: HeightRange,
    n: u64,
    i: u64,
    h0: u64,
)
    requires
        r.wf(),
        1 <= n,
        gs.len() == n,
        i < n,
        in_shard(h0, r, n, i),
        gs[i as int].response(h0) is Err,
    ensures
        combine(gs, r, n, n as int) is Err,
{
    lemma_combine_ok(gs, r, n, n as int);
    if combine(gs, r, n, n as int) is Ok {
        let j = i as int;
        assert(j as u64 == i);
        assert(scan(gs[j], r.start as int, r.end as int, n, j as u64).fail is None);
        lemma_scan_ok_responses(gs[j], r.start as int, r.end as int, n, i);
        assert(gs[j].response(h0) is Ok);
    }
}

} // verus!
