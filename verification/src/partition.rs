use vstd::prelude::*;

use crate::range::HeightRange;

verus! {

/// The shard that the striping partition with `n` shards assigns height
/// `h` to.
pub open spec fn assign_spec(h: u64, n: u64) -> int {
    h as int % n as int
}

/// Whether height `h` belongs to shard `i` of range `r` under the striping
/// partition with `n` shards.
pub open spec fn in_shard(h: u64, r: HeightRange, n: u64, i: u64) -> bool {
    r.contains(h) && assign_spec(h, n) == i as int
}

/// Assigns a height to its shard: interleaved striping, `height % n`, so
/// that systematic cost variation across heights spreads evenly over the
/// shards instead of concentrating in one contiguous chunk.
pub fn assign(height: u64, n: u64) -> (shard_id: u64)
    requires
        1 <= n,
    ensures
        shard_id as int == assign_spec(height, n),
        shard_id < n,
{
    proof {
        vstd::arithmetic::div_mod::lemma_mod_bound(height as int, n as int);
    }
    height % n
}

/// The striping partition law: every height of a well-formed range lies in
/// the shard `assign_spec` names and in no other, and shards hold nothing
/// outside the range. Hence the union of the shards `0..n` is exactly the
/// range, with each height in exactly one shard.
pub proof fn lemma_partition(r: HeightRange, n: u64)
    requires
        r.wf(),
        1 <= n,
    ensures
        forall|h: u64|
            r.contains(h) ==> 0 <= #[trigger] assign_spec(h, n) < n && in_shard(
                h,
                r,
                n,
                assign_spec(h, n) as u64,
            ),
        forall|h: u64, i: u64, j: u64| in_shard(h, r, n, i) && in_shard(h, r, n, j) ==> i == j,
        forall|h: u64, i: u64| #[trigger] in_shard(h, r, n, i) ==> r.contains(h) && i < n,
{
    assert forall|h: u64| r.contains(h) implies 0 <= #[trigger] assign_spec(h, n) < n && in_shard(
        h,
        r,
        n,
        assign_spec(h, n) as u64,
    ) by {
        vstd::arithmetic::div_mod::lemma_mod_bound(h as int, n as int);
    }
    assert forall|h: u64, i: u64| #[trigger] in_shard(h, r, n, i) implies r.contains(h) && i
        < n by {
        vstd::arithmetic::div_mod::lemma_mod_bound(h as int, n as int);
    }
}

} // verus!
