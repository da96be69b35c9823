use txscan::{
    assign, count_total_transactions, parallel_count_total_transactions, reduce, run_all_shards,
    run_shard, HeightRange, MockGateway, PartialResult, ScanError,
};

fn identity_gateway(up_to: u64) -> MockGateway {
    let mut counts: Vec<u64> = Vec::new();
    let mut h: u64 = 0;
    while h <= up_to {
        counts.push(h);
        h += 1;
    }
    MockGateway { counts, fail_at: None }
}

fn identity_gateways(up_to: u64, n: usize) -> Vec<MockGateway> {
    let mut gs = Vec::new();
    for _ in 0..n {
        gs.push(identity_gateway(up_to));
    }
    gs
}

#[test]
fn sum_matches_known_total() {
    // count(h) = h over heights 0..=9 must total 45.
    let g = identity_gateway(9);
    assert_eq!(count_total_transactions(0, 9, &g), Ok(45));
}

#[test]
fn parallel_matches_sequential() {
    let g = identity_gateway(30);
    let sequential = count_total_transactions(3, 27, &g);
    for n in 1..6 {
        let gs = identity_gateways(30, n);
        assert_eq!(parallel_count_total_transactions(3, 27, &gs), sequential);
    }
}

#[test]
fn single_shard_parallel_equals_sequential() {
    let g = MockGateway {
        counts: vec![2, 9, 4, 1, 7, 3],
        fail_at: None,
    };
    let gs = vec![MockGateway {
        counts: vec![2, 9, 4, 1, 7, 3],
        fail_at: None,
    }];
    assert_eq!(
        parallel_count_total_transactions(1, 4, &gs),
        count_total_transactions(1, 4, &g)
    );

    // The degeneracy also holds when the gateway fails mid-range.
    let g = MockGateway {
        counts: vec![2, 9, 4, 1, 7, 3],
        fail_at: Some(3),
    };
    let gs = vec![MockGateway {
        counts: vec![2, 9, 4, 1, 7, 3],
        fail_at: Some(3),
    }];
    assert_eq!(
        parallel_count_total_transactions(1, 4, &gs),
        count_total_transactions(1, 4, &g)
    );
    assert_eq!(
        count_total_transactions(1, 4, &g),
        Err(ScanError::Gateway { height: 3 })
    );
}

#[test]
fn fail_fast_within_shard() {
    // Shard 0 of 0..=11 striped over 3 shards holds 0, 3, 6, 9; the query
    // at 6 fails, so the worker must report that error with only the
    // counts of 0 and 3 — 9 must never have been added.
    let mut g = identity_gateway(11);
    g.fail_at = Some(6);
    let range = HeightRange::new(0, 11).unwrap();
    let p = run_shard(range, 3, 0, &g);
    assert_eq!(p.shard_id, 0);
    assert_eq!(p.error, Some(ScanError::Gateway { height: 6 }));
    assert_eq!(p.count, 0 + 3);
}

#[test]
fn all_shards_accounted() {
    // Even when a shard fails, a parallel run yields one result per shard.
    let mut gs = identity_gateways(20, 5);
    for g in gs.iter_mut() {
        g.fail_at = Some(7);
    }
    let range = HeightRange::new(0, 20).unwrap();
    let results = run_all_shards(range, &gs);
    assert_eq!(results.len(), 5);
    for (i, p) in results.iter().enumerate() {
        assert_eq!(p.shard_id, i as u64);
        if i as u64 == 7 % 5 {
            assert_eq!(p.error, Some(ScanError::Gateway { height: 7 }));
        } else {
            assert_eq!(p.error, None);
        }
    }
}

#[test]
fn gateway_failure_yields_error() {
    let mut g = identity_gateway(9);
    g.fail_at = Some(4);
    assert_eq!(
        count_total_transactions(0, 9, &g),
        Err(ScanError::Gateway { height: 4 })
    );

    let mut gs = identity_gateways(9, 4);
    for g in gs.iter_mut() {
        g.fail_at = Some(4);
    }
    assert_eq!(
        parallel_count_total_transactions(0, 9, &gs),
        Err(ScanError::Gateway { height: 4 })
    );
}

#[test]
fn unknown_heights_fail() {
    // Heights past the mock's table are unanswered and must surface as an
    // error at the first such height, never as a partial total.
    let g = identity_gateway(5);
    assert_eq!(
        count_total_transactions(3, 9, &g),
        Err(ScanError::Gateway { height: 6 })
    );
}

#[test]
fn reduce_sums_counts() {
    let results = vec![
        PartialResult { shard_id: 0, count: 10, error: None },
        PartialResult { shard_id: 1, count: 0, error: None },
        PartialResult { shard_id: 2, count: 32, error: None },
    ];
    assert_eq!(reduce(&results), Ok(42));
    assert_eq!(reduce(&Vec::new()), Ok(0));
}

#[test]
fn reduce_surfaces_first_error() {
    let results = vec![
        PartialResult { shard_id: 0, count: 10, error: None },
        PartialResult { shard_id: 1, count: 3, error: Some(ScanError::Connection) },
        PartialResult {
            shard_id: 2,
            count: 5,
            error: Some(ScanError::Gateway { height: 17 }),
        },
    ];
    assert_eq!(reduce(&results), Err(ScanError::Connection));
}

#[test]
fn range_rejects_reversed_bounds() {
    assert_eq!(HeightRange::new(5, 3), None);
    let r = HeightRange::new(3, 5).unwrap();
    assert_eq!(r.start, 3);
    assert_eq!(r.end, 5);
    assert!(HeightRange::new(7, 7).is_some());
}

#[test]
fn assign_stripes_heights() {
    assert_eq!(assign(17, 5), 2);
    assert_eq!(assign(0, 1), 0);
    assert_eq!(assign(u64::MAX, 2), 1);
    for h in 0..20 {
        assert!(assign(h, 7) < 7);
        assert_eq!(assign(h, 7), h % 7);
    }
}

#[test]
fn single_height_range() {
    let g = MockGateway { counts: vec![7, 7, 7], fail_at: None };
    assert_eq!(count_total_transactions(2, 2, &g), Ok(7));
}

#[test]
fn max_height_fails_cleanly() {
    // The extreme end of the height space: the mock knows nothing there,
    // so the scan must return that height's error.
    let g = MockGateway { counts: Vec::new(), fail_at: None };
    assert_eq!(
        count_total_transactions(u64::MAX, u64::MAX, &g),
        Err(ScanError::Gateway { height: u64::MAX })
    );
}

#[test]
fn more_shards_than_heights() {
    // 3 heights over 5 shards: the empty shards report zero and the total
    // still comes out right.
    let gs = identity_gateways(12, 5);
    assert_eq!(parallel_count_total_transactions(10, 12, &gs), Ok(33));

    let range = HeightRange::new(10, 12).unwrap();
    let results = run_all_shards(range, &gs);
    assert_eq!(results.len(), 5);
    let empty_shards = results
        .iter()
        .filter(|p| p.count == 0 && p.error.is_none())
        .count();
    assert_eq!(empty_shards, 2);
}

#[test]
fn empty_shard_reports_zero() {
    // Range 1..=1 striped over 2 shards leaves shard 0 without heights.
    let g = identity_gateway(1);
    let range = HeightRange::new(1, 1).unwrap();
    let p = run_shard(range, 2, 0, &g);
    assert_eq!(p.shard_id, 0);
    assert_eq!(p.count, 0);
    assert_eq!(p.error, None);
}
