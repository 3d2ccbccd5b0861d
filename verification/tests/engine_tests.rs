use fee_insights::{
    AppError, CongestionState, EngineStatus, FeeDataPoint, FeeDataProvider, FeeInsightsEngine,
    InsightsConfig, MockHorizonClient, ProviderError, UtcTime,
};

fn some_time() -> UtcTime {
    UtcTime { year: 2024, month: 6, day: 15, hour: 12, minute: 0, second: 0 }
}

fn point(fee_amount: u64, ledger_sequence: u64) -> FeeDataPoint {
    FeeDataPoint {
        fee_amount,
        timestamp: some_time(),
        transaction_hash: format!("hash_{}", fee_amount),
        ledger_sequence,
    }
}

fn config(window_size: usize) -> InsightsConfig {
    InsightsConfig {
        window_size,
        base_fee: 100,
        congestion_high_threshold: 1000,
        congestion_low_threshold: 500,
        failure_threshold: 3,
        snapshot_on_change_only: false,
        polling_interval_seconds: 10,
    }
}

#[test]
fn rejects_zero_window_size() {
    let mut cfg = config(3);
    cfg.window_size = 0;
    assert!(matches!(FeeInsightsEngine::new(cfg), Err(AppError::Config(_))));
}

#[test]
fn rejects_inverted_hysteresis_band() {
    let mut cfg = config(3);
    cfg.congestion_low_threshold = 2000;
    assert!(matches!(FeeInsightsEngine::new(cfg), Err(AppError::Config(_))));
}

#[test]
fn empty_window_aggregates_are_sentinel_zero() {
    let engine = FeeInsightsEngine::new(config(3)).unwrap();
    assert_eq!(engine.average_fee(), 0);
    assert_eq!(engine.min_fee(), 0);
    assert_eq!(engine.max_fee(), 0);
    assert!(engine.current_snapshot().is_none());
}

#[test]
fn scenario_ingest_then_evict_recomputes_extremes() {
    // Window of 3: fees [100, 200, 150], then 500 evicts the 100.
    let mut engine = FeeInsightsEngine::new(config(3)).unwrap();
    engine.apply_fetch_success(
        vec![point(100, 1), point(200, 2), point(150, 3)],
        some_time(),
    );
    let snap = engine.current_snapshot().unwrap();
    assert_eq!(snap.avg_fee, 150);
    assert_eq!(snap.min_fee, 100);
    assert_eq!(snap.max_fee, 200);

    engine.apply_fetch_success(vec![point(500, 4)], some_time());
    let snap = engine.current_snapshot().unwrap();
    assert_eq!(snap.min_fee, 150);
    assert_eq!(snap.max_fee, 500);
    // (200 + 150 + 500) / 3, integer-truncated.
    assert_eq!(snap.avg_fee, 283);
    assert_eq!(engine.window_len(), 3);
}

#[test]
fn tracker_matches_recomputation_over_mixed_sequences() {
    // Sliding a window of 4 over a noisy series: the engine's extremes
    // must always equal a from-scratch recomputation of the window.
    let fees: Vec<u64> = vec![90, 10, 500, 500, 10, 10, 77, 300, 1, 42, 42, 9000, 3];
    let mut engine = FeeInsightsEngine::new(config(4)).unwrap();
    let mut naive: Vec<u64> = Vec::new();
    for (i, &fee) in fees.iter().enumerate() {
        engine.apply_fetch_success(vec![point(fee, i as u64)], some_time());
        naive.push(fee);
        if naive.len() > 4 {
            naive.remove(0);
        }
        assert_eq!(engine.min_fee(), *naive.iter().min().unwrap());
        assert_eq!(engine.max_fee(), *naive.iter().max().unwrap());
        let expected_avg = naive.iter().sum::<u64>() / naive.len() as u64;
        assert_eq!(engine.average_fee(), expected_avg);
    }
}

#[test]
fn fetch_failure_leaves_state_untouched() {
    let mut engine = FeeInsightsEngine::new(config(3)).unwrap();
    engine.apply_fetch_success(vec![point(100, 1), point(200, 2)], some_time());
    let before = engine.current_snapshot().unwrap();

    let mut mock =
        MockHorizonClient::new().with_error(ProviderError::ServiceUnavailable);
    let outcome = mock.fetch_latest_fees();
    engine.on_fetch_result(outcome, some_time());

    assert_eq!(engine.current_snapshot().unwrap(), before);
    assert_eq!(engine.min_fee(), 100);
    assert_eq!(engine.max_fee(), 200);
    assert_eq!(engine.average_fee(), 150);
    assert_eq!(engine.consecutive_failures(), 1);
}

#[test]
fn degraded_after_consecutive_failure_threshold() {
    // One good cycle, then a provider that rate-limits every call: the
    // status turns Degraded at the configured third failure while the
    // last good snapshot stays retrievable.
    let mut engine = FeeInsightsEngine::new(config(3)).unwrap();
    engine.apply_fetch_success(vec![point(250, 1)], some_time());
    let good = engine.current_snapshot().unwrap();

    let mut mock = MockHorizonClient::new().with_error(ProviderError::RateLimitExceeded);
    for expected_failures in 1..=2u32 {
        engine.on_fetch_result(mock.fetch_latest_fees(), some_time());
        assert_eq!(engine.consecutive_failures(), expected_failures);
        assert_eq!(engine.status(), EngineStatus::Healthy);
    }
    engine.on_fetch_result(mock.fetch_latest_fees(), some_time());
    assert_eq!(engine.consecutive_failures(), 3);
    assert_eq!(engine.status(), EngineStatus::Degraded);
    assert_eq!(engine.current_snapshot().unwrap(), good);

    // The engine never gives up: the next good cycle heals it.
    engine.apply_fetch_success(vec![point(300, 2)], some_time());
    assert_eq!(engine.consecutive_failures(), 0);
    assert_eq!(engine.status(), EngineStatus::Healthy);
}

#[test]
fn detector_hysteresis_commits_until_low_threshold() {
    // high = 1000, low = 500. Averages oscillate between the bands:
    // once Congested, re-crossing the high threshold must not matter.
    let mut engine = FeeInsightsEngine::new(config(1)).unwrap();
    assert_eq!(engine.congestion_state(), CongestionState::Normal);

    engine.apply_fetch_success(vec![point(1500, 1)], some_time());
    assert_eq!(engine.congestion_state(), CongestionState::Congested);

    // Average falls between low and high: still committed.
    engine.apply_fetch_success(vec![point(700, 2)], some_time());
    assert_eq!(engine.congestion_state(), CongestionState::Congested);

    // Back above high, then between the bands again: still committed.
    engine.apply_fetch_success(vec![point(2000, 3)], some_time());
    engine.apply_fetch_success(vec![point(600, 4)], some_time());
    assert_eq!(engine.congestion_state(), CongestionState::Congested);

    // Only strictly below low does it release.
    engine.apply_fetch_success(vec![point(499, 5)], some_time());
    assert_eq!(engine.congestion_state(), CongestionState::Normal);

    // And exactly the high threshold does not re-enter.
    engine.apply_fetch_success(vec![point(1000, 6)], some_time());
    assert_eq!(engine.congestion_state(), CongestionState::Normal);
}

#[test]
fn empty_fetch_re_snapshots_when_configured_always() {
    let mut engine = FeeInsightsEngine::new(config(3)).unwrap();
    engine.apply_fetch_success(vec![point(100, 1)], some_time());
    let later = UtcTime { year: 2024, month: 6, day: 15, hour: 12, minute: 0, second: 30 };
    engine.apply_fetch_success(vec![], later);
    let snap = engine.current_snapshot().unwrap();
    assert_eq!(snap.captured_at, later);
    assert_eq!(snap.avg_fee, 100);
}

#[test]
fn empty_fetch_keeps_snapshot_when_configured_on_change() {
    let mut cfg = config(3);
    cfg.snapshot_on_change_only = true;
    let mut engine = FeeInsightsEngine::new(cfg).unwrap();
    engine.apply_fetch_success(vec![point(100, 1)], some_time());
    let before = engine.current_snapshot().unwrap();
    let later = UtcTime { year: 2024, month: 6, day: 15, hour: 12, minute: 0, second: 30 };
    engine.apply_fetch_success(vec![], later);
    assert_eq!(engine.current_snapshot().unwrap(), before);
}

#[test]
fn snapshot_carries_configured_base_fee() {
    let mut engine = FeeInsightsEngine::new(config(3)).unwrap();
    engine.apply_fetch_success(vec![point(700, 1)], some_time());
    let snap = engine.current_snapshot().unwrap();
    assert_eq!(snap.base_fee, 100);
    assert_eq!(snap.captured_at, some_time());
}
