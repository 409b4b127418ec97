use whale_guard::risk_guard::{
    calc_liquidity_depth, RiskGuard, RiskGuardConfig, SafetyDecision, SafetyEvaluation,
    SafetyReason, TradeSide,
};

fn scenario_config() -> RiskGuardConfig {
    RiskGuardConfig {
        large_trade_shares: 2000,
        consecutive_trigger: 5,
        sequence_window_ms: 40_000,
        min_depth_beyond: 200_000_000,
        trip_duration_ms: 5 * 60 * 60 * 1000,
    }
}

fn eval(decision: SafetyDecision, reason: SafetyReason, consecutive_large: u8) -> SafetyEvaluation {
    SafetyEvaluation { decision, reason, consecutive_large }
}

#[test]
fn default_config_values() {
    let c = RiskGuardConfig::default();
    assert_eq!(c, scenario_config());
}

#[test]
fn five_large_trades_then_trap() {
    let mut g = RiskGuard::new(scenario_config());
    for i in 0..4u64 {
        let r = g.check_fast_at("tok", 2500, i * 5000);
        let n = (i + 1) as u8;
        assert_eq!(r, eval(SafetyDecision::Allow, SafetyReason::SeqOk { count: n }, n));
    }
    let r = g.check_fast_at("tok", 2500, 20_000);
    assert_eq!(r, eval(SafetyDecision::FetchBook, SafetyReason::SeqNeedBook { count: 5 }, 5));
    let r = g.check_with_book_at("tok", 5, 150_000_000, 21_000);
    assert_eq!(r, eval(SafetyDecision::Block, SafetyReason::Trap { seq: 5, depth_usd: 150 }, 5));
    let r = g.check_fast_at("tok", 2500, 22_000);
    assert_eq!(r, eval(SafetyDecision::Block, SafetyReason::Tripped { secs_left: 17_999 }, 0));
    let r = g.check_fast_at("tok", 10, 21_000 + 5 * 60 * 60 * 1000 - 1);
    assert_eq!(r, eval(SafetyDecision::Block, SafetyReason::Tripped { secs_left: 1 }, 0));
}

#[test]
fn five_large_trades_then_trap_on_the_clock() {
    let mut g = RiskGuard::new(scenario_config());
    for n in 1..5u8 {
        let r = g.check_fast("tok", 2500);
        assert_eq!(r, eval(SafetyDecision::Allow, SafetyReason::SeqOk { count: n }, n));
    }
    let r = g.check_fast("tok", 2500);
    assert_eq!(r, eval(SafetyDecision::FetchBook, SafetyReason::SeqNeedBook { count: 5 }, 5));
    let r = g.check_with_book("tok", 5, 150_000_000);
    assert_eq!(r, eval(SafetyDecision::Block, SafetyReason::Trap { seq: 5, depth_usd: 150 }, 5));
    let r = g.check_fast("tok", 2500);
    assert_eq!(r.decision, SafetyDecision::Block);
    match r.reason {
        SafetyReason::Tripped { secs_left } => assert!(secs_left > 0),
        _ => panic!("expected a tripped block"),
    }
}

#[test]
fn deep_book_allows_without_cooldown() {
    let mut g = RiskGuard::new(scenario_config());
    for i in 0..5u64 {
        g.check_fast_at("tok", 2500, i * 5000);
    }
    let r = g.check_with_book_at("tok", 5, 500_000_000, 21_000);
    assert_eq!(r, eval(SafetyDecision::Allow, SafetyReason::DepthOk { seq: 5, depth_usd: 500 }, 5));
    let r = g.check_fast_at("tok", 100, 22_000);
    assert_eq!(r, eval(SafetyDecision::Allow, SafetyReason::SmallTrade, 0));
    // The history is kept: one more large trade asks for the book again.
    let r = g.check_fast_at("tok", 2500, 23_000);
    assert_eq!(r, eval(SafetyDecision::FetchBook, SafetyReason::SeqNeedBook { count: 6 }, 6));
}

#[test]
fn deep_book_on_the_clock() {
    let mut g = RiskGuard::new(scenario_config());
    let r = g.check_with_book("tok", 5, 500_000_000);
    assert_eq!(r, eval(SafetyDecision::Allow, SafetyReason::DepthOk { seq: 5, depth_usd: 500 }, 5));
    let r = g.check_fast("tok", 100);
    assert_eq!(r, eval(SafetyDecision::Allow, SafetyReason::SmallTrade, 0));
}

#[test]
fn small_trades_are_not_counted() {
    let mut g = RiskGuard::new(scenario_config());
    let r = g.check_fast_at("tok", 2000, 0);
    assert_eq!(r, eval(SafetyDecision::Allow, SafetyReason::SeqOk { count: 1 }, 1));
    let r = g.check_fast_at("tok", 1999, 1000);
    assert_eq!(r, eval(SafetyDecision::Allow, SafetyReason::SmallTrade, 0));
    let r = g.check_fast_at("tok", 1999, 2000);
    assert_eq!(r, eval(SafetyDecision::Allow, SafetyReason::SmallTrade, 0));
    let r = g.check_fast_at("tok", 3000, 3000);
    assert_eq!(r, eval(SafetyDecision::Allow, SafetyReason::SeqOk { count: 2 }, 2));
}

#[test]
fn instruments_are_independent() {
    let mut g = RiskGuard::new(scenario_config());
    g.check_fast_at("a", 2500, 0);
    g.check_fast_at("a", 2500, 1);
    let r = g.check_fast_at("b", 2500, 2);
    assert_eq!(r, eval(SafetyDecision::Allow, SafetyReason::SeqOk { count: 1 }, 1));
}

#[test]
fn window_expiry() {
    let mut g = RiskGuard::new(scenario_config());
    g.check_fast_at("tok", 2500, 0);
    let r = g.check_fast_at("tok", 2500, 40_000);
    assert_eq!(r, eval(SafetyDecision::Allow, SafetyReason::SeqOk { count: 1 }, 1));
    let r = g.check_fast_at("tok", 2500, 79_999);
    assert_eq!(r, eval(SafetyDecision::Allow, SafetyReason::SeqOk { count: 2 }, 2));
}

#[test]
fn long_runs_are_pruned_and_counted_in_window() {
    let mut cfg = scenario_config();
    cfg.consecutive_trigger = 255;
    let mut g = RiskGuard::new(cfg);
    for i in 0..30u64 {
        let r = g.check_fast_at("tok", 2500, i * 10_000);
        let n = if i < 4 { (i + 1) as u8 } else { 4 };
        assert_eq!(r, eval(SafetyDecision::Allow, SafetyReason::SeqOk { count: n }, n));
    }
}

#[test]
fn count_is_clamped_but_compared_unclamped() {
    let mut cfg = scenario_config();
    cfg.consecutive_trigger = 255;
    cfg.sequence_window_ms = u64::MAX;
    let mut g = RiskGuard::new(cfg);
    for i in 0..254u64 {
        let r = g.check_fast_at("tok", 2500, i);
        assert_eq!(r.decision, SafetyDecision::Allow);
    }
    let r = g.check_fast_at("tok", 2500, 254);
    assert_eq!(r, eval(SafetyDecision::FetchBook, SafetyReason::SeqNeedBook { count: 255 }, 255));
    let r = g.check_fast_at("tok", 2500, 255);
    assert_eq!(r, eval(SafetyDecision::FetchBook, SafetyReason::SeqNeedBook { count: 255 }, 255));
}

#[test]
fn cooldown_ends_and_next_call_evaluates_normally() {
    let mut cfg = scenario_config();
    cfg.trip_duration_ms = 1500;
    let mut g = RiskGuard::new(cfg);
    let r = g.check_with_book_at("tok", 3, 10_999_999, 0);
    assert_eq!(r, eval(SafetyDecision::Block, SafetyReason::Trap { seq: 3, depth_usd: 10 }, 3));
    let r = g.check_fast_at("tok", 10, 1);
    assert_eq!(r, eval(SafetyDecision::Block, SafetyReason::Tripped { secs_left: 2 }, 0));
    let r = g.check_fast_at("tok", 10, 1499);
    assert_eq!(r, eval(SafetyDecision::Block, SafetyReason::Tripped { secs_left: 1 }, 0));
    let r = g.check_fast_at("tok", 10, 1500);
    assert_eq!(r, eval(SafetyDecision::Allow, SafetyReason::SmallTrade, 0));
    let r = g.check_fast_at("tok", 2500, 1501);
    assert_eq!(r, eval(SafetyDecision::Allow, SafetyReason::SeqOk { count: 1 }, 1));
}

#[test]
fn trip_needs_a_known_instrument() {
    let mut g = RiskGuard::new(scenario_config());
    g.trip_at("new", 0);
    let r = g.check_fast_at("new", 10, 1);
    assert_eq!(r, eval(SafetyDecision::Allow, SafetyReason::SmallTrade, 0));
    g.trip_at("new", 2);
    let r = g.check_fast_at("new", 10, 3);
    assert_eq!(r.decision, SafetyDecision::Block);
    assert_eq!(r.reason, SafetyReason::Tripped { secs_left: 18_000 });
}

#[test]
fn trip_on_the_clock() {
    let mut g = RiskGuard::new(scenario_config());
    g.trip("tok");
    assert_eq!(g.check_fast("tok", 10).decision, SafetyDecision::Allow);
    g.trip("tok");
    assert_eq!(g.check_fast("tok", 10).decision, SafetyDecision::Block);
}

#[test]
fn depth_is_clamped_in_the_report_only() {
    let mut cfg = scenario_config();
    cfg.min_depth_beyond = 100_000_000_000;
    let mut g = RiskGuard::new(cfg);
    let r = g.check_with_book_at("tok", 5, 99_999_999_999, 0);
    assert_eq!(r, eval(SafetyDecision::Block, SafetyReason::Trap { seq: 5, depth_usd: 65535 }, 5));
    let r = g.check_with_book_at("other", 5, 100_000_000_000, 0);
    assert_eq!(r, eval(SafetyDecision::Allow, SafetyReason::DepthOk { seq: 5, depth_usd: 65535 }, 5));
}

#[test]
fn depth_of_empty_book_is_zero() {
    assert_eq!(calc_liquidity_depth(TradeSide::Buy, &[], 50), 0);
    assert_eq!(calc_liquidity_depth(TradeSide::Sell, &[], 50), 0);
}

#[test]
fn depth_is_deterministic() {
    let levels = [(60u32, 100u32), (50, 10), (70, 5)];
    let a = calc_liquidity_depth(TradeSide::Buy, &levels, 55);
    let b = calc_liquidity_depth(TradeSide::Buy, &levels, 55);
    assert_eq!(a, b);
}

#[test]
fn depth_sums_levels_beyond_buffered_threshold() {
    let levels = [(60u32, 100u32), (50, 10), (70, 5)];
    assert_eq!(calc_liquidity_depth(TradeSide::Buy, &levels, 55), 6000 + 350);
    assert_eq!(calc_liquidity_depth(TradeSide::Sell, &levels, 55), 500);
    assert_eq!(calc_liquidity_depth(TradeSide::Sell, &levels, 80), 6000 + 500 + 350);
}

#[test]
fn level_at_threshold_is_excluded() {
    assert_eq!(calc_liquidity_depth(TradeSide::Buy, &[(200, 7)], 200), 0);
    assert_eq!(calc_liquidity_depth(TradeSide::Sell, &[(200, 7)], 200), 0);
    // Within the half-percent buffer: still excluded.
    assert_eq!(calc_liquidity_depth(TradeSide::Buy, &[(201, 7)], 200), 0);
    assert_eq!(calc_liquidity_depth(TradeSide::Sell, &[(199, 7)], 200), 0);
    // Past it.
    assert_eq!(calc_liquidity_depth(TradeSide::Buy, &[(202, 7)], 200), 1414);
    assert_eq!(calc_liquidity_depth(TradeSide::Sell, &[(198, 7)], 200), 1386);
}

#[test]
fn depth_below_a_dollar_reports_zero_dollars() {
    let mut g = RiskGuard::new(RiskGuardConfig::default());
    // 0.55 USD per share, 300 shares: USD 165 of depth.
    let depth = calc_liquidity_depth(TradeSide::Buy, &[(550_000, 300)], 500_000);
    assert_eq!(depth, 165_000_000);
    let r = g.check_with_book_at("tok", 5, depth, 0);
    assert_eq!(r, eval(SafetyDecision::Block, SafetyReason::Trap { seq: 5, depth_usd: 165 }, 5));
    let r = g.check_with_book_at("x", 5, 999_999, 0);
    assert_eq!(r.reason, SafetyReason::Trap { seq: 5, depth_usd: 0 });
}

#[test]
fn zero_window_keeps_the_trade_just_made() {
    let mut cfg = scenario_config();
    cfg.sequence_window_ms = 0;
    let mut g = RiskGuard::new(cfg);
    for i in 0..20u64 {
        let r = g.check_fast_at("tok", 2500, i);
        assert_eq!(r, eval(SafetyDecision::Allow, SafetyReason::SeqOk { count: 1 }, 1));
    }
    // Entries at the start of a zero-length window are kept but not counted.
    let r = g.check_fast_at("tok", 2500, 19);
    assert_eq!(r, eval(SafetyDecision::Allow, SafetyReason::SeqOk { count: 1 }, 1));
}

#[test]
fn depth_of_largest_levels() {
    let levels = [(u32::MAX, u32::MAX), (u32::MAX, u32::MAX)];
    let one = u32::MAX as u128 * u32::MAX as u128;
    assert_eq!(calc_liquidity_depth(TradeSide::Buy, &levels, 0), 2 * one);
}

#[test]
fn reason_labels() {
    assert_eq!(SafetyReason::Tripped { secs_left: 3 }.as_str(), "TRIPPED");
    assert_eq!(SafetyReason::SmallTrade.as_str(), "SMALL_TRADE");
    assert_eq!(SafetyReason::SeqOk { count: 1 }.as_str(), "SEQ_OK");
    assert_eq!(SafetyReason::SeqNeedBook { count: 5 }.as_str(), "SEQ_NEED_BOOK");
    assert_eq!(SafetyReason::Trap { seq: 5, depth_usd: 1 }.as_str(), "TRAP");
    assert_eq!(SafetyReason::DepthOk { seq: 5, depth_usd: 1 }.as_str(), "DEPTH_OK");
    assert_eq!(SafetyReason::BookFetchFailed.as_str(), "BOOK_FETCH_FAILED");
}

#[test]
fn inserted_small_trade_changes_no_later_outcome() {
    let mut plain = RiskGuard::new(scenario_config());
    let mut with_small = RiskGuard::new(scenario_config());
    plain.check_fast_at("tok", 2500, 0);
    with_small.check_fast_at("tok", 2500, 0);
    let r = with_small.check_fast_at("tok", 1999, 1000);
    assert_eq!(r, eval(SafetyDecision::Allow, SafetyReason::SmallTrade, 0));
    for (shares, t) in [(3000u64, 2000u64), (10, 3000), (2000, 4000), (2500, 5000), (2500, 6000)] {
        assert_eq!(plain.check_fast_at("tok", shares, t), with_small.check_fast_at("tok", shares, t));
    }
}
