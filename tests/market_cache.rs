use whale_guard::market_cache::{
    get_is_live, get_slug, is_neg_risk, CacheLoadResult, CacheStats, MarketCaches,
};

#[test]
fn new_caches_are_empty() {
    let c = MarketCaches::new();
    assert_eq!(c.is_neg_risk("a"), None);
    assert_eq!(c.get_slug("a"), None);
    assert!(!c.is_atp_token("a"));
    assert!(!c.is_ligue1_token("a"));
    assert_eq!(c.get_is_live("a"), None);
    assert_eq!(c.last_refresh, 0);
    assert_eq!(c.stats, CacheStats::default());
}

#[test]
fn set_neg_risk_then_lookup() {
    let mut c = MarketCaches::new();
    c.set_neg_risk("a".to_string(), true);
    c.set_neg_risk("b".to_string(), false);
    assert_eq!(c.is_neg_risk("a"), Some(true));
    assert_eq!(c.is_neg_risk("b"), Some(false));
    c.set_neg_risk("a".to_string(), false);
    assert_eq!(is_neg_risk(&c, "a"), Some(false));
}

#[test]
fn load_flags_from_json() {
    let mut c = MarketCaches::new();
    assert_eq!(c.load_neg_risk(r#"{"a": true, "b": false}"#), Some(2));
    assert_eq!(c.is_neg_risk("a"), Some(true));
    assert_eq!(c.is_neg_risk("b"), Some(false));
    assert_eq!(c.stats.neg_risk_count, 2);
    // A new load replaces the old contents.
    assert_eq!(c.load_neg_risk(r#"{"c": true}"#), Some(1));
    assert_eq!(c.is_neg_risk("a"), None);
    assert_eq!(c.is_neg_risk("c"), Some(true));
    assert_eq!(c.load_live_status(r#"{"a": true}"#), Some(1));
    assert_eq!(get_is_live(&c, "a"), Some(true));
    assert_eq!(c.stats.live_count, 1);
}

#[test]
fn bad_json_changes_nothing() {
    let mut c = MarketCaches::new();
    c.load_neg_risk(r#"{"a": true}"#);
    assert_eq!(c.load_neg_risk("not json"), None);
    assert_eq!(c.load_neg_risk(r#"["a"]"#), None);
    assert_eq!(c.is_neg_risk("a"), Some(true));
    assert_eq!(c.stats.neg_risk_count, 1);
    assert_eq!(c.load_ligue1_tokens(r#"{"a": "b"}"#), None);
    assert_eq!(c.load_slugs(r#"{"a": 1}"#), None);
}

#[test]
fn load_texts_from_json() {
    let mut c = MarketCaches::new();
    assert_eq!(c.load_slugs(r#"{"a": "will-it-rain", "b": "x"}"#), Some(2));
    assert_eq!(get_slug(&c, "a"), Some("will-it-rain".to_string()));
    assert_eq!(c.get_slug("zz"), None);
    assert_eq!(c.load_atp_tokens(r#"{"t1": "ATP"}"#), Some(1));
    assert!(c.is_atp_token("t1"));
    assert!(c.is_tennis_token("t1"));
    assert!(!c.is_atp_token("a"));
    assert_eq!(c.stats.slug_count, 2);
    assert_eq!(c.stats.atp_count, 1);
}

#[test]
fn load_ligue1_counts_array_entries() {
    let mut c = MarketCaches::new();
    assert_eq!(c.load_ligue1_tokens(r#"["x", "y", "x"]"#), Some(3));
    assert!(c.is_ligue1_token("x"));
    assert!(c.is_soccer_token("y"));
    assert!(!c.is_ligue1_token("z"));
    assert_eq!(c.stats.ligue1_count, 3);
}

#[test]
fn load_all_reports_counts() {
    let mut c = MarketCaches::new();
    let r = c.load_all(
        Some(r#"{"a": true}"#),
        None,
        Some("broken"),
        Some(r#"["x", "y"]"#),
        Some(r#"{"a": false, "b": true}"#),
    );
    let expected = CacheLoadResult {
        neg_risk_loaded: 1,
        slugs_loaded: 0,
        atp_loaded: 0,
        ligue1_loaded: 2,
        live_loaded: 2,
        load_time_ms: 0,
    };
    assert_eq!(r, expected);
    assert_eq!(c.get_is_live("b"), Some(true));
}

#[test]
fn refresh_schedule() {
    let mut c = MarketCaches::new();
    assert!(!c.needs_refresh_at(1799));
    assert!(c.needs_refresh_at(1800));
    c.record_refresh(1000, 5);
    assert_eq!(c.last_refresh, 1000);
    assert_eq!(c.stats.refresh_count, 1);
    assert_eq!(c.stats.last_refresh_duration_ms, 5);
    assert!(!c.needs_refresh_at(2799));
    assert!(c.needs_refresh_at(2800));
    assert!(!c.needs_refresh_at(10));
    assert!(c.needs_refresh());
    c.record_refresh(u64::MAX, 0);
    assert!(!c.needs_refresh());
}
