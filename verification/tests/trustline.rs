use stellargate::{Duration, TrustlineMetrics};

#[test]
fn unchecked_asset_is_unknown() {
    let m = TrustlineMetrics::new();
    assert_eq!(m.is_missing("USDC"), None);
    assert_eq!(m.last_success_unix(), 0);
}

#[test]
fn a_successful_check_records_present_and_missing() {
    let mut m = TrustlineMetrics::new();
    m.record_check(&["USDC", "EURC"], &["USDC".to_string()]);
    assert_eq!(m.is_missing("USDC"), Some(true));
    assert_eq!(m.is_missing("EURC"), Some(false));
    assert!(m.last_success_unix() > 0);
}

#[test]
fn a_failed_check_does_not_overwrite_prior_state() {
    let mut m = TrustlineMetrics::new();
    m.record_check(&["USDC"], &["USDC".to_string()]);
    let ts = m.last_success_unix();
    m.record_check_failure();
    assert_eq!(
        m.is_missing("USDC"),
        Some(true),
        "prior confirmed state survives a Horizon failure"
    );
    assert_eq!(
        m.last_success_unix(),
        ts,
        "failure must not bump the success timestamp"
    );
    assert_eq!(m.check_failures(), 1);
}

#[test]
fn a_later_check_drops_assets_no_longer_checked() {
    let mut m = TrustlineMetrics::new();
    m.record_check(&["USDC", "EURC"], &["USDC".to_string()]);
    m.record_check(&["EURC"], &[]);
    assert_eq!(
        m.is_missing("USDC"),
        None,
        "asset removed from ACCEPTED_ASSETS stops being reported"
    );
    assert_eq!(m.is_missing("EURC"), Some(false));
}

#[test]
fn snapshot_is_sorted_by_asset_code() {
    let mut m = TrustlineMetrics::new();
    m.record_check(&["USDC", "EURC", "AAA"], &["USDC".to_string()]);
    let codes: Vec<_> = m.snapshot().into_iter().map(|(c, _)| c).collect();
    assert_eq!(
        codes,
        vec!["AAA".to_string(), "EURC".to_string(), "USDC".to_string()]
    );
}

#[test]
fn default_trustlines_know_nothing() {
    let m = TrustlineMetrics::default();
    assert_eq!(m.snapshot(), vec![]);
    assert_eq!(m.check_failures(), 0);
    assert_eq!(m.last_success_unix(), 0);
}

#[test]
fn the_timestamp_of_a_check_is_the_system_clock() {
    let before = std::time::SystemTime::now()
        .duration_since(std::time::UNIX_EPOCH)
        .unwrap()
        .as_secs() as i64;
    let mut m = TrustlineMetrics::new();
    m.record_check(&[], &[]);
    let after = std::time::SystemTime::now()
        .duration_since(std::time::UNIX_EPOCH)
        .unwrap()
        .as_secs() as i64;
    assert!(before <= m.last_success_unix());
    assert!(m.last_success_unix() <= after);
}

#[test]
fn a_check_at_a_given_time_keeps_that_time() {
    let mut m = TrustlineMetrics::new();
    m.record_check_at(&["USDC"], &[], 1_700_000_000);
    assert_eq!(m.last_success_unix(), 1_700_000_000);
    m.record_check_failure();
    m.record_check_at(&["USDC"], &["USDC".to_string()], -5);
    assert_eq!(m.last_success_unix(), -5);
    assert_eq!(m.check_failures(), 1);
    assert_eq!(m.is_missing("USDC"), Some(true));
}

#[test]
fn a_check_by_the_clock_keeps_the_whole_seconds() {
    let mut m = TrustlineMetrics::new();
    m.record_check_clocked(&["USDC"], &[], Some(Duration::from_millis(1_700_000_000_999)));
    assert_eq!(m.last_success_unix(), 1_700_000_000);
    assert_eq!(m.is_missing("USDC"), Some(false));
    m.record_check_clocked(&["EURC"], &["EURC".to_string()], None);
    assert_eq!(m.last_success_unix(), 0);
    assert_eq!(m.snapshot(), vec![("EURC".to_string(), true)]);
}

#[test]
fn failures_before_any_check_confirm_nothing() {
    let mut m = TrustlineMetrics::new();
    for _ in 0..3 {
        m.record_check_failure();
    }
    assert_eq!(m.snapshot(), vec![]);
    assert_eq!(m.last_success_unix(), 0);
    assert_eq!(m.check_failures(), 3);
}

#[test]
fn the_last_successful_check_stands_through_failures() {
    let mut m = TrustlineMetrics::new();
    m.record_check_failure();
    m.record_check_at(&["AAA"], &["AAA".to_string()], 10);
    m.record_check_at(&["USDC", "EURC"], &["EURC".to_string()], 20);
    m.record_check_failure();
    m.record_check_failure();
    assert_eq!(
        m.snapshot(),
        vec![("EURC".to_string(), true), ("USDC".to_string(), false)]
    );
    assert_eq!(m.last_success_unix(), 20);
    assert_eq!(m.check_failures(), 3);
}

#[test]
fn repeated_and_unchecked_codes_change_nothing() {
    let mut m = TrustlineMetrics::new();
    m.record_check_at(
        &["USDC", "EURC", "USDC", "EURC"],
        &["EURC".to_string(), "XLM".to_string(), "EURC".to_string()],
        1,
    );
    assert_eq!(
        m.snapshot(),
        vec![("EURC".to_string(), true), ("USDC".to_string(), false)]
    );
    assert_eq!(m.is_missing("XLM"), None);
    let mut reordered = TrustlineMetrics::new();
    reordered.record_check_at(&["EURC", "USDC"], &["XLM".to_string(), "EURC".to_string()], 2);
    assert_eq!(m.snapshot(), reordered.snapshot());
}

#[test]
fn an_empty_check_forgets_every_asset() {
    let mut m = TrustlineMetrics::new();
    m.record_check_at(&["USDC", "EURC"], &[], 1);
    m.record_check_at(&[], &["USDC".to_string()], 2);
    assert_eq!(m.snapshot(), vec![]);
    assert_eq!(m.is_missing("USDC"), None);
}

#[test]
fn a_snapshot_sorts_like_the_standard_library() {
    let codes = [
        "usdc", "USDC", "USD", "", "€", "é", "z", "USDCX", "\u{10000}", "\u{ffff}", "ß", "A1",
    ];
    let mut m = TrustlineMetrics::new();
    m.record_check_at(&codes, &["USD".to_string(), "é".to_string()], 1);
    let mut sorted: Vec<(String, bool)> = codes
        .iter()
        .map(|c| (c.to_string(), *c == "USD" || *c == "é"))
        .collect();
    sorted.sort_by(|a, b| a.0.cmp(&b.0));
    assert_eq!(m.snapshot(), sorted);
    for (code, missing) in m.snapshot() {
        assert_eq!(m.is_missing(&code), Some(missing));
    }
}
