use stellargate::codes::{contains_code, place, Placement};
use stellargate::duration::{since_unix_epoch, unix_seconds, MAX_NANOS};
use stellargate::text::{push_integer, push_natural};
use stellargate::Duration;

#[test]
fn integers_are_written_like_the_standard_library_does() {
    for n in [0, 1, 9, 10, 99, 100, 1_234_567_890, i128::MAX, -1, -10, i128::MIN] {
        let mut out = "x".to_string();
        push_integer(&mut out, n);
        assert_eq!(out, format!("x{}", n));
    }
    let mut out = String::new();
    push_natural(&mut out, u128::MAX);
    assert_eq!(out, u128::MAX.to_string());
}

#[test]
fn spans_of_time() {
    assert_eq!(Duration::from_millis(1_500).as_secs(), 1);
    assert_eq!(Duration::from_millis(1_500).subsec_nanos(), 500_000_000);
    assert_eq!(Duration::from_millis(u64::MAX).as_secs(), u64::MAX / 1_000);
    assert_eq!(Duration::from_secs(3).as_nanos(), 3_000_000_000);
    assert_eq!(
        Duration::from_millis(750).saturating_mul(2),
        Duration::from_millis(1_500)
    );
    assert_eq!(
        Duration::from_secs(u64::MAX).saturating_mul(2).as_nanos(),
        MAX_NANOS
    );
    assert_eq!(
        Duration::from_secs(1).min(Duration::from_millis(999)),
        Duration::from_millis(999)
    );
    assert_eq!(
        Duration::from_millis(999).min(Duration::from_secs(1)),
        Duration::from_millis(999)
    );
}

#[test]
fn the_longest_span_is_that_of_the_standard_library() {
    assert_eq!(MAX_NANOS, std::time::Duration::MAX.as_nanos());
    assert_eq!(
        Duration::from_secs(u64::MAX).saturating_mul(u32::MAX).subsec_nanos(),
        std::time::Duration::MAX.subsec_nanos()
    );
}

#[test]
fn clock_readings_become_timestamps() {
    assert_eq!(unix_seconds(None), 0);
    assert_eq!(unix_seconds(Some(Duration::from_millis(1_999))), 1);
    assert_eq!(unix_seconds(Some(Duration::from_secs(1_700_000_000))), 1_700_000_000);
    assert_eq!(unix_seconds(Some(Duration::from_secs(i64::MAX as u64))), i64::MAX);
    assert_eq!(unix_seconds(Some(Duration::from_secs(u64::MAX))), -1);
}

#[test]
fn the_clock_is_the_system_clock() {
    let epoch = std::time::UNIX_EPOCH;
    let before = epoch.elapsed().unwrap().as_nanos();
    let reading = since_unix_epoch().unwrap().as_nanos();
    let after = epoch.elapsed().unwrap().as_nanos();
    assert!(before <= reading);
    assert!(reading <= after);
}

#[test]
fn codes_are_ordered_by_their_bytes() {
    assert_eq!(place("AAA", "AAB"), Placement::Before);
    assert_eq!(place("AAB", "AAA"), Placement::After);
    assert_eq!(place("USD", "USDC"), Placement::Before);
    assert_eq!(place("USDC", "USD"), Placement::After);
    assert_eq!(place("USDC", "USDC"), Placement::Same);
    assert_eq!(place("", ""), Placement::Same);
    assert_eq!(place("", "A"), Placement::Before);
    assert_eq!(place("Z", "a"), Placement::Before);
    assert_eq!(place("z", "é"), Placement::Before);
}

#[test]
fn codes_are_found_by_their_full_text() {
    let codes = ["USDC".to_string(), "EURC".to_string()];
    assert!(contains_code(&codes, "EURC"));
    assert!(!contains_code(&codes, "EUR"));
    assert!(!contains_code(&codes, "eurc"));
    assert!(!contains_code(&[], "EURC"));
}
