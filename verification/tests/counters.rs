use stellargate::counter::advance;
use stellargate::webhook::{INF_BUCKET, LATENCY_BUCKETS_MS};
use stellargate::{AuthMetrics, HorizonMetrics, WebhookMetrics};

fn buckets(m: &WebhookMetrics) -> Vec<u64> {
    (0..=INF_BUCKET).map(|i| m.latency_bucket(i)).collect()
}

#[test]
fn new_webhook_metrics_are_zero() {
    let m = WebhookMetrics::new();
    assert_eq!(m.delivered(), 0);
    assert_eq!(m.failed(), 0);
    assert_eq!(m.retried(), 0);
    assert_eq!(m.latency_sum_ms(), 0);
    assert_eq!(m.latency_count(), 0);
    assert_eq!(buckets(&m), vec![0; 10]);
    assert_eq!(buckets(&WebhookMetrics::default()), vec![0; 10]);
}

#[test]
fn webhook_outcomes_count_separately() {
    let mut m = WebhookMetrics::new();
    m.record_delivered();
    m.record_delivered();
    m.record_delivered();
    m.record_failed();
    m.record_retry();
    m.record_retry();
    assert_eq!(m.delivered(), 3);
    assert_eq!(m.failed(), 1);
    assert_eq!(m.retried(), 2);
    assert_eq!(m.latency_count(), 0);
}

#[test]
fn a_latency_of_75_ms_counts_from_the_100_ms_bucket_up() {
    let mut m = WebhookMetrics::new();
    m.record_latency_ms(75);
    assert_eq!(buckets(&m), vec![0, 0, 1, 1, 1, 1, 1, 1, 1, 1]);
    assert_eq!(m.latency_sum_ms(), 75);
    assert_eq!(m.latency_count(), 1);
    assert_eq!(m.delivered(), 0);
}

#[test]
fn a_bound_belongs_to_its_own_bucket() {
    for (i, &bound) in LATENCY_BUCKETS_MS.iter().enumerate() {
        let mut m = WebhookMetrics::new();
        m.record_latency_ms(bound);
        m.record_latency_ms(bound + 1);
        for j in 0..INF_BUCKET {
            let expected = if j < i {
                0
            } else if j == i {
                1
            } else {
                2
            };
            assert_eq!(m.latency_bucket(j), expected);
        }
        assert_eq!(m.latency_bucket(INF_BUCKET), 2);
    }
}

#[test]
fn the_histogram_is_cumulative() {
    let mut m = WebhookMetrics::new();
    for ms in [0, 10, 11, 99, 250, 600, 2_400, 4_000, 9_999, 10_000, 10_001, 60_000] {
        m.record_latency_ms(ms);
    }
    assert_eq!(buckets(&m), vec![2, 3, 4, 5, 5, 6, 7, 8, 10, 12]);
    assert_eq!(m.latency_count(), 12);
    assert_eq!(m.latency_sum_ms(), 97_370);
}

#[test]
fn the_latency_sum_wraps_around() {
    let mut m = WebhookMetrics::new();
    m.record_latency_ms(u64::MAX);
    m.record_latency_ms(3);
    assert_eq!(m.latency_sum_ms(), 2);
    assert_eq!(m.latency_count(), 2);
    assert_eq!(buckets(&m), vec![1, 1, 1, 1, 1, 1, 1, 1, 1, 2]);
}

#[test]
fn webhook_events_commute() {
    let mut a = WebhookMetrics::new();
    a.record_latency_ms(75);
    a.record_delivered();
    a.record_latency_ms(700);
    let mut b = WebhookMetrics::new();
    b.record_latency_ms(700);
    b.record_latency_ms(75);
    b.record_delivered();
    assert_eq!(buckets(&a), buckets(&b));
    assert_eq!(a.latency_sum_ms(), b.latency_sum_ms());
    assert_eq!(a.delivered(), b.delivered());
}

#[test]
fn auth_outcomes_count_separately() {
    let mut m = AuthMetrics::new();
    m.record_success();
    m.record_failure_missing_key();
    m.record_failure_missing_key();
    m.record_failure_invalid_key();
    m.record_failure_invalid_key();
    m.record_failure_invalid_key();
    for _ in 0..4 {
        m.record_failure_internal_error();
    }
    assert_eq!(m.success(), 1);
    assert_eq!(m.failure_missing_key(), 2);
    assert_eq!(m.failure_invalid_key(), 3);
    assert_eq!(m.failure_internal_error(), 4);
    let fresh = AuthMetrics::default();
    assert_eq!(fresh.success(), 0);
    assert_eq!(fresh.failure_missing_key(), 0);
    assert_eq!(fresh.failure_invalid_key(), 0);
    assert_eq!(fresh.failure_internal_error(), 0);
}

#[test]
fn horizon_outcomes_count_separately() {
    let mut m = HorizonMetrics::new();
    m.record_success();
    m.record_rate_limited();
    m.record_rate_limited();
    for _ in 0..3 {
        m.record_error();
    }
    for _ in 0..4 {
        m.record_stream_reconnect();
    }
    assert_eq!(m.success(), 1);
    assert_eq!(m.rate_limited(), 2);
    assert_eq!(m.error(), 3);
    assert_eq!(m.stream_reconnects(), 4);
    let fresh = HorizonMetrics::default();
    assert_eq!(fresh.success(), 0);
    assert_eq!(fresh.rate_limited(), 0);
    assert_eq!(fresh.error(), 0);
    assert_eq!(fresh.stream_reconnects(), 0);
}

#[test]
fn counters_wrap_around_at_the_top() {
    assert_eq!(advance(u64::MAX, 1), 0);
    assert_eq!(advance(u64::MAX - 1, 1), u64::MAX);
    assert_eq!(advance(0, 0), 0);
    assert_eq!(advance(advance(u64::MAX, 5), 7), 11);
}
