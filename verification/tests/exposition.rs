use stellargate::{
    render, AuthMetrics, HorizonMetrics, TaskHealth, TaskSnapshot, TrustlineMetrics, WebhookMetrics,
};

fn idle_tasks() -> TaskHealth {
    TaskHealth {
        started: 0,
        stopped: 0,
        failed: 0,
        tasks: vec![],
        expected_tasks: 0,
        live_tasks: 0,
        last_success_unix: 0,
    }
}

fn busy_tasks() -> TaskHealth {
    TaskHealth {
        started: 11,
        stopped: 12,
        failed: 13,
        tasks: vec![
            TaskSnapshot {
                name: "poller".to_string(),
                restarts: 4,
                running: true,
                consecutive_failures: 0,
                disabled_reason: None,
            },
            TaskSnapshot {
                name: "sweeper".to_string(),
                restarts: 0,
                running: false,
                consecutive_failures: 7,
                disabled_reason: Some("interval is zero".to_string()),
            },
        ],
        expected_tasks: 5,
        live_tasks: 4,
        last_success_unix: 1_700_000_001,
    }
}

fn fresh_page(tasks: &TaskHealth, trustlines: &TrustlineMetrics) -> String {
    render(
        &WebhookMetrics::new(),
        &AuthMetrics::new(),
        tasks,
        &HorizonMetrics::new(),
        trustlines,
    )
}

#[test]
fn the_whole_page() {
    let mut webhook = WebhookMetrics::new();
    webhook.record_delivered();
    webhook.record_delivered();
    webhook.record_failed();
    for _ in 0..3 {
        webhook.record_retry();
    }
    webhook.record_latency_ms(83);
    webhook.record_latency_ms(99);
    webhook.record_latency_ms(19_901);
    let mut auth = AuthMetrics::new();
    auth.record_success();
    for _ in 0..2 {
        auth.record_failure_missing_key();
    }
    for _ in 0..3 {
        auth.record_failure_invalid_key();
    }
    for _ in 0..4 {
        auth.record_failure_internal_error();
    }
    let mut horizon = HorizonMetrics::new();
    for _ in 0..4 {
        horizon.record_success();
    }
    for _ in 0..3 {
        horizon.record_rate_limited();
    }
    for _ in 0..2 {
        horizon.record_error();
    }
    horizon.record_stream_reconnect();
    let mut trustlines = TrustlineMetrics::new();
    trustlines.record_check_at(&["USDC", "EURC"], &["USDC".to_string()], 1_700_000_000);
    trustlines.record_check_failure();
    let page = render(&webhook, &auth, &busy_tasks(), &horizon, &trustlines);
    let expected = [
        "# HELP stellargate_webhook_deliveries_total Total webhook delivery attempts by outcome.\n",
        "# TYPE stellargate_webhook_deliveries_total counter\n",
        "stellargate_webhook_deliveries_total{outcome=\"delivered\"} 2\n",
        "stellargate_webhook_deliveries_total{outcome=\"failed\"} 1\n",
        "# HELP stellargate_webhook_retries_total Total webhook retry attempts (excludes the first try).\n",
        "# TYPE stellargate_webhook_retries_total counter\n",
        "stellargate_webhook_retries_total 3\n",
        "# HELP stellargate_webhook_delivery_latency_ms End-to-end webhook delivery latency in milliseconds.\n",
        "# TYPE stellargate_webhook_delivery_latency_ms histogram\n",
        "stellargate_webhook_delivery_latency_ms_bucket{le=\"10\"} 0\n",
        "stellargate_webhook_delivery_latency_ms_bucket{le=\"50\"} 0\n",
        "stellargate_webhook_delivery_latency_ms_bucket{le=\"100\"} 2\n",
        "stellargate_webhook_delivery_latency_ms_bucket{le=\"250\"} 2\n",
        "stellargate_webhook_delivery_latency_ms_bucket{le=\"500\"} 2\n",
        "stellargate_webhook_delivery_latency_ms_bucket{le=\"1000\"} 2\n",
        "stellargate_webhook_delivery_latency_ms_bucket{le=\"2500\"} 2\n",
        "stellargate_webhook_delivery_latency_ms_bucket{le=\"5000\"} 2\n",
        "stellargate_webhook_delivery_latency_ms_bucket{le=\"10000\"} 2\n",
        "stellargate_webhook_delivery_latency_ms_bucket{le=\"+Inf\"} 3\n",
        "stellargate_webhook_delivery_latency_ms_sum 20083\n",
        "stellargate_webhook_delivery_latency_ms_count 3\n",
        "# HELP stellargate_auth_attempts_total Total auth middleware decisions by outcome and reason.\n",
        "# TYPE stellargate_auth_attempts_total counter\n",
        "stellargate_auth_attempts_total{outcome=\"success\"} 1\n",
        "stellargate_auth_attempts_total{outcome=\"failure\",reason=\"missing_key\"} 2\n",
        "stellargate_auth_attempts_total{outcome=\"failure\",reason=\"invalid_key\"} 3\n",
        "stellargate_auth_attempts_total{outcome=\"failure\",reason=\"internal_error\"} 4\n",
        "# HELP stellargate_tasks_started_total Total background task starts (including restarts).\n",
        "# TYPE stellargate_tasks_started_total counter\n",
        "stellargate_tasks_started_total 11\n",
        "# HELP stellargate_tasks_stopped_total Total background task clean stops.\n",
        "# TYPE stellargate_tasks_stopped_total counter\n",
        "stellargate_tasks_stopped_total 12\n",
        "# HELP stellargate_tasks_failed_total Total background task panics.\n",
        "# TYPE stellargate_tasks_failed_total counter\n",
        "stellargate_tasks_failed_total 13\n",
        "# HELP stellargate_task_restarts_total Supervisor restarts of a background task after panic or unexpected return.\n",
        "# TYPE stellargate_task_restarts_total counter\n",
        "stellargate_task_restarts_total{task=\"poller\"} 4\n",
        "stellargate_task_restarts_total{task=\"sweeper\"} 0\n",
        "# HELP stellargate_task_running Whether the named background task is currently running (1) or not (0).\n",
        "# TYPE stellargate_task_running gauge\n",
        "stellargate_task_running{task=\"poller\"} 1\n",
        "stellargate_task_running{task=\"sweeper\"} 0\n",
        "# HELP stellargate_task_consecutive_failures Consecutive panics of a background task since it last ran stably.\n",
        "# TYPE stellargate_task_consecutive_failures gauge\n",
        "stellargate_task_consecutive_failures{task=\"poller\"} 0\n",
        "stellargate_task_consecutive_failures{task=\"sweeper\"} 7\n",
        "# HELP stellargate_tasks_expected Background workers this deployment expects to be running, excluding any disabled by configuration.\n",
        "# TYPE stellargate_tasks_expected gauge\n",
        "stellargate_tasks_expected 5\n",
        "# HELP stellargate_tasks_live Expected background workers currently running.\n",
        "# TYPE stellargate_tasks_live gauge\n",
        "stellargate_tasks_live 4\n",
        "# HELP stellargate_task_disabled Whether the named background task exited because configuration gave it nothing to do (1) or not (0).\n",
        "# TYPE stellargate_task_disabled gauge\n",
        "stellargate_task_disabled{task=\"poller\"} 0\n",
        "stellargate_task_disabled{task=\"sweeper\"} 1\n",
        "# HELP stellargate_horizon_poll_cycles_total Total Horizon poll cycles by outcome.\n",
        "# TYPE stellargate_horizon_poll_cycles_total counter\n",
        "stellargate_horizon_poll_cycles_total{outcome=\"success\"} 4\n",
        "stellargate_horizon_poll_cycles_total{outcome=\"rate_limited\"} 3\n",
        "stellargate_horizon_poll_cycles_total{outcome=\"error\"} 2\n",
        "# HELP stellargate_horizon_stream_reconnects_total Total times the Horizon SSE stream listener reconnected.\n",
        "# TYPE stellargate_horizon_stream_reconnects_total counter\n",
        "stellargate_horizon_stream_reconnects_total 1\n",
        "# HELP stellargate_horizon_last_successful_poll_timestamp_seconds Unix timestamp of the last successful Horizon poll or stream event.\n",
        "# TYPE stellargate_horizon_last_successful_poll_timestamp_seconds gauge\n",
        "stellargate_horizon_last_successful_poll_timestamp_seconds 1700000001\n",
        "# HELP stellargate_missing_trustlines Whether the gateway account is currently confirmed to have no trustline for an accepted asset (1) or confirmed to have one (0). An asset is absent from this metric until the first successful trustline check evaluates it.\n",
        "# TYPE stellargate_missing_trustlines gauge\n",
        "stellargate_missing_trustlines{asset=\"EURC\"} 0\n",
        "stellargate_missing_trustlines{asset=\"USDC\"} 1\n",
        "# HELP stellargate_trustline_check_failures_total Total trustline checks that could not reach Horizon or got a non-2xx response. Does not affect stellargate_missing_trustlines, which only reflects confirmed answers.\n",
        "# TYPE stellargate_trustline_check_failures_total counter\n",
        "stellargate_trustline_check_failures_total 1\n",
        "# HELP stellargate_trustline_check_last_success_timestamp_seconds Unix timestamp of the last trustline check that got a confirmed answer from Horizon. 0 means never — treat stellargate_missing_trustlines as unknown, not confirmed, until this is nonzero.\n",
        "# TYPE stellargate_trustline_check_last_success_timestamp_seconds gauge\n",
        "stellargate_trustline_check_last_success_timestamp_seconds 1700000000\n",
    ];
    assert_eq!(page, expected.concat());
}

#[test]
fn a_fresh_page_lists_no_task_and_no_asset() {
    let page = fresh_page(&idle_tasks(), &TrustlineMetrics::new());
    assert_eq!(page.lines().count(), 19 * 2 + 2 + 1 + 12 + 4 + 3 + 2 + 3 + 1 + 1 + 2);
    assert!(!page.contains("{task="));
    assert!(!page.contains("{asset="));
    assert!(page.contains("\nstellargate_trustline_check_last_success_timestamp_seconds 0\n"));
    assert!(page.starts_with("# HELP stellargate_webhook_deliveries_total "));
    assert!(page.ends_with('\n'));
}

#[test]
fn a_failed_check_leaves_the_assets_on_the_page() {
    let mut trustlines = TrustlineMetrics::new();
    trustlines.record_check_at(&["USDC"], &[], 5);
    let before = fresh_page(&idle_tasks(), &trustlines);
    trustlines.record_check_failure();
    let after = fresh_page(&idle_tasks(), &trustlines);
    let changed: Vec<(&str, &str)> = before
        .lines()
        .zip(after.lines())
        .filter(|(b, a)| b != a)
        .collect();
    assert_eq!(
        changed,
        vec![(
            "stellargate_trustline_check_failures_total 0",
            "stellargate_trustline_check_failures_total 1"
        )]
    );
}

#[test]
fn extreme_values_are_written_in_full() {
    let mut tasks = idle_tasks();
    tasks.started = u64::MAX;
    tasks.last_success_unix = i64::MIN;
    let mut trustlines = TrustlineMetrics::new();
    trustlines.record_check_at(&[], &[], -1);
    let page = fresh_page(&tasks, &trustlines);
    assert!(page.contains("\nstellargate_tasks_started_total 18446744073709551615\n"));
    assert!(page.contains(
        "\nstellargate_horizon_last_successful_poll_timestamp_seconds -9223372036854775808\n"
    ));
    assert!(page.contains("\nstellargate_trustline_check_last_success_timestamp_seconds -1\n"));
}
