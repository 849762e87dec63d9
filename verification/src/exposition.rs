//! The metrics page.

use vstd::prelude::*;

use crate::auth::{AuthCounts, AuthMetrics};
use crate::counter::tally;
use crate::horizon::{HorizonCounts, HorizonMetrics};
use crate::page::{Family, Page, Sample, has_line, page_text};
use crate::page::{law_every_sample_is_a_line, law_page_ends_with_a_line_break};
use crate::tasks::{TaskHealth, TaskSnapshot};
use crate::text::{integer_text, push_integer};
use crate::trustline::{self, TrustlineEvent, TrustlineMetrics, TrustlineState};
use crate::trustline::{entry_views, lookup, sorted_entries};
use crate::trustline::{law_every_history_has_a_listing, law_last_check_is_what_is_shown};
use crate::trustline::law_listing_agrees_with_lookup;
use crate::webhook::{INF_BUCKET, LATENCY_BUCKETS_MS};
use crate::webhook::{WebhookCounts, WebhookEvent, WebhookMetrics, is_latency, replayed};
use crate::webhook::{law_bucket_bounds, law_histogram_is_cumulative};
use crate::webhook::law_inf_bucket_is_the_count;

verus! {

/// 1 for yes and 0 for no.
pub open spec fn flag(yes: bool) -> int {
    if yes {
        1
    } else {
        0
    }
}

/// The label that names a background task.
pub open spec fn task_label(name: Seq<char>) -> Seq<char> {
    "{task=\""@ + name + "\"}"@
}

/// The label that names an asset.
pub open spec fn asset_label(code: Seq<char>) -> Seq<char> {
    "{asset=\""@ + code + "\"}"@
}

/// The label that names the upper bound of a histogram bucket.
pub open spec fn bound_label(bound: u64) -> Seq<char> {
    "_bucket{le=\""@ + integer_text(bound as int) + "\"}"@
}

/// A family with a single sample that has no label.
pub open spec fn single(
    name: Seq<char>,
    help: Seq<char>,
    kind: Seq<char>,
    value: int,
) -> Family {
    Family { name, help, kind, samples: seq![Sample { suffix: ""@, value }] }
}

fn push_single(page: &mut Page, name: &str, help: &str, kind: &str, value: i128)
    requires
        old(page).wf(),
    ensures
        final(page).wf(),
        final(page)@ == old(page)@.push(single(name@, help@, kind@, value as int)),
{
    page.family(name, help, kind);
    page.sample(name, "", value);
    assert(page@.last().samples =~= single(name@, help@, kind@, value as int).samples);
    assert(page@ =~= old(page)@.push(single(name@, help@, kind@, value as int)));
}

/// What is reported of each background task.
#[derive(Clone, Copy)]
pub enum Measure {
    Restarts,
    Running,
    ConsecutiveFailures,
    Disabled,
}

/// The value of `measure` for `task`.
pub open spec fn measured(task: TaskSnapshot, measure: Measure) -> int {
    match measure {
        Measure::Restarts => task.restarts as int,
        Measure::Running => flag(task.running),
        Measure::ConsecutiveFailures => task.consecutive_failures as int,
        Measure::Disabled => flag(task.disabled_reason is Some),
    }
}

/// One sample of `measure` for each of `tasks`, in their order.
pub open spec fn task_samples(tasks: Seq<TaskSnapshot>, measure: Measure) -> Seq<Sample> {
    Seq::new(
        tasks.len(),
        |i: int|
            Sample { suffix: task_label(tasks[i].name@), value: measured(tasks[i], measure) },
    )
}

fn measure_task(task: &TaskSnapshot, measure: Measure) -> (value: i128)
    ensures
        value == measured(*task, measure),
{
    match measure {
        Measure::Restarts => task.restarts as i128,
        Measure::Running => if task.running {
            1
        } else {
            0
        },
        Measure::ConsecutiveFailures => task.consecutive_failures as i128,
        Measure::Disabled => if task.disabled_reason.is_some() {
            1
        } else {
            0
        },
    }
}

fn push_task_family(
    page: &mut Page,
    name: &str,
    help: &str,
    kind: &str,
    tasks: &TaskHealth,
    measure: Measure,
)
    requires
        old(page).wf(),
    ensures
        final(page).wf(),
        final(page)@ == old(page)@.push(
            Family {
                name: name@,
                help: help@,
                kind: kind@,
                samples: task_samples(tasks.tasks@, measure),
            },
        ),
{
    page.family(name, help, kind);
    let ghost blank = page@.last();
    let ghost all = tasks.tasks@;
    let mut i: usize = 0;
    assert(blank.samples =~= task_samples(all.take(0), measure));
    while i < tasks.tasks.len()
        invariant
            i <= tasks.tasks@.len(),
            page.wf(),
            blank.name == name@,
            all == tasks.tasks@,
            page@ == old(page)@.push(
                Family { samples: task_samples(all.take(i as int), measure), ..blank },
            ),
        decreases tasks.tasks@.len() - i,
    {
        let task: &TaskSnapshot = &tasks.tasks[i];
        let mut suffix: String = String::new();
        suffix.append("{task=\"");
        suffix.append(task.name.as_str());
        suffix.append("\"}");
        assert(suffix@ =~= task_label(task.name@));
        page.sample(name, suffix.as_str(), measure_task(task, measure));
        assert(page@.last().samples =~= task_samples(all.take(i + 1), measure));
        assert(page@ =~= old(page)@.push(
            Family { samples: task_samples(all.take(i + 1), measure), ..blank },
        ));
        i += 1;
    }
    assert(all.take(i as int) =~= all);
}

/// Webhook deliveries by outcome.
pub open spec fn deliveries_family(webhook: WebhookCounts) -> Family {
    Family {
        name: "stellargate_webhook_deliveries_total"@,
        help: "Total webhook delivery attempts by outcome."@,
        kind: "counter"@,
        samples: seq![
            Sample { suffix: "{outcome=\"delivered\"}"@, value: webhook.delivered as int },
            Sample { suffix: "{outcome=\"failed\"}"@, value: webhook.failed as int },
        ],
    }
}

fn push_deliveries(page: &mut Page, webhook: &WebhookMetrics)
    requires
        old(page).wf(),
    ensures
        final(page).wf(),
        final(page)@ == old(page)@.push(deliveries_family(webhook@)),
{
    let name: &str = "stellargate_webhook_deliveries_total";
    page.family(name, "Total webhook delivery attempts by outcome.", "counter");
    page.sample(name, "{outcome=\"delivered\"}", webhook.delivered() as i128);
    page.sample(name, "{outcome=\"failed\"}", webhook.failed() as i128);
    assert(page@.last().samples =~= deliveries_family(webhook@).samples);
    assert(page@ =~= old(page)@.push(deliveries_family(webhook@)));
}

/// Webhook retries.
pub open spec fn retries_family(webhook: WebhookCounts) -> Family {
    single(
        "stellargate_webhook_retries_total"@,
        "Total webhook retry attempts (excludes the first try)."@,
        "counter"@,
        webhook.retried as int,
    )
}

/// The samples of the explicit buckets below `n`.
pub open spec fn bucket_samples(webhook: WebhookCounts, n: int) -> Seq<Sample> {
    Seq::new(
        n as nat,
        |i: int|
            Sample {
                suffix: bound_label(LATENCY_BUCKETS_MS[i]),
                value: webhook.latency_buckets[i] as int,
            },
    )
}

/// The histogram of webhook delivery latencies: the buckets by ascending bound,
/// then the sum and the count.
pub open spec fn latency_family(webhook: WebhookCounts) -> Family {
    Family {
        name: "stellargate_webhook_delivery_latency_ms"@,
        help: "End-to-end webhook delivery latency in milliseconds."@,
        kind: "histogram"@,
        samples: bucket_samples(webhook, INF_BUCKET as int) + seq![
            Sample {
                suffix: "_bucket{le=\"+Inf\"}"@,
                value: webhook.latency_buckets[INF_BUCKET as int] as int,
            },
            Sample { suffix: "_sum"@, value: webhook.latency_sum_ms as int },
            Sample { suffix: "_count"@, value: webhook.latency_count as int },
        ],
    }
}

fn push_latency(page: &mut Page, webhook: &WebhookMetrics)
    requires
        old(page).wf(),
    ensures
        final(page).wf(),
        final(page)@ == old(page)@.push(latency_family(webhook@)),
{
    let name: &str = "stellargate_webhook_delivery_latency_ms";
    page.family(name, "End-to-end webhook delivery latency in milliseconds.", "histogram");
    let ghost blank = page@.last();
    let mut i: usize = 0;
    assert(blank.samples =~= bucket_samples(webhook@, 0));
    while i < INF_BUCKET
        invariant
            i <= INF_BUCKET,
            page.wf(),
            blank.name == name@,
            page@ == old(page)@.push(
                Family { samples: bucket_samples(webhook@, i as int), ..blank },
            ),
        decreases INF_BUCKET - i,
    {
        let mut suffix: String = String::new();
        suffix.append("_bucket{le=\"");
        push_integer(&mut suffix, LATENCY_BUCKETS_MS[i] as i128);
        suffix.append("\"}");
        assert(suffix@ =~= bound_label(LATENCY_BUCKETS_MS[i as int]));
        page.sample(name, suffix.as_str(), webhook.latency_bucket(i) as i128);
        assert(page@.last().samples =~= bucket_samples(webhook@, i + 1));
        assert(page@ =~= old(page)@.push(
            Family { samples: bucket_samples(webhook@, i + 1), ..blank },
        ));
        i += 1;
    }
    page.sample(name, "_bucket{le=\"+Inf\"}", webhook.latency_bucket(INF_BUCKET) as i128);
    page.sample(name, "_sum", webhook.latency_sum_ms() as i128);
    page.sample(name, "_count", webhook.latency_count() as i128);
    assert(page@.last().samples =~= latency_family(webhook@).samples);
    assert(page@ =~= old(page)@.push(latency_family(webhook@)));
}

/// Authentication decisions by outcome and reason.
pub open spec fn auth_attempts_family(auth: AuthCounts) -> Family {
    Family {
        name: "stellargate_auth_attempts_total"@,
        help: "Total auth middleware decisions by outcome and reason."@,
        kind: "counter"@,
        samples: seq![
            Sample { suffix: "{outcome=\"success\"}"@, value: auth.success as int },
            Sample {
                suffix: "{outcome=\"failure\",reason=\"missing_key\"}"@,
                value: auth.failure_missing_key as int,
            },
            Sample {
                suffix: "{outcome=\"failure\",reason=\"invalid_key\"}"@,
                value: auth.failure_invalid_key as int,
            },
            Sample {
                suffix: "{outcome=\"failure\",reason=\"internal_error\"}"@,
                value: auth.failure_internal_error as int,
            },
        ],
    }
}

fn push_auth_attempts(page: &mut Page, auth: &AuthMetrics)
    requires
        old(page).wf(),
    ensures
        final(page).wf(),
        final(page)@ == old(page)@.push(auth_attempts_family(auth@)),
{
    let name: &str = "stellargate_auth_attempts_total";
    page.family(name, "Total auth middleware decisions by outcome and reason.", "counter");
    page.sample(name, "{outcome=\"success\"}", auth.success() as i128);
    page.sample(
        name,
        "{outcome=\"failure\",reason=\"missing_key\"}",
        auth.failure_missing_key() as i128,
    );
    page.sample(
        name,
        "{outcome=\"failure\",reason=\"invalid_key\"}",
        auth.failure_invalid_key() as i128,
    );
    page.sample(
        name,
        "{outcome=\"failure\",reason=\"internal_error\"}",
        auth.failure_internal_error() as i128,
    );
    assert(page@.last().samples =~= auth_attempts_family(auth@).samples);
    assert(page@ =~= old(page)@.push(auth_attempts_family(auth@)));
}

/// Background task starts.
pub open spec fn tasks_started_family(tasks: TaskHealth) -> Family {
    single(
        "stellargate_tasks_started_total"@,
        "Total background task starts (including restarts)."@,
        "counter"@,
        tasks.started as int,
    )
}

/// Background task clean stops.
pub open spec fn tasks_stopped_family(tasks: TaskHealth) -> Family {
    single(
        "stellargate_tasks_stopped_total"@,
        "Total background task clean stops."@,
        "counter"@,
        tasks.stopped as int,
    )
}

/// Background task panics.
pub open spec fn tasks_failed_family(tasks: TaskHealth) -> Family {
    single(
        "stellargate_tasks_failed_total"@,
        "Total background task panics."@,
        "counter"@,
        tasks.failed as int,
    )
}

/// Restarts, task by task.
pub open spec fn task_restarts_family(tasks: TaskHealth) -> Family {
    Family {
        name: "stellargate_task_restarts_total"@,
        help: "Supervisor restarts of a background task after panic or unexpected return."@,
        kind: "counter"@,
        samples: task_samples(tasks.tasks@, Measure::Restarts),
    }
}

/// Which tasks are running.
pub open spec fn task_running_family(tasks: TaskHealth) -> Family {
    Family {
        name: "stellargate_task_running"@,
        help: "Whether the named background task is currently running (1) or not (0)."@,
        kind: "gauge"@,
        samples: task_samples(tasks.tasks@, Measure::Running),
    }
}

/// Streaks of panics, task by task.
pub open spec fn task_consecutive_failures_family(tasks: TaskHealth) -> Family {
    Family {
        name: "stellargate_task_consecutive_failures"@,
        help: "Consecutive panics of a background task since it last ran stably."@,
        kind: "gauge"@,
        samples: task_samples(tasks.tasks@, Measure::ConsecutiveFailures),
    }
}

/// How many tasks should be running. Together with the next family this answers
/// how many workers are down: alert where fewer are live than expected.
pub open spec fn tasks_expected_family(tasks: TaskHealth) -> Family {
    single(
        "stellargate_tasks_expected"@,
        "Background workers this deployment expects to be running, excluding any disabled by configuration."@,
        "gauge"@,
        tasks.expected_tasks as int,
    )
}

/// How many of the expected tasks are running.
pub open spec fn tasks_live_family(tasks: TaskHealth) -> Family {
    single(
        "stellargate_tasks_live"@,
        "Expected background workers currently running."@,
        "gauge"@,
        tasks.live_tasks as int,
    )
}

/// Which tasks are switched off on purpose, as opposed to not running.
pub open spec fn task_disabled_family(tasks: TaskHealth) -> Family {
    Family {
        name: "stellargate_task_disabled"@,
        help: "Whether the named background task exited because configuration gave it nothing to do (1) or not (0)."@,
        kind: "gauge"@,
        samples: task_samples(tasks.tasks@, Measure::Disabled),
    }
}

/// Horizon poll cycles by outcome.
pub open spec fn poll_cycles_family(horizon: HorizonCounts) -> Family {
    Family {
        name: "stellargate_horizon_poll_cycles_total"@,
        help: "Total Horizon poll cycles by outcome."@,
        kind: "counter"@,
        samples: seq![
            Sample { suffix: "{outcome=\"success\"}"@, value: horizon.success as int },
            Sample { suffix: "{outcome=\"rate_limited\"}"@, value: horizon.rate_limited as int },
            Sample { suffix: "{outcome=\"error\"}"@, value: horizon.error as int },
        ],
    }
}

fn push_poll_cycles(page: &mut Page, horizon: &HorizonMetrics)
    requires
        old(page).wf(),
    ensures
        final(page).wf(),
        final(page)@ == old(page)@.push(poll_cycles_family(horizon@)),
{
    let name: &str = "stellargate_horizon_poll_cycles_total";
    page.family(name, "Total Horizon poll cycles by outcome.", "counter");
    page.sample(name, "{outcome=\"success\"}", horizon.success() as i128);
    page.sample(name, "{outcome=\"rate_limited\"}", horizon.rate_limited() as i128);
    page.sample(name, "{outcome=\"error\"}", horizon.error() as i128);
    assert(page@.last().samples =~= poll_cycles_family(horizon@).samples);
    assert(page@ =~= old(page)@.push(poll_cycles_family(horizon@)));
}

/// Reconnections of the Horizon stream listener.
pub open spec fn stream_reconnects_family(horizon: HorizonCounts) -> Family {
    single(
        "stellargate_horizon_stream_reconnects_total"@,
        "Total times the Horizon SSE stream listener reconnected."@,
        "counter"@,
        horizon.stream_reconnects as int,
    )
}

/// When on-chain payment detection last made progress.
pub open spec fn last_successful_poll_family(tasks: TaskHealth) -> Family {
    single(
        "stellargate_horizon_last_successful_poll_timestamp_seconds"@,
        "Unix timestamp of the last successful Horizon poll or stream event."@,
        "gauge"@,
        tasks.last_success_unix as int,
    )
}

/// The sample of one asset.
pub open spec fn asset_sample(entry: (Seq<char>, bool)) -> Sample {
    Sample { suffix: asset_label(entry.0), value: flag(entry.1) }
}

/// The samples of `entries`, in their order.
pub open spec fn asset_samples(entries: Seq<(Seq<char>, bool)>) -> Seq<Sample> {
    Seq::new(entries.len(), |i: int| asset_sample(entries[i]))
}

/// Which assets are confirmed to lack a trustline, sorted by asset code. An
/// asset that was never confirmed either way has no sample.
pub open spec fn missing_trustlines_family(trustlines: TrustlineState) -> Family {
    Family {
        name: "stellargate_missing_trustlines"@,
        help: "Whether the gateway account is currently confirmed to have no trustline for an accepted asset (1) or confirmed to have one (0). An asset is absent from this metric until the first successful trustline check evaluates it."@,
        kind: "gauge"@,
        samples: asset_samples(sorted_entries(trustlines.missing)),
    }
}

fn push_missing_trustlines(page: &mut Page, trustlines: &TrustlineMetrics)
    requires
        old(page).wf(),
    ensures
        final(page).wf(),
        final(page)@ == old(page)@.push(missing_trustlines_family(trustlines@)),
{
    let name: &str = "stellargate_missing_trustlines";
    page.family(
        name,
        "Whether the gateway account is currently confirmed to have no trustline for an accepted asset (1) or confirmed to have one (0). An asset is absent from this metric until the first successful trustline check evaluates it.",
        "gauge",
    );
    let ghost blank = page@.last();
    let entries: Vec<(String, bool)> = trustlines.snapshot();
    let ghost known = entry_views(entries@);
    let mut i: usize = 0;
    assert(blank.samples =~= asset_samples(known.take(0)));
    while i < entries.len()
        invariant
            i <= entries@.len(),
            page.wf(),
            blank.name == name@,
            known == entry_views(entries@),
            page@ == old(page)@.push(
                Family { samples: asset_samples(known.take(i as int)), ..blank },
            ),
        decreases entries@.len() - i,
    {
        let mut suffix: String = String::new();
        suffix.append("{asset=\"");
        suffix.append(entries[i].0.as_str());
        suffix.append("\"}");
        assert(suffix@ =~= asset_label(known[i as int].0));
        let value: i128 = if entries[i].1 {
            1
        } else {
            0
        };
        page.sample(name, suffix.as_str(), value);
        assert(page@.last().samples =~= asset_samples(known.take(i + 1)));
        assert(page@ =~= old(page)@.push(
            Family { samples: asset_samples(known.take(i + 1)), ..blank },
        ));
        i += 1;
    }
    assert(known.take(i as int) =~= known);
    assert(page@ =~= old(page)@.push(missing_trustlines_family(trustlines@)));
}

/// Trustline checks without a confirmed answer.
pub open spec fn trustline_check_failures_family(trustlines: TrustlineState) -> Family {
    single(
        "stellargate_trustline_check_failures_total"@,
        "Total trustline checks that could not reach Horizon or got a non-2xx response. Does not affect stellargate_missing_trustlines, which only reflects confirmed answers."@,
        "counter"@,
        trustlines.check_failures as int,
    )
}

/// When a trustline check last got a confirmed answer.
pub open spec fn trustline_last_success_family(trustlines: TrustlineState) -> Family {
    single(
        "stellargate_trustline_check_last_success_timestamp_seconds"@,
        "Unix timestamp of the last trustline check that got a confirmed answer from Horizon. 0 means never — treat stellargate_missing_trustlines as unknown, not confirmed, until this is nonzero."@,
        "gauge"@,
        trustlines.last_success_unix as int,
    )
}

/// The families on the metrics page, in order.
pub open spec fn exposition(
    webhook: WebhookCounts,
    auth: AuthCounts,
    tasks: TaskHealth,
    horizon: HorizonCounts,
    trustlines: TrustlineState,
) -> Seq<Family> {
    Seq::empty()
        .push(deliveries_family(webhook))
        .push(retries_family(webhook))
        .push(latency_family(webhook))
        .push(auth_attempts_family(auth))
        .push(tasks_started_family(tasks))
        .push(tasks_stopped_family(tasks))
        .push(tasks_failed_family(tasks))
        .push(task_restarts_family(tasks))
        .push(task_running_family(tasks))
        .push(task_consecutive_failures_family(tasks))
        .push(tasks_expected_family(tasks))
        .push(tasks_live_family(tasks))
        .push(task_disabled_family(tasks))
        .push(poll_cycles_family(horizon))
        .push(stream_reconnects_family(horizon))
        .push(last_successful_poll_family(tasks))
        .push(missing_trustlines_family(trustlines))
        .push(trustline_check_failures_family(trustlines))
        .push(trustline_last_success_family(trustlines))
}

/// Renders webhook delivery, auth outcome, background-task, Horizon poll and
/// trustline metrics as a Prometheus-compatible plain-text page.
pub fn render(
    webhook: &WebhookMetrics,
    auth: &AuthMetrics,
    tasks: &TaskHealth,
    horizon: &HorizonMetrics,
    trustlines: &TrustlineMetrics,
) -> (text: String)
    ensures
        text@ == page_text(exposition(webhook@, auth@, *tasks, horizon@, trustlines@)),
{
    let mut page: Page = Page::new();
    push_deliveries(&mut page, webhook);
    push_single(
        &mut page,
        "stellargate_webhook_retries_total",
        "Total webhook retry attempts (excludes the first try).",
        "counter",
        webhook.retried() as i128,
    );
    push_latency(&mut page, webhook);
    push_auth_attempts(&mut page, auth);
    push_single(
        &mut page,
        "stellargate_tasks_started_total",
        "Total background task starts (including restarts).",
        "counter",
        tasks.started as i128,
    );
    push_single(
        &mut page,
        "stellargate_tasks_stopped_total",
        "Total background task clean stops.",
        "counter",
        tasks.stopped as i128,
    );
    push_single(
        &mut page,
        "stellargate_tasks_failed_total",
        "Total background task panics.",
        "counter",
        tasks.failed as i128,
    );
    push_task_family(
        &mut page,
        "stellargate_task_restarts_total",
        "Supervisor restarts of a background task after panic or unexpected return.",
        "counter",
        tasks,
        Measure::Restarts,
    );
    push_task_family(
        &mut page,
        "stellargate_task_running",
        "Whether the named background task is currently running (1) or not (0).",
        "gauge",
        tasks,
        Measure::Running,
    );
    push_task_family(
        &mut page,
        "stellargate_task_consecutive_failures",
        "Consecutive panics of a background task since it last ran stably.",
        "gauge",
        tasks,
        Measure::ConsecutiveFailures,
    );
    push_single(
        &mut page,
        "stellargate_tasks_expected",
        "Background workers this deployment expects to be running, excluding any disabled by configuration.",
        "gauge",
        tasks.expected_tasks as i128,
    );
    push_single(
        &mut page,
        "stellargate_tasks_live",
        "Expected background workers currently running.",
        "gauge",
        tasks.live_tasks as i128,
    );
    push_task_family(
        &mut page,
        "stellargate_task_disabled",
        "Whether the named background task exited because configuration gave it nothing to do (1) or not (0).",
        "gauge",
        tasks,
        Measure::Disabled,
    );
    push_poll_cycles(&mut page, horizon);
    push_single(
        &mut page,
        "stellargate_horizon_stream_reconnects_total",
        "Total times the Horizon SSE stream listener reconnected.",
        "counter",
        horizon.stream_reconnects() as i128,
    );
    push_single(
        &mut page,
        "stellargate_horizon_last_successful_poll_timestamp_seconds",
        "Unix timestamp of the last successful Horizon poll or stream event.",
        "gauge",
        tasks.last_success_unix as i128,
    );
    push_missing_trustlines(&mut page, trustlines);
    push_single(
        &mut page,
        "stellargate_trustline_check_failures_total",
        "Total trustline checks that could not reach Horizon or got a non-2xx response. Does not affect stellargate_missing_trustlines, which only reflects confirmed answers.",
        "counter",
        trustlines.check_failures() as i128,
    );
    push_single(
        &mut page,
        "stellargate_trustline_check_last_success_timestamp_seconds",
        "Unix timestamp of the last trustline check that got a confirmed answer from Horizon. 0 means never — treat stellargate_missing_trustlines as unknown, not confirmed, until this is nonzero.",
        "gauge",
        trustlines.last_success_unix() as i128,
    );
    page.into_text()
}

/// A failed trustline check, which is counted, does not affect what the page
/// says of the assets.
pub proof fn law_check_failures_leave_assets_alone(trustlines: TrustlineState, failures: u64)
    ensures
        missing_trustlines_family(TrustlineState { check_failures: failures, ..trustlines })
            == missing_trustlines_family(trustlines),
{
}

/// After any history of checks an asset is on the page exactly when it is
/// confirmed either way, with 1 where it lacks a trustline and 0 where it has
/// one.
pub proof fn law_page_shows_confirmed_assets_alone(
    events: Seq<TrustlineEvent>,
    code: Seq<char>,
    value: int,
)
    ensures
        missing_trustlines_family(trustline::replayed(events)).samples.contains(
            Sample { suffix: asset_label(code), value },
        ) <==> match lookup(trustline::replayed(events).missing, code) {
            Some(missing) => value == flag(missing),
            None => false,
        },
{
    let known = trustline::replayed(events).missing;
    let entries = sorted_entries(known);
    let samples = asset_samples(entries);
    let sample = Sample { suffix: asset_label(code), value };
    law_every_history_has_a_listing(events);
    if samples.contains(sample) {
        let i = samples.index_of(sample);
        lemma_asset_labels_differ(entries[i].0, code);
        assert(entries[i] == (code, entries[i].1));
        law_listing_agrees_with_lookup(entries, code, entries[i].1);
    }
    if let Some(missing) = lookup(known, code) {
        law_listing_agrees_with_lookup(entries, code, missing);
        let i = entries.index_of((code, missing));
        assert(samples[i] == asset_sample((code, missing)));
    }
}

proof fn lemma_asset_labels_differ(a: Seq<char>, b: Seq<char>)
    requires
        asset_label(a) == asset_label(b),
    ensures
        a == b,
{
    let (open, close) = ("{asset=\""@, "\"}"@);
    let label = asset_label(a);
    assert(a =~= label.subrange(open.len() as int, label.len() - close.len()));
    assert(b =~= label.subrange(open.len() as int, label.len() - close.len()));
}

/// The rendered buckets ascend, as long as the latency count has not wrapped
/// around, and the `+Inf` bucket equals the count.
pub proof fn law_rendered_histogram_is_cumulative(events: Seq<WebhookEvent>, i: int, j: int)
    requires
        0 <= i <= j <= INF_BUCKET,
        tally(events, is_latency()) <= u64::MAX,
    ensures
        latency_family(replayed(events)).samples[i].value <= latency_family(
            replayed(events),
        ).samples[j].value,
        latency_family(replayed(events)).samples[INF_BUCKET as int].value == latency_family(
            replayed(events),
        ).samples.last().value,
{
    law_histogram_is_cumulative(events, i, j);
    law_inf_bucket_is_the_count(events);
}

/// The page ends with a line break, whatever it reports.
pub proof fn law_page_is_complete(
    webhook: WebhookCounts,
    auth: AuthCounts,
    tasks: TaskHealth,
    horizon: HorizonCounts,
    trustlines: TrustlineState,
)
    ensures
        page_text(exposition(webhook, auth, tasks, horizon, trustlines)).last() == '\n',
{
    law_page_ends_with_a_line_break(exposition(webhook, auth, tasks, horizon, trustlines));
}

/// The page shows what was counted of webhook deliveries: each outcome, the
/// retries, the sum and the count of the latencies.
pub proof fn law_page_shows_webhook_counts(
    webhook: WebhookCounts,
    auth: AuthCounts,
    tasks: TaskHealth,
    horizon: HorizonCounts,
    trustlines: TrustlineState,
)
    ensures
        ({
            let page = exposition(webhook, auth, tasks, horizon, trustlines);
            &&& page[0].name == "stellargate_webhook_deliveries_total"@
            &&& page[0].samples.len() == 2
            &&& page[0].samples[0].suffix == "{outcome=\"delivered\"}"@
            &&& page[0].samples[0].value == webhook.delivered
            &&& page[0].samples[1].suffix == "{outcome=\"failed\"}"@
            &&& page[0].samples[1].value == webhook.failed
            &&& page[1].name == "stellargate_webhook_retries_total"@
            &&& page[1].samples.len() == 1
            &&& page[1].samples[0].suffix == ""@
            &&& page[1].samples[0].value == webhook.retried
            &&& page[2].name == "stellargate_webhook_delivery_latency_ms"@
            &&& page[2].samples.len() == 12
            &&& page[2].samples[9].suffix == "_bucket{le=\"+Inf\"}"@
            &&& page[2].samples[9].value == webhook.latency_buckets[9]
            &&& page[2].samples[10].suffix == "_sum"@
            &&& page[2].samples[10].value == webhook.latency_sum_ms
            &&& page[2].samples[11].suffix == "_count"@
            &&& page[2].samples[11].value == webhook.latency_count
        }),
{
}

/// The page shows each explicit bucket of the latency histogram, by ascending
/// bound, under the numeral of its bound.
pub proof fn law_page_shows_each_bucket(
    webhook: WebhookCounts,
    auth: AuthCounts,
    tasks: TaskHealth,
    horizon: HorizonCounts,
    trustlines: TrustlineState,
    i: int,
)
    requires
        0 <= i < 9,
    ensures
        ({
            let page = exposition(webhook, auth, tasks, horizon, trustlines);
            &&& page[2].samples[i].suffix == "_bucket{le=\""@ + integer_text(
                LATENCY_BUCKETS_MS[i] as int,
            ) + "\"}"@
            &&& page[2].samples[i].value == webhook.latency_buckets[i]
            &&& i > 0 ==> LATENCY_BUCKETS_MS[i - 1] < LATENCY_BUCKETS_MS[i]
        }),
{
    law_bucket_bounds();
}

/// The page shows what was counted of authentication attempts, outcome by
/// outcome.
pub proof fn law_page_shows_auth_counts(
    webhook: WebhookCounts,
    auth: AuthCounts,
    tasks: TaskHealth,
    horizon: HorizonCounts,
    trustlines: TrustlineState,
)
    ensures
        ({
            let page = exposition(webhook, auth, tasks, horizon, trustlines);
            &&& page[3].name == "stellargate_auth_attempts_total"@
            &&& page[3].samples.len() == 4
            &&& page[3].samples[0].suffix == "{outcome=\"success\"}"@
            &&& page[3].samples[0].value == auth.success
            &&& page[3].samples[1].suffix == "{outcome=\"failure\",reason=\"missing_key\"}"@
            &&& page[3].samples[1].value == auth.failure_missing_key
            &&& page[3].samples[2].suffix == "{outcome=\"failure\",reason=\"invalid_key\"}"@
            &&& page[3].samples[2].value == auth.failure_invalid_key
            &&& page[3].samples[3].suffix == "{outcome=\"failure\",reason=\"internal_error\"}"@
            &&& page[3].samples[3].value == auth.failure_internal_error
        }),
{
}

/// The page shows the totals of the background tasks.
pub proof fn law_page_shows_task_totals(
    webhook: WebhookCounts,
    auth: AuthCounts,
    tasks: TaskHealth,
    horizon: HorizonCounts,
    trustlines: TrustlineState,
)
    ensures
        ({
            let page = exposition(webhook, auth, tasks, horizon, trustlines);
            &&& page[4].name == "stellargate_tasks_started_total"@
            &&& page[4].samples.len() == 1
            &&& page[4].samples[0].suffix == ""@
            &&& page[4].samples[0].value == tasks.started
            &&& page[5].name == "stellargate_tasks_stopped_total"@
            &&& page[5].samples.len() == 1
            &&& page[5].samples[0].suffix == ""@
            &&& page[5].samples[0].value == tasks.stopped
            &&& page[6].name == "stellargate_tasks_failed_total"@
            &&& page[6].samples.len() == 1
            &&& page[6].samples[0].suffix == ""@
            &&& page[6].samples[0].value == tasks.failed
            &&& page[10].name == "stellargate_tasks_expected"@
            &&& page[10].samples.len() == 1
            &&& page[10].samples[0].suffix == ""@
            &&& page[10].samples[0].value == tasks.expected_tasks
            &&& page[11].name == "stellargate_tasks_live"@
            &&& page[11].samples.len() == 1
            &&& page[11].samples[0].suffix == ""@
            &&& page[11].samples[0].value == tasks.live_tasks
            &&& page[15].name == "stellargate_horizon_last_successful_poll_timestamp_seconds"@
            &&& page[15].samples.len() == 1
            &&& page[15].samples[0].suffix == ""@
            &&& page[15].samples[0].value == tasks.last_success_unix
        }),
{
}

/// The page shows each background task under its name, in order: its restarts,
/// 1 or 0 for running or not, its streak of panics, and 1 or 0 for disabled or
/// not. Each of these says what its own field says, whatever the others say.
pub proof fn law_page_shows_each_task(
    webhook: WebhookCounts,
    auth: AuthCounts,
    tasks: TaskHealth,
    horizon: HorizonCounts,
    trustlines: TrustlineState,
    i: int,
)
    requires
        0 <= i < tasks.tasks@.len(),
    ensures
        ({
            let page = exposition(webhook, auth, tasks, horizon, trustlines);
            &&& page[7].name == "stellargate_task_restarts_total"@
            &&& page[7].samples.len() == tasks.tasks@.len()
            &&& page[7].samples[i].suffix == "{task=\""@ + tasks.tasks@[i].name@ + "\"}"@
            &&& page[7].samples[i].value == tasks.tasks@[i].restarts
            &&& page[8].name == "stellargate_task_running"@
            &&& page[8].samples.len() == tasks.tasks@.len()
            &&& page[8].samples[i].suffix == "{task=\""@ + tasks.tasks@[i].name@ + "\"}"@
            &&& page[8].samples[i].value == 1 <==> tasks.tasks@[i].running
            &&& page[8].samples[i].value == 0 <==> !tasks.tasks@[i].running
            &&& page[9].name == "stellargate_task_consecutive_failures"@
            &&& page[9].samples.len() == tasks.tasks@.len()
            &&& page[9].samples[i].suffix == "{task=\""@ + tasks.tasks@[i].name@ + "\"}"@
            &&& page[9].samples[i].value == tasks.tasks@[i].consecutive_failures
            &&& page[12].name == "stellargate_task_disabled"@
            &&& page[12].samples.len() == tasks.tasks@.len()
            &&& page[12].samples[i].suffix == "{task=\""@ + tasks.tasks@[i].name@ + "\"}"@
            &&& page[12].samples[i].value == 1 <==> tasks.tasks@[i].disabled_reason is Some
            &&& page[12].samples[i].value == 0 <==> tasks.tasks@[i].disabled_reason is None
        }),
{
}

/// The page shows what was counted of Horizon poll cycles and reconnections.
pub proof fn law_page_shows_horizon_counts(
    webhook: WebhookCounts,
    auth: AuthCounts,
    tasks: TaskHealth,
    horizon: HorizonCounts,
    trustlines: TrustlineState,
)
    ensures
        ({
            let page = exposition(webhook, auth, tasks, horizon, trustlines);
            &&& page[13].name == "stellargate_horizon_poll_cycles_total"@
            &&& page[13].samples.len() == 3
            &&& page[13].samples[0].suffix == "{outcome=\"success\"}"@
            &&& page[13].samples[0].value == horizon.success
            &&& page[13].samples[1].suffix == "{outcome=\"rate_limited\"}"@
            &&& page[13].samples[1].value == horizon.rate_limited
            &&& page[13].samples[2].suffix == "{outcome=\"error\"}"@
            &&& page[13].samples[2].value == horizon.error
            &&& page[14].name == "stellargate_horizon_stream_reconnects_total"@
            &&& page[14].samples.len() == 1
            &&& page[14].samples[0].suffix == ""@
            &&& page[14].samples[0].value == horizon.stream_reconnects
        }),
{
}

/// The page shows how many trustline checks failed and when one last succeeded.
pub proof fn law_page_shows_trustline_checks(
    webhook: WebhookCounts,
    auth: AuthCounts,
    tasks: TaskHealth,
    horizon: HorizonCounts,
    trustlines: TrustlineState,
)
    ensures
        ({
            let page = exposition(webhook, auth, tasks, horizon, trustlines);
            &&& page[17].name == "stellargate_trustline_check_failures_total"@
            &&& page[17].samples.len() == 1
            &&& page[17].samples[0].suffix == ""@
            &&& page[17].samples[0].value == trustlines.check_failures
            &&& page[18].name == "stellargate_trustline_check_last_success_timestamp_seconds"@
            &&& page[18].samples.len() == 1
            &&& page[18].samples[0].suffix == ""@
            &&& page[18].samples[0].value == trustlines.last_success_unix
        }),
{
}

/// The page lists the assets as the listing of what is known does, in its
/// order: 1 for an asset that lacks a trustline and 0 for one that has one.
pub proof fn law_page_lists_assets_in_order(
    webhook: WebhookCounts,
    auth: AuthCounts,
    tasks: TaskHealth,
    horizon: HorizonCounts,
    trustlines: TrustlineState,
    i: int,
)
    ensures
        ({
            let page = exposition(webhook, auth, tasks, horizon, trustlines);
            let entries = sorted_entries(trustlines.missing);
            &&& page[16].name == "stellargate_missing_trustlines"@
            &&& page[16].samples.len() == entries.len()
            &&& 0 <= i < entries.len() ==> page[16].samples[i].suffix == "{asset=\""@
                + entries[i].0 + "\"}"@
            &&& 0 <= i < entries.len() ==> page[16].samples[i].value == if entries[i].1 {
                1int
            } else {
                0
            }
        }),
{
}

/// After a trustline check, and any failures since, the page shows 1 for each
/// asset that the check found missing, 0 for each other asset that it
/// evaluated, nothing for any other asset, and the time of that check.
pub proof fn law_page_shows_the_last_check(
    webhook: WebhookCounts,
    auth: AuthCounts,
    tasks: TaskHealth,
    horizon: HorizonCounts,
    before: Seq<TrustlineEvent>,
    check: (Seq<Seq<char>>, Seq<Seq<char>>, i64),
    failures: Seq<TrustlineEvent>,
    code: Seq<char>,
    value: int,
)
    requires
        forall|i: int| 0 <= i < failures.len() ==> #[trigger] failures[i] is Failed,
    ensures
        ({
            let (checked, missing, now) = check;
            let trustlines = trustline::replayed(
                before.push(TrustlineEvent::Checked { checked, missing, now }) + failures,
            );
            let page = exposition(webhook, auth, tasks, horizon, trustlines);
            &&& page[16].samples.contains(
                Sample { suffix: "{asset=\""@ + code + "\"}"@, value },
            ) <==> checked.contains(code) && (value == 1 && missing.contains(code) || value == 0
                && !missing.contains(code))
            &&& page[18].samples[0].value == now
        }),
{
    let (checked, missing, now) = check;
    let events = before.push(TrustlineEvent::Checked { checked, missing, now }) + failures;
    law_page_shows_confirmed_assets_alone(events, code, value);
    law_last_check_is_what_is_shown(before, checked, missing, now, failures, code, true);
    law_last_check_is_what_is_shown(before, checked, missing, now, failures, code, false);
}

/// What families there are, and what they are called and said to be, does not
/// depend on what is reported.
pub proof fn law_headers_are_fixed(
    webhook: WebhookCounts,
    auth: AuthCounts,
    tasks: TaskHealth,
    horizon: HorizonCounts,
    trustlines: TrustlineState,
    other_webhook: WebhookCounts,
    other_auth: AuthCounts,
    other_tasks: TaskHealth,
    other_horizon: HorizonCounts,
    other_trustlines: TrustlineState,
    i: int,
)
    requires
        0 <= i < 19,
    ensures
        ({
            let page = exposition(webhook, auth, tasks, horizon, trustlines);
            let other = exposition(
                other_webhook,
                other_auth,
                other_tasks,
                other_horizon,
                other_trustlines,
            );
            &&& page.len() == other.len() == 19
            &&& page[i].name == other[i].name
            &&& page[i].help == other[i].help
            &&& page[i].kind == other[i].kind
        }),
{
}

/// The page says of each task, in whole lines of its text, whether it is
/// running, whether it is disabled, how often it was restarted and how many
/// times in a row it panicked.
pub proof fn law_page_text_shows_each_task(
    webhook: WebhookCounts,
    auth: AuthCounts,
    tasks: TaskHealth,
    horizon: HorizonCounts,
    trustlines: TrustlineState,
    i: int,
)
    requires
        0 <= i < tasks.tasks@.len(),
    ensures
        ({
            let text = page_text(exposition(webhook, auth, tasks, horizon, trustlines));
            let task = tasks.tasks@[i];
            &&& task.running ==> has_line(
                text,
                "stellargate_task_running"@ + ("{task=\""@ + task.name@ + "\"}"@) + " "@ + "1"@,
            )
            &&& !task.running ==> has_line(
                text,
                "stellargate_task_running"@ + ("{task=\""@ + task.name@ + "\"}"@) + " "@ + "0"@,
            )
            &&& task.disabled_reason is Some ==> has_line(
                text,
                "stellargate_task_disabled"@ + ("{task=\""@ + task.name@ + "\"}"@) + " "@ + "1"@,
            )
            &&& task.disabled_reason is None ==> has_line(
                text,
                "stellargate_task_disabled"@ + ("{task=\""@ + task.name@ + "\"}"@) + " "@ + "0"@,
            )
            &&& has_line(
                text,
                "stellargate_task_restarts_total"@ + ("{task=\""@ + task.name@ + "\"}"@) + " "@
                    + integer_text(task.restarts as int),
            )
            &&& has_line(
                text,
                "stellargate_task_consecutive_failures"@ + ("{task=\""@ + task.name@ + "\"}"@)
                    + " "@ + integer_text(task.consecutive_failures as int),
            )
        }),
{
    let page = exposition(webhook, auth, tasks, horizon, trustlines);
    reveal_strlit("0123456789");
    reveal_strlit("0");
    reveal_strlit("1");
    assert(integer_text(0) =~= "0"@);
    assert(integer_text(1) =~= "1"@);
    law_page_shows_each_task(webhook, auth, tasks, horizon, trustlines, i);
    law_every_sample_is_a_line(page, 7, i);
    law_every_sample_is_a_line(page, 8, i);
    law_every_sample_is_a_line(page, 9, i);
    law_every_sample_is_a_line(page, 12, i);
}

} // verus!
