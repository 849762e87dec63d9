//! Webhook delivery outcomes and latencies.

use vstd::prelude::*;

use crate::counter::{advance, tally, wrapped};
use crate::counter::{law_advances_add_up, law_short_histories_are_counted_exactly};
use crate::counter::{law_small_totals_are_exact, law_tally_is_monotone};

verus! {

/// Histogram buckets for webhook delivery latency (milliseconds). Covers the
/// range from sub-10 ms fast paths up to the 10 s default timeout.
pub const LATENCY_BUCKETS_MS: [u64; 9] = [10, 50, 100, 250, 500, 1_000, 2_500, 5_000, 10_000];

/// The slot of the `+Inf` bucket, behind the explicit ones.
pub const INF_BUCKET: usize = 9;

/// Delivery counters and a cumulative latency histogram.
pub struct WebhookMetrics {
    /// Deliveries that reached the endpoint and received a 2xx response.
    delivered: u64,
    /// Deliveries that exhausted all retry attempts without a success.
    failed: u64,
    /// Individual retry attempts (attempts after the first try).
    retried: u64,
    /// Sum of all delivery latencies in milliseconds.
    latency_sum_ms: u64,
    /// Total completed delivery attempts.
    latency_count: u64,
    /// Per-bucket counts. Slot `i` belongs to `LATENCY_BUCKETS_MS[i]`, the last
    /// slot to `+Inf`.
    latency_buckets: [u64; 10],
}

/// What a [`WebhookMetrics`] has counted.
#[verifier::ext_equal]
pub struct WebhookCounts {
    pub delivered: u64,
    pub failed: u64,
    pub retried: u64,
    pub latency_sum_ms: u64,
    pub latency_count: u64,
    pub latency_buckets: Seq<u64>,
}

/// Something worth recording about webhook delivery.
pub enum WebhookEvent {
    /// A delivery succeeded.
    Delivered,
    /// A delivery failed for good.
    Failed,
    /// A delivery was tried again.
    Retry,
    /// A delivery took this many milliseconds end to end.
    Latency(u64),
}

/// A latency of `ms` falls into bucket `i`: the buckets are cumulative, so it
/// falls into every one whose bound it does not exceed, and into `+Inf`.
pub open spec fn in_bucket(ms: u64, i: int) -> bool {
    i == INF_BUCKET || ms <= LATENCY_BUCKETS_MS[i]
}

/// Nothing counted.
pub open spec fn no_deliveries() -> WebhookCounts {
    WebhookCounts {
        delivered: 0,
        failed: 0,
        retried: 0,
        latency_sum_ms: 0,
        latency_count: 0,
        latency_buckets: Seq::new(10, |i: int| 0u64),
    }
}

/// The counts after one more event.
pub open spec fn counted(counts: WebhookCounts, event: WebhookEvent) -> WebhookCounts {
    match event {
        WebhookEvent::Delivered => WebhookCounts {
            delivered: wrapped(counts.delivered + 1),
            ..counts
        },
        WebhookEvent::Failed => WebhookCounts { failed: wrapped(counts.failed + 1), ..counts },
        WebhookEvent::Retry => WebhookCounts { retried: wrapped(counts.retried + 1), ..counts },
        WebhookEvent::Latency(ms) => WebhookCounts {
            latency_sum_ms: wrapped(counts.latency_sum_ms + ms),
            latency_count: wrapped(counts.latency_count + 1),
            latency_buckets: Seq::new(
                10,
                |i: int|
                    if in_bucket(ms, i) {
                        wrapped(counts.latency_buckets[i] + 1)
                    } else {
                        counts.latency_buckets[i]
                    },
            ),
            ..counts
        },
    }
}

impl View for WebhookMetrics {
    type V = WebhookCounts;

    closed spec fn view(&self) -> WebhookCounts {
        WebhookCounts {
            delivered: self.delivered,
            failed: self.failed,
            retried: self.retried,
            latency_sum_ms: self.latency_sum_ms,
            latency_count: self.latency_count,
            latency_buckets: self.latency_buckets@,
        }
    }
}

impl WebhookMetrics {
    #[verifier::type_invariant]
    spec fn inf_bucket_holds_every_latency(self) -> bool {
        self.latency_buckets[INF_BUCKET as int] == self.latency_count
    }

    /// Nothing counted yet.
    pub fn new() -> (metrics: Self)
        ensures
            metrics@ == no_deliveries(),
    {
        let metrics = WebhookMetrics {
            delivered: 0,
            failed: 0,
            retried: 0,
            latency_sum_ms: 0,
            latency_count: 0,
            latency_buckets: [0, 0, 0, 0, 0, 0, 0, 0, 0, 0],
        };
        assert(metrics@ =~= no_deliveries());
        metrics
    }

    /// Records a successful delivery (2xx response received).
    pub fn record_delivered(&mut self)
        ensures
            final(self)@ == counted(old(self)@, WebhookEvent::Delivered),
    {
        proof {
            use_type_invariant(&*self);
        }
        self.delivered = advance(self.delivered, 1);
    }

    /// Records a final delivery failure (all retries exhausted without
    /// success).
    pub fn record_failed(&mut self)
        ensures
            final(self)@ == counted(old(self)@, WebhookEvent::Failed),
    {
        proof {
            use_type_invariant(&*self);
        }
        self.failed = advance(self.failed, 1);
    }

    /// Records one retry attempt (every attempt after the first try).
    pub fn record_retry(&mut self)
        ensures
            final(self)@ == counted(old(self)@, WebhookEvent::Retry),
    {
        proof {
            use_type_invariant(&*self);
        }
        self.retried = advance(self.retried, 1);
    }

    /// Records the end-to-end latency of one delivery, in milliseconds.
    ///
    /// Histogram buckets are cumulative: a 75 ms observation increments every
    /// bucket whose `le` bound is at least 75 (`le="100"`, `le="250"` and so
    /// on to `le="+Inf"`).
    pub fn record_latency_ms(&mut self, ms: u64)
        ensures
            final(self)@ == counted(old(self)@, WebhookEvent::Latency(ms)),
    {
        proof {
            use_type_invariant(&*self);
        }
        let ghost before = self.latency_buckets@;
        let mut buckets: [u64; 10] = self.latency_buckets;
        let mut i: usize = 0;
        while i < INF_BUCKET
            invariant
                i <= INF_BUCKET,
                before.len() == 10,
                forall|j: int|
                    0 <= j < i ==> #[trigger] buckets@[j] == if in_bucket(ms, j) {
                        wrapped(before[j] + 1)
                    } else {
                        before[j]
                    },
                forall|j: int| i <= j < 10 ==> #[trigger] buckets@[j] == before[j],
            decreases INF_BUCKET - i,
        {
            if ms <= LATENCY_BUCKETS_MS[i] {
                buckets[i] = advance(buckets[i], 1);
            }
            i += 1;
        }
        buckets[INF_BUCKET] = advance(buckets[INF_BUCKET], 1);
        *self = WebhookMetrics {
            delivered: self.delivered,
            failed: self.failed,
            retried: self.retried,
            latency_sum_ms: advance(self.latency_sum_ms, ms),
            latency_count: advance(self.latency_count, 1),
            latency_buckets: buckets,
        };
        assert(self@ =~= counted(old(self)@, WebhookEvent::Latency(ms)));
    }

    /// Deliveries that received a 2xx response.
    pub fn delivered(&self) -> (count: u64)
        ensures
            count == self@.delivered,
    {
        self.delivered
    }

    /// Deliveries that failed for good.
    pub fn failed(&self) -> (count: u64)
        ensures
            count == self@.failed,
    {
        self.failed
    }

    /// Retry attempts.
    pub fn retried(&self) -> (count: u64)
        ensures
            count == self@.retried,
    {
        self.retried
    }

    /// Sum of all recorded latencies in milliseconds.
    pub fn latency_sum_ms(&self) -> (sum: u64)
        ensures
            sum == self@.latency_sum_ms,
    {
        self.latency_sum_ms
    }

    /// Number of recorded latencies.
    pub fn latency_count(&self) -> (count: u64)
        ensures
            count == self@.latency_count,
    {
        self.latency_count
    }

    /// Count in bucket `i`; the `+Inf` bucket counts every latency.
    pub fn latency_bucket(&self, i: usize) -> (count: u64)
        requires
            i <= INF_BUCKET,
        ensures
            count == self@.latency_buckets[i as int],
            i == INF_BUCKET ==> count == self@.latency_count,
    {
        proof {
            use_type_invariant(self);
        }
        self.latency_buckets[i]
    }
}

impl Default for WebhookMetrics {
    fn default() -> (metrics: Self)
        ensures
            metrics@ == no_deliveries(),
    {
        WebhookMetrics::new()
    }
}

/// The counts after `events`, in the order given, from nothing.
pub open spec fn replayed(events: Seq<WebhookEvent>) -> WebhookCounts
    decreases events.len(),
{
    if events.len() == 0 {
        no_deliveries()
    } else {
        counted(replayed(events.drop_last()), events.last())
    }
}

/// The sum of the latencies among `events`.
pub open spec fn latency_total(events: Seq<WebhookEvent>) -> int
    decreases events.len(),
{
    if events.len() == 0 {
        0
    } else {
        latency_total(events.drop_last()) + match events.last() {
            WebhookEvent::Latency(ms) => ms as int,
            _ => 0,
        }
    }
}

/// Being `event`.
pub open spec fn is_event(event: WebhookEvent) -> spec_fn(WebhookEvent) -> bool {
    |e: WebhookEvent| e == event
}

/// Being a latency.
pub open spec fn is_latency() -> spec_fn(WebhookEvent) -> bool {
    |e: WebhookEvent| e is Latency
}

/// Being a latency that falls into bucket `i`.
pub open spec fn is_latency_in(i: int) -> spec_fn(WebhookEvent) -> bool {
    |e: WebhookEvent| e matches WebhookEvent::Latency(ms) && in_bucket(ms, i)
}

/// Every counter holds the number of its events, the sum holds the total of
/// the latencies, and each bucket the number of latencies up to its bound,
/// all modulo the range of a counter.
pub proof fn law_counts_are_tallies(events: Seq<WebhookEvent>)
    ensures
        replayed(events) == (WebhookCounts {
            delivered: wrapped(tally(events, is_event(WebhookEvent::Delivered)) as int),
            failed: wrapped(tally(events, is_event(WebhookEvent::Failed)) as int),
            retried: wrapped(tally(events, is_event(WebhookEvent::Retry)) as int),
            latency_sum_ms: wrapped(latency_total(events)),
            latency_count: wrapped(tally(events, is_latency()) as int),
            latency_buckets: Seq::new(
                10,
                |i: int| wrapped(tally(events, is_latency_in(i)) as int),
            ),
        }),
{
    lemma_outcomes_are_tallies(events);
    lemma_latencies_are_tallies(events);
    assert forall|i: int| 0 <= i < 10 implies #[trigger] replayed(events).latency_buckets[i]
        == wrapped(tally(events, is_latency_in(i)) as int) by {
        lemma_bucket_is_a_tally(events, i);
    }
    lemma_ten_buckets(events);
    assert(replayed(events).latency_buckets =~= Seq::new(
        10,
        |i: int| wrapped(tally(events, is_latency_in(i)) as int),
    ));
}

proof fn lemma_outcomes_are_tallies(events: Seq<WebhookEvent>)
    ensures
        replayed(events).delivered == wrapped(
            tally(events, is_event(WebhookEvent::Delivered)) as int,
        ),
        replayed(events).failed == wrapped(tally(events, is_event(WebhookEvent::Failed)) as int),
        replayed(events).retried == wrapped(tally(events, is_event(WebhookEvent::Retry)) as int),
    decreases events.len(),
{
    if events.len() > 0 {
        let earlier = events.drop_last();
        lemma_outcomes_are_tallies(earlier);
        law_advances_add_up(tally(earlier, is_event(events.last())) as int, 1);
    }
}

proof fn lemma_latencies_are_tallies(events: Seq<WebhookEvent>)
    ensures
        replayed(events).latency_sum_ms == wrapped(latency_total(events)),
        replayed(events).latency_count == wrapped(tally(events, is_latency()) as int),
    decreases events.len(),
{
    if events.len() > 0 {
        let earlier = events.drop_last();
        lemma_latencies_are_tallies(earlier);
        if let WebhookEvent::Latency(ms) = events.last() {
            law_advances_add_up(latency_total(earlier), ms as int);
            law_advances_add_up(tally(earlier, is_latency()) as int, 1);
        }
    }
}

proof fn lemma_bucket_is_a_tally(events: Seq<WebhookEvent>, i: int)
    requires
        0 <= i < 10,
    ensures
        replayed(events).latency_buckets[i] == wrapped(tally(events, is_latency_in(i)) as int),
    decreases events.len(),
{
    if events.len() > 0 {
        let earlier = events.drop_last();
        lemma_bucket_is_a_tally(earlier, i);
        law_advances_add_up(tally(earlier, is_latency_in(i)) as int, 1);
    }
}

proof fn lemma_ten_buckets(events: Seq<WebhookEvent>)
    ensures
        replayed(events).latency_buckets.len() == 10,
    decreases events.len(),
{
    if events.len() > 0 {
        lemma_ten_buckets(events.drop_last());
    }
}

/// The bounds ascend, so a latency in one bucket is in every later one.
pub proof fn law_buckets_nest(ms: u64, i: int, j: int)
    requires
        0 <= i <= j <= INF_BUCKET,
        in_bucket(ms, i),
    ensures
        in_bucket(ms, j),
{
    assert(LATENCY_BUCKETS_MS@ =~= seq![
        10u64,
        50u64,
        100u64,
        250u64,
        500u64,
        1_000u64,
        2_500u64,
        5_000u64,
        10_000u64,
    ]);
}

/// The `+Inf` bucket always equals the latency count.
pub proof fn law_inf_bucket_is_the_count(events: Seq<WebhookEvent>)
    ensures
        replayed(events).latency_buckets[INF_BUCKET as int] == replayed(events).latency_count,
    decreases events.len(),
{
    if events.len() > 0 {
        law_inf_bucket_is_the_count(events.drop_last());
    }
}

/// As long as the latency count has not wrapped around, bucket counts never
/// decrease from one bucket to a later one, and none exceeds the count.
pub proof fn law_histogram_is_cumulative(events: Seq<WebhookEvent>, i: int, j: int)
    requires
        0 <= i <= j <= INF_BUCKET,
        tally(events, is_latency()) <= u64::MAX,
    ensures
        replayed(events).latency_buckets[i] <= replayed(events).latency_buckets[j],
        replayed(events).latency_buckets[j] <= replayed(events).latency_count,
{
    let all = is_latency();
    let narrow = is_latency_in(i);
    let wide = is_latency_in(j);
    law_counts_are_tallies(events);
    assert forall|e: WebhookEvent| #[trigger] narrow(e) implies wide(e) by {
        law_buckets_nest(e->Latency_0, i, j);
    }
    law_tally_is_monotone(events, narrow, wide);
    law_tally_is_monotone(events, wide, all);
    law_small_totals_are_exact(tally(events, narrow) as int);
    law_small_totals_are_exact(tally(events, wide) as int);
    law_small_totals_are_exact(tally(events, all) as int);
}

/// Two events give the same counts in either order, so concurrent recorders
/// need no agreement on who comes first.
pub proof fn law_events_commute(counts: WebhookCounts, first: WebhookEvent, second: WebhookEvent)
    ensures
        counted(counted(counts, first), second) == counted(counted(counts, second), first),
{
    if let (WebhookEvent::Latency(a), WebhookEvent::Latency(b)) = (first, second) {
        law_advances_add_up(counts.latency_sum_ms + a, b as int);
        law_advances_add_up(counts.latency_sum_ms + b, a as int);
    }
    assert(counted(counted(counts, first), second) =~= counted(counted(counts, second), first));
}

/// Each outcome raises its own counter by one, which starts over behind the
/// largest number, and leaves everything else as it was.
pub proof fn law_outcome_raises_its_own_counter(counts: WebhookCounts)
    ensures
        ({
            let after = counted(counts, WebhookEvent::Delivered);
            &&& after.delivered == if counts.delivered == u64::MAX {
                0
            } else {
                counts.delivered + 1
            }
            &&& after == (WebhookCounts { delivered: after.delivered, ..counts })
        }),
        ({
            let after = counted(counts, WebhookEvent::Failed);
            &&& after.failed == if counts.failed == u64::MAX {
                0
            } else {
                counts.failed + 1
            }
            &&& after == (WebhookCounts { failed: after.failed, ..counts })
        }),
        ({
            let after = counted(counts, WebhookEvent::Retry);
            &&& after.retried == if counts.retried == u64::MAX {
                0
            } else {
                counts.retried + 1
            }
            &&& after == (WebhookCounts { retried: after.retried, ..counts })
        }),
{
}

/// No more events than a counter can hold are counted exactly, outcome by
/// outcome, from 0 on.
pub proof fn law_outcomes_are_counted_exactly(events: Seq<WebhookEvent>)
    requires
        events.len() <= u64::MAX,
    ensures
        replayed(events).delivered == tally(events, is_event(WebhookEvent::Delivered)),
        replayed(events).failed == tally(events, is_event(WebhookEvent::Failed)),
        replayed(events).retried == tally(events, is_event(WebhookEvent::Retry)),
        replayed(Seq::empty()) == no_deliveries(),
        no_deliveries().delivered == 0,
        no_deliveries().failed == 0,
        no_deliveries().retried == 0,
{
    law_counts_are_tallies(events);
    law_short_histories_are_counted_exactly(events, is_event(WebhookEvent::Delivered));
    law_short_histories_are_counted_exactly(events, is_event(WebhookEvent::Failed));
    law_short_histories_are_counted_exactly(events, is_event(WebhookEvent::Retry));
}

/// One latency raises by one the count, the `+Inf` bucket and each explicit
/// bucket whose bound it does not exceed; it adds to the sum, and changes
/// nothing else.
pub proof fn law_latency_raises_the_buckets_that_hold_it(counts: WebhookCounts, ms: u64, i: int)
    requires
        0 <= i < 9,
    ensures
        counted(counts, WebhookEvent::Latency(ms)).latency_buckets.len() == 10,
        ms > LATENCY_BUCKETS_MS[i] ==> counted(
            counts,
            WebhookEvent::Latency(ms),
        ).latency_buckets[i] == counts.latency_buckets[i],
        ms <= LATENCY_BUCKETS_MS[i] ==> counted(
            counts,
            WebhookEvent::Latency(ms),
        ).latency_buckets[i] == if counts.latency_buckets[i] == u64::MAX {
            0
        } else {
            counts.latency_buckets[i] + 1
        },
        counted(counts, WebhookEvent::Latency(ms)).latency_buckets[9]
            == if counts.latency_buckets[9] == u64::MAX {
            0
        } else {
            counts.latency_buckets[9] + 1
        },
        counted(counts, WebhookEvent::Latency(ms)).latency_count == if counts.latency_count
            == u64::MAX {
            0
        } else {
            counts.latency_count + 1
        },
        counted(counts, WebhookEvent::Latency(ms)).latency_sum_ms == if counts.latency_sum_ms + ms
            <= u64::MAX {
            counts.latency_sum_ms + ms
        } else {
            counts.latency_sum_ms + ms - u64::MAX - 1
        },
        counted(counts, WebhookEvent::Latency(ms)).delivered == counts.delivered,
        counted(counts, WebhookEvent::Latency(ms)).failed == counts.failed,
        counted(counts, WebhookEvent::Latency(ms)).retried == counts.retried,
{
}

/// As long as the latency count has not wrapped around, an explicit bucket
/// holds exactly the number of recorded latencies that do not exceed its
/// bound, and the `+Inf` bucket and the count hold the number of all.
pub proof fn law_bucket_counts_latencies_up_to_its_bound(events: Seq<WebhookEvent>, i: int)
    requires
        0 <= i < 9,
        tally(events, |e: WebhookEvent| e is Latency) <= u64::MAX,
    ensures
        replayed(events).latency_buckets[i] == tally(
            events,
            |e: WebhookEvent| e matches WebhookEvent::Latency(ms) && ms <= LATENCY_BUCKETS_MS[i],
        ),
        replayed(events).latency_buckets[9] == tally(events, |e: WebhookEvent| e is Latency),
        replayed(events).latency_count == tally(events, |e: WebhookEvent| e is Latency),
        replayed(events).latency_buckets.len() == 10,
    decreases events.len(),
{
    if events.len() > 0 {
        let earlier = events.drop_last();
        law_bucket_counts_latencies_up_to_its_bound(earlier, i);
        law_tally_is_monotone(
            events,
            |e: WebhookEvent| e matches WebhookEvent::Latency(ms) && ms <= LATENCY_BUCKETS_MS[i],
            |e: WebhookEvent| e is Latency,
        );
    }
}

/// Of two latencies recorded on the same counts, the lesser raises every bucket
/// that the greater raises.
pub proof fn law_lesser_latency_raises_no_fewer_buckets(
    counts: WebhookCounts,
    lesser: u64,
    greater: u64,
    i: int,
)
    requires
        lesser <= greater,
        0 <= i < 10,
        counted(counts, WebhookEvent::Latency(greater)).latency_buckets[i]
            != counts.latency_buckets[i],
    ensures
        counted(counts, WebhookEvent::Latency(lesser)).latency_buckets[i]
            != counts.latency_buckets[i],
{
}

/// The bounds of the explicit buckets, in milliseconds.
pub proof fn law_bucket_bounds()
    ensures
        LATENCY_BUCKETS_MS@ == seq![
            10u64,
            50u64,
            100u64,
            250u64,
            500u64,
            1_000u64,
            2_500u64,
            5_000u64,
            10_000u64,
        ],
        INF_BUCKET == 9,
{
    assert(LATENCY_BUCKETS_MS@ =~= seq![
        10u64,
        50u64,
        100u64,
        250u64,
        500u64,
        1_000u64,
        2_500u64,
        5_000u64,
        10_000u64,
    ]);
}

} // verus!
