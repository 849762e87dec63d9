//! Outcomes of the Horizon poller's cycles.

use vstd::prelude::*;

use crate::counter::{advance, tally, wrapped};
use crate::counter::{law_advances_add_up, law_short_histories_are_counted_exactly};

verus! {

/// Outcome counters for the Horizon poller's cycles, so throttling or sustained
/// failure is a queryable fact on the metrics page.
pub struct HorizonMetrics {
    /// Cycles that completed without error (whether or not anything settled).
    success: u64,
    /// Cycles that failed on a `429`/`503` from Horizon.
    rate_limited: u64,
    /// Cycles that failed for any other reason.
    error: u64,
    /// Times the stream listener reconnected: a closed connection, an HTTP
    /// error, or an idle timeout with no error at all.
    stream_reconnects: u64,
}

/// What a [`HorizonMetrics`] has counted.
pub struct HorizonCounts {
    pub success: u64,
    pub rate_limited: u64,
    pub error: u64,
    pub stream_reconnects: u64,
}

/// Something worth recording about the Horizon poller or stream listener.
pub enum HorizonEvent {
    /// A cycle completed without error.
    Success,
    /// A cycle failed on a `429`/`503` from Horizon.
    RateLimited,
    /// A cycle failed for any other reason.
    Error,
    /// The stream listener reconnected.
    StreamReconnect,
}

/// Nothing counted.
pub open spec fn no_cycles() -> HorizonCounts {
    HorizonCounts {
        success: 0,
        rate_limited: 0,
        error: 0,
        stream_reconnects: 0,
    }
}

/// The counts after one more event.
pub open spec fn counted(counts: HorizonCounts, event: HorizonEvent) -> HorizonCounts {
    match event {
        HorizonEvent::Success => HorizonCounts {
            success: wrapped(counts.success + 1),
            ..counts
        },
        HorizonEvent::RateLimited => HorizonCounts {
            rate_limited: wrapped(counts.rate_limited + 1),
            ..counts
        },
        HorizonEvent::Error => HorizonCounts {
            error: wrapped(counts.error + 1),
            ..counts
        },
        HorizonEvent::StreamReconnect => HorizonCounts {
            stream_reconnects: wrapped(counts.stream_reconnects + 1),
            ..counts
        },
    }
}

impl View for HorizonMetrics {
    type V = HorizonCounts;

    closed spec fn view(&self) -> HorizonCounts {
        HorizonCounts {
            success: self.success,
            rate_limited: self.rate_limited,
            error: self.error,
            stream_reconnects: self.stream_reconnects,
        }
    }
}

impl HorizonMetrics {
    /// Nothing counted yet.
    pub fn new() -> (metrics: Self)
        ensures
            metrics@ == no_cycles(),
    {
        HorizonMetrics {
            success: 0,
            rate_limited: 0,
            error: 0,
            stream_reconnects: 0,
        }
    }

    /// Records a cycle without error.
    pub fn record_success(&mut self)
        ensures
            final(self)@ == counted(old(self)@, HorizonEvent::Success),
    {
        self.success = advance(self.success, 1);
    }

    /// Records a cycle that Horizon throttled.
    pub fn record_rate_limited(&mut self)
        ensures
            final(self)@ == counted(old(self)@, HorizonEvent::RateLimited),
    {
        self.rate_limited = advance(self.rate_limited, 1);
    }

    /// Records a cycle that failed for any other reason.
    pub fn record_error(&mut self)
        ensures
            final(self)@ == counted(old(self)@, HorizonEvent::Error),
    {
        self.error = advance(self.error, 1);
    }

    /// Records a reconnection of the stream listener.
    pub fn record_stream_reconnect(&mut self)
        ensures
            final(self)@ == counted(old(self)@, HorizonEvent::StreamReconnect),
    {
        self.stream_reconnects = advance(self.stream_reconnects, 1);
    }

    /// Cycles that completed without error.
    pub fn success(&self) -> (count: u64)
        ensures
            count == self@.success,
    {
        self.success
    }

    /// Cycles that failed on a `429`/`503` from Horizon.
    pub fn rate_limited(&self) -> (count: u64)
        ensures
            count == self@.rate_limited,
    {
        self.rate_limited
    }

    /// Cycles that failed for any other reason.
    pub fn error(&self) -> (count: u64)
        ensures
            count == self@.error,
    {
        self.error
    }

    /// Times the stream listener reconnected.
    pub fn stream_reconnects(&self) -> (count: u64)
        ensures
            count == self@.stream_reconnects,
    {
        self.stream_reconnects
    }
}

impl Default for HorizonMetrics {
    fn default() -> (metrics: Self)
        ensures
            metrics@ == no_cycles(),
    {
        HorizonMetrics::new()
    }
}

/// The counts after `events`, in the order given, from nothing.
pub open spec fn replayed(events: Seq<HorizonEvent>) -> HorizonCounts
    decreases events.len(),
{
    if events.len() == 0 {
        no_cycles()
    } else {
        counted(replayed(events.drop_last()), events.last())
    }
}

/// Being `event`.
pub open spec fn is_event(event: HorizonEvent) -> spec_fn(HorizonEvent) -> bool {
    |e: HorizonEvent| e == event
}

/// Every counter holds the number of its events, modulo the range of a
/// counter.
pub proof fn law_counts_are_tallies(events: Seq<HorizonEvent>)
    ensures
        replayed(events) == (HorizonCounts {
            success: wrapped(tally(events, is_event(HorizonEvent::Success)) as int),
            rate_limited: wrapped(tally(events, is_event(HorizonEvent::RateLimited)) as int),
            error: wrapped(tally(events, is_event(HorizonEvent::Error)) as int),
            stream_reconnects: wrapped(
                tally(events, is_event(HorizonEvent::StreamReconnect)) as int,
            ),
        }),
    decreases events.len(),
{
    if events.len() > 0 {
        let earlier = events.drop_last();
        law_counts_are_tallies(earlier);
        law_advances_add_up(tally(earlier, is_event(events.last())) as int, 1);
    }
}

/// Two events give the same counts in either order, so concurrent recorders
/// need no agreement on who comes first.
pub proof fn law_events_commute(counts: HorizonCounts, first: HorizonEvent, second: HorizonEvent)
    ensures
        counted(counted(counts, first), second) == counted(counted(counts, second), first),
{
}

/// Each outcome raises its own counter by one, which starts over behind the
/// largest number, and leaves everything else as it was.
pub proof fn law_outcome_raises_its_own_counter(counts: HorizonCounts)
    ensures
        ({
            let after = counted(counts, HorizonEvent::Success);
            &&& after.success == if counts.success == u64::MAX {
                0
            } else {
                counts.success + 1
            }
            &&& after == (HorizonCounts { success: after.success, ..counts })
        }),
        ({
            let after = counted(counts, HorizonEvent::RateLimited);
            &&& after.rate_limited == if counts.rate_limited == u64::MAX {
                0
            } else {
                counts.rate_limited + 1
            }
            &&& after == (HorizonCounts { rate_limited: after.rate_limited, ..counts })
        }),
        ({
            let after = counted(counts, HorizonEvent::Error);
            &&& after.error == if counts.error == u64::MAX {
                0
            } else {
                counts.error + 1
            }
            &&& after == (HorizonCounts { error: after.error, ..counts })
        }),
        ({
            let after = counted(counts, HorizonEvent::StreamReconnect);
            &&& after.stream_reconnects == if counts.stream_reconnects == u64::MAX {
                0
            } else {
                counts.stream_reconnects + 1
            }
            &&& after == (HorizonCounts { stream_reconnects: after.stream_reconnects, ..counts })
        }),
{
}

/// No more events than a counter can hold are counted exactly, outcome by
/// outcome, from 0 on.
pub proof fn law_outcomes_are_counted_exactly(events: Seq<HorizonEvent>)
    requires
        events.len() <= u64::MAX,
    ensures
        replayed(events).success == tally(events, is_event(HorizonEvent::Success)),
        replayed(events).rate_limited == tally(events, is_event(HorizonEvent::RateLimited)),
        replayed(events).error == tally(events, is_event(HorizonEvent::Error)),
        replayed(events).stream_reconnects == tally(
            events,
            is_event(HorizonEvent::StreamReconnect),
        ),
        replayed(Seq::empty()) == no_cycles(),
        no_cycles().success == 0,
        no_cycles().rate_limited == 0,
        no_cycles().error == 0,
        no_cycles().stream_reconnects == 0,
{
    law_counts_are_tallies(events);
    law_short_histories_are_counted_exactly(events, is_event(HorizonEvent::Success));
    law_short_histories_are_counted_exactly(events, is_event(HorizonEvent::RateLimited));
    law_short_histories_are_counted_exactly(events, is_event(HorizonEvent::Error));
    law_short_histories_are_counted_exactly(events, is_event(HorizonEvent::StreamReconnect));
}

} // verus!
