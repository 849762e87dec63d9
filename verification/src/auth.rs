//! Outcomes of request authentication.

use vstd::prelude::*;

use crate::counter::{advance, tally, wrapped};
use crate::counter::{law_advances_add_up, law_short_histories_are_counted_exactly};

verus! {

/// Outcome counters for the authentication middleware, so credential-stuffing
/// or misconfigured-client traffic is visible on the metrics page.
pub struct AuthMetrics {
    /// Requests that presented a valid API key.
    success: u64,
    /// Requests with no (or a malformed) `Authorization: Bearer` header.
    failure_missing_key: u64,
    /// Requests with a well-formed key that didn't match any merchant.
    failure_invalid_key: u64,
    /// Requests that failed the key lookup itself (database error).
    failure_internal_error: u64,
}

/// What an [`AuthMetrics`] has counted.
pub struct AuthCounts {
    pub success: u64,
    pub failure_missing_key: u64,
    pub failure_invalid_key: u64,
    pub failure_internal_error: u64,
}

/// The outcome of one authentication attempt.
pub enum AuthEvent {
    /// A request presented a valid API key.
    Success,
    /// A request had no (or a malformed) `Authorization: Bearer` header.
    MissingKey,
    /// A request had a well-formed key that didn't match any merchant.
    InvalidKey,
    /// The key lookup itself failed.
    InternalError,
}

/// Nothing counted.
pub open spec fn no_attempts() -> AuthCounts {
    AuthCounts {
        success: 0,
        failure_missing_key: 0,
        failure_invalid_key: 0,
        failure_internal_error: 0,
    }
}

/// The counts after one more event.
pub open spec fn counted(counts: AuthCounts, event: AuthEvent) -> AuthCounts {
    match event {
        AuthEvent::Success => AuthCounts {
            success: wrapped(counts.success + 1),
            ..counts
        },
        AuthEvent::MissingKey => AuthCounts {
            failure_missing_key: wrapped(counts.failure_missing_key + 1),
            ..counts
        },
        AuthEvent::InvalidKey => AuthCounts {
            failure_invalid_key: wrapped(counts.failure_invalid_key + 1),
            ..counts
        },
        AuthEvent::InternalError => AuthCounts {
            failure_internal_error: wrapped(counts.failure_internal_error + 1),
            ..counts
        },
    }
}

impl View for AuthMetrics {
    type V = AuthCounts;

    closed spec fn view(&self) -> AuthCounts {
        AuthCounts {
            success: self.success,
            failure_missing_key: self.failure_missing_key,
            failure_invalid_key: self.failure_invalid_key,
            failure_internal_error: self.failure_internal_error,
        }
    }
}

impl AuthMetrics {
    /// Nothing counted yet.
    pub fn new() -> (metrics: Self)
        ensures
            metrics@ == no_attempts(),
    {
        AuthMetrics {
            success: 0,
            failure_missing_key: 0,
            failure_invalid_key: 0,
            failure_internal_error: 0,
        }
    }

    /// Records a request with a valid API key.
    pub fn record_success(&mut self)
        ensures
            final(self)@ == counted(old(self)@, AuthEvent::Success),
    {
        self.success = advance(self.success, 1);
    }

    /// Records a request without a well-formed key.
    pub fn record_failure_missing_key(&mut self)
        ensures
            final(self)@ == counted(old(self)@, AuthEvent::MissingKey),
    {
        self.failure_missing_key = advance(self.failure_missing_key, 1);
    }

    /// Records a request whose key matched no merchant.
    pub fn record_failure_invalid_key(&mut self)
        ensures
            final(self)@ == counted(old(self)@, AuthEvent::InvalidKey),
    {
        self.failure_invalid_key = advance(self.failure_invalid_key, 1);
    }

    /// Records a request that failed the key lookup itself.
    pub fn record_failure_internal_error(&mut self)
        ensures
            final(self)@ == counted(old(self)@, AuthEvent::InternalError),
    {
        self.failure_internal_error = advance(self.failure_internal_error, 1);
    }

    /// Requests that presented a valid API key.
    pub fn success(&self) -> (count: u64)
        ensures
            count == self@.success,
    {
        self.success
    }

    /// Requests with no (or a malformed) `Authorization: Bearer` header.
    pub fn failure_missing_key(&self) -> (count: u64)
        ensures
            count == self@.failure_missing_key,
    {
        self.failure_missing_key
    }

    /// Requests with a well-formed key that didn't match any merchant.
    pub fn failure_invalid_key(&self) -> (count: u64)
        ensures
            count == self@.failure_invalid_key,
    {
        self.failure_invalid_key
    }

    /// Requests that failed the key lookup itself.
    pub fn failure_internal_error(&self) -> (count: u64)
        ensures
            count == self@.failure_internal_error,
    {
        self.failure_internal_error
    }
}

impl Default for AuthMetrics {
    fn default() -> (metrics: Self)
        ensures
            metrics@ == no_attempts(),
    {
        AuthMetrics::new()
    }
}

/// The counts after `events`, in the order given, from nothing.
pub open spec fn replayed(events: Seq<AuthEvent>) -> AuthCounts
    decreases events.len(),
{
    if events.len() == 0 {
        no_attempts()
    } else {
        counted(replayed(events.drop_last()), events.last())
    }
}

/// Being `event`.
pub open spec fn is_event(event: AuthEvent) -> spec_fn(AuthEvent) -> bool {
    |e: AuthEvent| e == event
}

/// Every counter holds the number of its events, modulo the range of a
/// counter.
pub proof fn law_counts_are_tallies(events: Seq<AuthEvent>)
    ensures
        replayed(events) == (AuthCounts {
            success: wrapped(tally(events, is_event(AuthEvent::Success)) as int),
            failure_missing_key: wrapped(tally(events, is_event(AuthEvent::MissingKey)) as int),
            failure_invalid_key: wrapped(tally(events, is_event(AuthEvent::InvalidKey)) as int),
            failure_internal_error: wrapped(
                tally(events, is_event(AuthEvent::InternalError)) as int,
            ),
        }),
    decreases events.len(),
{
    if events.len() > 0 {
        let earlier = events.drop_last();
        law_counts_are_tallies(earlier);
        law_advances_add_up(tally(earlier, is_event(events.last())) as int, 1);
    }
}

/// Two events give the same counts in either order, so concurrent recorders
/// need no agreement on who comes first.
pub proof fn law_events_commute(counts: AuthCounts, first: AuthEvent, second: AuthEvent)
    ensures
        counted(counted(counts, first), second) == counted(counted(counts, second), first),
{
}

/// Each outcome raises its own counter by one, which starts over behind the
/// largest number, and leaves everything else as it was.
pub proof fn law_outcome_raises_its_own_counter(counts: AuthCounts)
    ensures
        ({
            let after = counted(counts, AuthEvent::Success);
            &&& after.success == if counts.success == u64::MAX {
                0
            } else {
                counts.success + 1
            }
            &&& after == (AuthCounts { success: after.success, ..counts })
        }),
        ({
            let after = counted(counts, AuthEvent::MissingKey);
            &&& after.failure_missing_key == if counts.failure_missing_key == u64::MAX {
                0
            } else {
                counts.failure_missing_key + 1
            }
            &&& after == (AuthCounts { failure_missing_key: after.failure_missing_key, ..counts })
        }),
        ({
            let after = counted(counts, AuthEvent::InvalidKey);
            &&& after.failure_invalid_key == if counts.failure_invalid_key == u64::MAX {
                0
            } else {
                counts.failure_invalid_key + 1
            }
            &&& after == (AuthCounts { failure_invalid_key: after.failure_invalid_key, ..counts })
        }),
        ({
            let after = counted(counts, AuthEvent::InternalError);
            &&& after.failure_internal_error == if counts.failure_internal_error == u64::MAX {
                0
            } else {
                counts.failure_internal_error + 1
            }
            &&& after == (AuthCounts {
                failure_internal_error: after.failure_internal_error,
                ..counts
            })
        }),
{
}

/// No more events than a counter can hold are counted exactly, outcome by
/// outcome, from 0 on.
pub proof fn law_outcomes_are_counted_exactly(events: Seq<AuthEvent>)
    requires
        events.len() <= u64::MAX,
    ensures
        replayed(events).success == tally(events, is_event(AuthEvent::Success)),
        replayed(events).failure_missing_key == tally(events, is_event(AuthEvent::MissingKey)),
        replayed(events).failure_invalid_key == tally(events, is_event(AuthEvent::InvalidKey)),
        replayed(events).failure_internal_error == tally(
            events,
            is_event(AuthEvent::InternalError),
        ),
        replayed(Seq::empty()) == no_attempts(),
        no_attempts().success == 0,
        no_attempts().failure_missing_key == 0,
        no_attempts().failure_invalid_key == 0,
        no_attempts().failure_internal_error == 0,
{
    law_counts_are_tallies(events);
    law_short_histories_are_counted_exactly(events, is_event(AuthEvent::Success));
    law_short_histories_are_counted_exactly(events, is_event(AuthEvent::MissingKey));
    law_short_histories_are_counted_exactly(events, is_event(AuthEvent::InvalidKey));
    law_short_histories_are_counted_exactly(events, is_event(AuthEvent::InternalError));
}

} // verus!
