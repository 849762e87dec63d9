//! Counters that wrap around at the top of their range.

use vstd::prelude::*;

verus! {

/// The value of a 64-bit counter that has been advanced by `n` in all.
pub open spec fn wrapped(n: int) -> u64 {
    (n % 0x1_0000_0000_0000_0000) as u64
}

/// Advances a counter by `amount`, starting over from 0 past its maximum.
pub fn advance(counter: u64, amount: u64) -> (advanced: u64)
    ensures
        advanced == wrapped(counter + amount),
{
    counter.wrapping_add(amount)
}

/// Advancing twice is advancing once by the sum.
pub proof fn law_advances_add_up(a: int, b: int)
    ensures
        wrapped(wrapped(a) + b) == wrapped(a + b),
{
    let m: int = 0x1_0000_0000_0000_0000;
    assert((a % m + b) % m == (a + b) % m) by (nonlinear_arith)
        requires
            m == 0x1_0000_0000_0000_0000,
    ;
}

/// A total that fits in 64 bits is counted exactly.
pub proof fn law_small_totals_are_exact(n: int)
    requires
        0 <= n <= u64::MAX,
    ensures
        wrapped(n) == n,
{
}

/// How many of `events` satisfy `pred`.
pub open spec fn tally<E>(events: Seq<E>, pred: spec_fn(E) -> bool) -> nat
    decreases events.len(),
{
    if events.len() == 0 {
        0
    } else {
        tally(events.drop_last(), pred) + if pred(events.last()) {
            1nat
        } else {
            0nat
        }
    }
}

/// A weaker condition is met at least as often, and no more often than there
/// are events.
pub proof fn law_tally_is_monotone<E>(
    events: Seq<E>,
    narrow: spec_fn(E) -> bool,
    wide: spec_fn(E) -> bool,
)
    requires
        forall|e: E| #[trigger] narrow(e) ==> wide(e),
    ensures
        tally(events, narrow) <= tally(events, wide) <= events.len(),
    decreases events.len(),
{
    if events.len() > 0 {
        law_tally_is_monotone(events.drop_last(), narrow, wide);
    }
}

/// A counter starts over from where it was after every full round.
pub proof fn law_counter_starts_over(n: int)
    ensures
        wrapped(n + 0x1_0000_0000_0000_0000) == wrapped(n),
        wrapped(0x1_0000_0000_0000_0000) == 0,
{
    assert((n + 0x1_0000_0000_0000_0000) % 0x1_0000_0000_0000_0000 == n
        % 0x1_0000_0000_0000_0000) by (nonlinear_arith);
}

/// One more advance by 1 gives the next number, and 0 behind the largest.
pub proof fn law_counter_steps_by_one(n: int)
    ensures
        wrapped(n + 1) == if wrapped(n) == u64::MAX {
            0
        } else {
            wrapped(n) + 1
        },
{
}

/// One more event raises a tally by one exactly when it satisfies the
/// condition.
pub proof fn law_tally_grows_event_by_event<E>(events: Seq<E>, event: E, pred: spec_fn(E) -> bool)
    ensures
        tally(Seq::<E>::empty(), pred) == 0,
        pred(event) ==> tally(events.push(event), pred) == tally(events, pred) + 1,
        !pred(event) ==> tally(events.push(event), pred) == tally(events, pred),
{
    assert(events.push(event).drop_last() =~= events);
}

/// Over a history that is no longer than a counter can hold, a tally is counted
/// exactly.
pub proof fn law_short_histories_are_counted_exactly<E>(events: Seq<E>, pred: spec_fn(E) -> bool)
    requires
        events.len() <= u64::MAX,
    ensures
        wrapped(tally(events, pred) as int) == tally(events, pred),
{
    law_tally_is_monotone(events, pred, pred);
}

} // verus!
