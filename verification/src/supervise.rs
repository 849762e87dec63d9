//! Supervisor for long-running background tasks.
//!
//! Each worker runs as a child task. A panic (or an unexpected return) is
//! counted immediately, then the worker is restarted with bounded exponential
//! backoff, until the shutdown flag is true. [`Supervisor`] holds the
//! decisions: it is told what happened, and says what to note in the task's
//! health record and what to do next.

use vstd::arithmetic::power2::{lemma2_to64, lemma_pow2_unfold, pow2};
use vstd::prelude::*;

use crate::counter::tally;
use crate::duration::{Duration, NANOS_PER_SEC};

verus! {

/// Backoff (and stability) knobs. Production uses [`Backoff::default`]: 1s
/// doubling to 60s, stable after 5s without a panic.
#[derive(Debug, Clone, Copy)]
pub struct Backoff {
    pub initial: Duration,
    pub max: Duration,
    /// How long a replacement must run before consecutive panics are cleared.
    pub stability: Duration,
}

impl Default for Backoff {
    fn default() -> (backoff: Self)
        ensures
            backoff.initial@ == NANOS_PER_SEC,
            backoff.max@ == 60 * NANOS_PER_SEC,
            backoff.stability@ == 5 * NANOS_PER_SEC,
    {
        Backoff {
            initial: Duration::from_secs(1),
            max: Duration::from_secs(60),
            stability: Duration::from_secs(5),
        }
    }
}

/// How a child task ended.
#[derive(Debug, Clone, Copy, PartialEq, Eq, Structural)]
pub enum Outcome {
    /// It returned.
    Returned,
    /// It panicked.
    Panicked,
    /// It was cancelled.
    Cancelled,
}

/// What the surroundings report to the supervisor.
#[derive(Debug, Clone, Copy, PartialEq, Eq, Structural)]
pub enum Event {
    /// The shutdown flag was read.
    Flag(bool),
    /// Somebody sent on the shutdown flag; `shutdown` is the flag as read right
    /// after. A flag that is still false leaves everything as it is.
    ShutdownSent { shutdown: bool },
    /// Nobody can send on the shutdown flag any more, so it stays false.
    /// Supervision goes on.
    SendersGone,
    /// The child has run for the stability period.
    StabilityElapsed,
    /// The child ended; `shutdown` is the flag as read right after.
    ChildEnded { outcome: Outcome, shutdown: bool },
    /// The child that was left to finish during shutdown has ended.
    ChildDrained,
    /// The backoff delay has passed.
    DelayElapsed,
}

/// What goes into the task's health record.
#[derive(Debug, Clone, Copy, PartialEq, Eq, Structural)]
pub enum Note {
    /// The task started.
    Started,
    /// The task stopped without a panic.
    Stopped,
    /// The task panicked.
    Failed,
    /// The supervisor is about to restart the task.
    Restarted,
    /// The task has run stably.
    Stable,
}

/// What to do before waiting for the next event.
#[derive(Debug, Clone, Copy, PartialEq, Eq, Structural)]
pub enum Action {
    /// Nothing new: wait on, for what is still running and for the rest of what
    /// has begun.
    Wait,
    /// Spawn the child and begin its stability period, of this length.
    Spawn(Duration),
    /// Begin a delay of this length.
    Delay(Duration),
    /// Supervision is over.
    Exit,
}

/// Where the supervisor stands, and what it waits for.
#[derive(Debug, Clone, Copy, PartialEq, Eq, Structural)]
pub enum Phase {
    /// About to start the child, unless the shutdown flag is true: the flag is
    /// to be read.
    Starting,
    /// The child is running; `stable` once it has done so for the stability
    /// period. Waits for the shutdown flag, for the rest of the stability
    /// period unless it is over, and for the child's end, in that order of
    /// preference.
    Running { stable: bool },
    /// The shutdown flag is true and the child is left to finish. Waits for the
    /// child's end alone.
    Draining,
    /// The child has ended and its replacement is delayed. Waits for the
    /// shutdown flag and for the rest of the delay, in that order of
    /// preference.
    BackingOff,
    /// Over.
    Done,
}

/// The state of a supervisor: its knobs in nanoseconds, the next delay, whether
/// anybody can still send on the shutdown flag, and the phase.
pub struct SupervisorState {
    pub max: nat,
    pub stability: nat,
    pub delay: nat,
    pub watched: bool,
    pub phase: Phase,
}

/// `event` is about the shutdown flag while something else is waited for.
pub open spec fn is_about_flag(event: Event) -> bool {
    event is ShutdownSent || event is SendersGone
}

/// `event` can happen in `state`.
pub open spec fn expected(state: SupervisorState, event: Event) -> bool {
    match state.phase {
        Phase::Starting => event is Flag,
        Phase::Running { stable } => {
            ||| is_about_flag(event) && state.watched
            ||| event is StabilityElapsed && !stable
            ||| event is ChildEnded
        },
        Phase::Draining => event is ChildDrained,
        Phase::BackingOff => is_about_flag(event) && state.watched || event is DelayElapsed,
        Phase::Done => false,
    }
}

/// The child panicked, and the shutdown flag was false.
pub open spec fn is_panic(event: Event) -> bool {
    event == (Event::ChildEnded { outcome: Outcome::Panicked, shutdown: false })
}

/// The child returned, and the shutdown flag was false.
pub open spec fn is_return(event: Event) -> bool {
    event == (Event::ChildEnded { outcome: Outcome::Returned, shutdown: false })
}

/// `event` asks for supervision to end: it shows the shutdown flag as true, or
/// is the child's cancellation.
pub open spec fn asks_to_stop(event: Event) -> bool {
    match event {
        Event::Flag(shutdown) => shutdown,
        Event::ShutdownSent { shutdown } => shutdown,
        Event::SendersGone => false,
        Event::ChildEnded { outcome, shutdown } => shutdown || outcome == Outcome::Cancelled,
        Event::StabilityElapsed => false,
        Event::ChildDrained => false,
        Event::DelayElapsed => false,
    }
}

/// The delay that follows `delay`: twice as long, up to `max`.
pub open spec fn doubled(delay: nat, max: nat) -> nat {
    if 2 * delay <= max {
        2 * delay
    } else {
        max
    }
}

/// The phase after `event`.
pub open spec fn next_phase(phase: Phase, event: Event) -> Phase {
    if phase is Running && event == (Event::ShutdownSent { shutdown: true }) {
        Phase::Draining
    } else if asks_to_stop(event) {
        Phase::Done
    } else {
        match event {
            Event::Flag(_) => Phase::Running { stable: false },
            Event::ShutdownSent { .. } => phase,
            Event::SendersGone => phase,
            Event::StabilityElapsed => Phase::Running { stable: true },
            Event::ChildEnded { .. } => Phase::BackingOff,
            Event::ChildDrained => Phase::Done,
            Event::DelayElapsed => Phase::Starting,
        }
    }
}

/// The state after `event`: the delay doubles each time one has passed, and the
/// flag is watched as long as somebody can send on it.
pub open spec fn next_state(state: SupervisorState, event: Event) -> SupervisorState {
    SupervisorState {
        max: state.max,
        stability: state.stability,
        delay: if event is DelayElapsed {
            doubled(state.delay, state.max)
        } else {
            state.delay
        },
        watched: state.watched && !(event is SendersGone),
        phase: next_phase(state.phase, event),
    }
}

/// What `event` adds to the health record, in order.
pub open spec fn notes_on(phase: Phase, event: Event) -> Seq<Note> {
    if is_about_flag(event) && !asks_to_stop(event) {
        seq![]
    } else if next_phase(phase, event) is Done {
        seq![Note::Stopped]
    } else if is_panic(event) {
        seq![Note::Failed, Note::Restarted]
    } else if is_return(event) {
        seq![Note::Stopped, Note::Restarted]
    } else if event is Flag {
        seq![Note::Started]
    } else if event is StabilityElapsed {
        seq![Note::Stable]
    } else {
        seq![]
    }
}

/// `action` is what `event` in `state` calls for: a child with its stability
/// period each time the flag is read as false, a delay each time a child has
/// panicked or returned, the end, and otherwise nothing new.
pub open spec fn is_due(action: Action, state: SupervisorState, event: Event) -> bool {
    if event == Event::Flag(false) {
        action matches Action::Spawn(period) && period@ == state.stability
    } else if is_panic(event) || is_return(event) {
        action matches Action::Delay(delay) && delay@ == state.delay
    } else if next_phase(state.phase, event) is Done {
        action is Exit
    } else {
        action is Wait
    }
}

/// What comes of an event.
#[derive(Debug)]
pub struct Step {
    /// What to add to the health record, in order.
    pub notes: Vec<Note>,
    /// What to do then.
    pub action: Action,
}

/// The decisions of a supervisor.
#[derive(Debug)]
pub struct Supervisor {
    max: Duration,
    stability: Duration,
    delay: Duration,
    watched: bool,
    phase: Phase,
}

impl View for Supervisor {
    type V = SupervisorState;

    closed spec fn view(&self) -> SupervisorState {
        SupervisorState {
            max: self.max@,
            stability: self.stability@,
            delay: self.delay@,
            watched: self.watched,
            phase: self.phase,
        }
    }
}

impl Supervisor {
    /// A supervisor that has not started its child yet. It waits for the
    /// shutdown flag to be read.
    pub fn new(backoff: Backoff) -> (supervisor: Self)
        ensures
            supervisor@ == initial_state(backoff),
    {
        Supervisor {
            max: backoff.max,
            stability: backoff.stability,
            delay: backoff.initial,
            watched: true,
            phase: Phase::Starting,
        }
    }

    /// Where the supervisor stands.
    pub fn phase(&self) -> (phase: Phase)
        ensures
            phase == self@.phase,
    {
        self.phase
    }

    /// Whether the shutdown flag is to be waited for: whether anybody can still
    /// send on it.
    pub fn watches_flag(&self) -> (watched: bool)
        ensures
            watched == self@.watched,
    {
        self.watched
    }

    /// Whether `event` can happen now.
    pub fn expects(&self, event: Event) -> (fits: bool)
        ensures
            fits == expected(self@, event),
    {
        match (self.phase, event) {
            (Phase::Starting, Event::Flag(_)) => true,
            (Phase::Running { .. }, Event::ShutdownSent { .. }) => self.watched,
            (Phase::Running { .. }, Event::SendersGone) => self.watched,
            (Phase::Running { stable }, Event::StabilityElapsed) => !stable,
            (Phase::Running { .. }, Event::ChildEnded { .. }) => true,
            (Phase::Draining, Event::ChildDrained) => true,
            (Phase::BackingOff, Event::ShutdownSent { .. }) => self.watched,
            (Phase::BackingOff, Event::SendersGone) => self.watched,
            (Phase::BackingOff, Event::DelayElapsed) => true,
            _ => false,
        }
    }

    /// Takes in `event` and returns what to add to the health record and what to
    /// do then.
    pub fn step(&mut self, event: Event) -> (step: Step)
        requires
            expected(old(self)@, event),
        ensures
            final(self)@ == next_state(old(self)@, event),
            step.notes@ == notes_on(old(self)@.phase, event),
            is_due(step.action, old(self)@, event),
    {
        let mut notes: Vec<Note> = Vec::new();
        let mut action: Action = Action::Wait;
        match event {
            Event::Flag(shutdown) => {
                if shutdown {
                    notes.push(Note::Stopped);
                    self.phase = Phase::Done;
                    action = Action::Exit;
                } else {
                    notes.push(Note::Started);
                    self.phase = Phase::Running { stable: false };
                    action = Action::Spawn(self.stability);
                }
            },
            Event::ShutdownSent { shutdown } => {
                if shutdown {
                    match self.phase {
                        Phase::Running { .. } => {
                            self.phase = Phase::Draining;
                        },
                        _ => {
                            notes.push(Note::Stopped);
                            self.phase = Phase::Done;
                            action = Action::Exit;
                        },
                    }
                }
            },
            Event::SendersGone => {
                self.watched = false;
            },
            Event::StabilityElapsed => {
                notes.push(Note::Stable);
                self.phase = Phase::Running { stable: true };
            },
            Event::ChildEnded { outcome, shutdown } => {
                if shutdown || outcome == Outcome::Cancelled {
                    notes.push(Note::Stopped);
                    self.phase = Phase::Done;
                    action = Action::Exit;
                } else {
                    if outcome == Outcome::Panicked {
                        notes.push(Note::Failed);
                    } else {
                        notes.push(Note::Stopped);
                    }
                    notes.push(Note::Restarted);
                    self.phase = Phase::BackingOff;
                    action = Action::Delay(self.delay);
                }
            },
            Event::ChildDrained => {
                notes.push(Note::Stopped);
                self.phase = Phase::Done;
                action = Action::Exit;
            },
            Event::DelayElapsed => {
                self.delay = self.delay.saturating_mul(2).min(self.max);
                self.phase = Phase::Starting;
            },
        }
        assert(notes@ =~= notes_on(old(self)@.phase, event));
        Step { notes, action }
    }
}

/// The state of a supervisor that has not started its child yet.
pub open spec fn initial_state(backoff: Backoff) -> SupervisorState {
    SupervisorState {
        max: backoff.max@,
        stability: backoff.stability@,
        delay: backoff.initial@,
        watched: true,
        phase: Phase::Starting,
    }
}

/// The state that a supervisor with the knobs `backoff` reaches on `events`.
pub open spec fn reached(backoff: Backoff, events: Seq<Event>) -> SupervisorState
    decreases events.len(),
{
    if events.len() == 0 {
        initial_state(backoff)
    } else {
        next_state(reached(backoff, events.drop_last()), events.last())
    }
}

/// The health record that a supervisor leaves on `events`.
pub open spec fn recorded(backoff: Backoff, events: Seq<Event>) -> Seq<Note>
    decreases events.len(),
{
    if events.len() == 0 {
        seq![]
    } else {
        recorded(backoff, events.drop_last()) + notes_on(
            reached(backoff, events.drop_last()).phase,
            events.last(),
        )
    }
}

/// `events` can happen in this order.
pub open spec fn possible(backoff: Backoff, events: Seq<Event>) -> bool
    decreases events.len(),
{
    events.len() > 0 ==> {
        &&& possible(backoff, events.drop_last())
        &&& expected(reached(backoff, events.drop_last()), events.last())
    }
}

/// How often `note` is in the record.
pub open spec fn times(record: Seq<Note>, note: Note) -> nat {
    tally(record, is_note(note))
}

/// Being `note`.
pub open spec fn is_note(note: Note) -> spec_fn(Note) -> bool {
    |n: Note| n == note
}

/// What is met in two stretches is met in each.
proof fn lemma_tally_concat<E>(front: Seq<E>, back: Seq<E>, pred: spec_fn(E) -> bool)
    ensures
        tally(front + back, pred) == tally(front, pred) + tally(back, pred),
    decreases back.len(),
{
    if back.len() == 0 {
        assert(front + back =~= front);
    } else {
        assert((front + back).drop_last() =~= front + back.drop_last());
        lemma_tally_concat(front, back.drop_last(), pred);
    }
}

proof fn lemma_times_concat(front: Seq<Note>, back: Seq<Note>, note: Note)
    ensures
        times(front + back, note) == times(front, note) + times(back, note),
{
    lemma_tally_concat(front, back, is_note(note));
}

proof fn lemma_notes_on_tally(state: SupervisorState, event: Event, note: Note)
    requires
        expected(state, event),
    ensures
        times(notes_on(state.phase, event), note) == match note {
            Note::Started => if event == Event::Flag(false) {
                1nat
            } else {
                0
            },
            Note::Stopped => if next_phase(state.phase, event) is Done || is_return(event) {
                1
            } else {
                0
            },
            Note::Failed => if is_panic(event) {
                1
            } else {
                0
            },
            Note::Restarted => if is_panic(event) || is_return(event) {
                1
            } else {
                0
            },
            Note::Stable => if event is StabilityElapsed {
                1
            } else {
                0
            },
        },
{
    let notes = notes_on(state.phase, event);
    reveal_with_fuel(tally, 3);
    if notes.len() == 2 {
        assert(notes.drop_last() =~= seq![notes[0]]);
        assert(seq![notes[0]].drop_last() =~= seq![]);
    } else if notes.len() == 1 {
        assert(notes.drop_last() =~= seq![]);
    }
}

/// The record counts what happened: a start for each time the child was
/// spawned, a failure for each panic, a restart for each panic and each
/// unexpected return, a stop for each unexpected return and one for the end of
/// supervision, and a stable run for each stability period.
pub proof fn law_record_counts_events(backoff: Backoff, events: Seq<Event>)
    requires
        possible(backoff, events),
    ensures
        times(recorded(backoff, events), Note::Started) == tally(
            events,
            |e: Event| e == Event::Flag(false),
        ),
        times(recorded(backoff, events), Note::Failed) == tally(events, |e: Event| is_panic(e)),
        times(recorded(backoff, events), Note::Restarted) == tally(events, |e: Event| is_panic(e))
            + tally(events, |e: Event| is_return(e)),
        times(recorded(backoff, events), Note::Stopped) == tally(events, |e: Event| is_return(e))
            + if reached(backoff, events).phase is Done {
            1nat
        } else {
            0
        },
        times(recorded(backoff, events), Note::Stable) == tally(
            events,
            |e: Event| e is StabilityElapsed,
        ),
    decreases events.len(),
{
    if events.len() > 0 {
        let earlier = events.drop_last();
        let state = reached(backoff, earlier);
        let added = notes_on(state.phase, events.last());
        law_record_counts_events(backoff, earlier);
        lemma_notes_on_tally(state, events.last(), Note::Started);
        lemma_notes_on_tally(state, events.last(), Note::Stopped);
        lemma_notes_on_tally(state, events.last(), Note::Failed);
        lemma_notes_on_tally(state, events.last(), Note::Restarted);
        lemma_notes_on_tally(state, events.last(), Note::Stable);
        let record = recorded(backoff, earlier);
        lemma_times_concat(record, added, Note::Started);
        lemma_times_concat(record, added, Note::Stopped);
        lemma_times_concat(record, added, Note::Failed);
        lemma_times_concat(record, added, Note::Restarted);
        lemma_times_concat(record, added, Note::Stable);
    }
}

/// While a child runs there has been one start more than there were restarts;
/// between a child and its replacement there have been as many.
pub proof fn law_starts_match_restarts(backoff: Backoff, events: Seq<Event>)
    requires
        possible(backoff, events),
    ensures
        ({
            let started = times(recorded(backoff, events), Note::Started);
            let restarted = times(recorded(backoff, events), Note::Restarted);
            match reached(backoff, events).phase {
                Phase::Starting => started == restarted,
                Phase::Running { .. } => started == restarted + 1,
                Phase::Draining => started == restarted + 1,
                Phase::BackingOff => started == restarted,
                Phase::Done => started == restarted || started == restarted + 1,
            }
        }),
    decreases events.len(),
{
    law_record_counts_events(backoff, events);
    if events.len() > 0 {
        let earlier = events.drop_last();
        law_starts_match_restarts(backoff, earlier);
        law_record_counts_events(backoff, earlier);
    }
}

/// Each restart waits for one delay: while the replacement is delayed one more
/// restart than delays has been recorded, and as many once it is due.
pub proof fn law_one_delay_per_restart(backoff: Backoff, events: Seq<Event>)
    requires
        possible(backoff, events),
    ensures
        ({
            let restarted = times(recorded(backoff, events), Note::Restarted);
            let delays = tally(events, |e: Event| e is DelayElapsed);
            match reached(backoff, events).phase {
                Phase::Starting => restarted == delays,
                Phase::Running { .. } => restarted == delays,
                Phase::Draining => restarted == delays,
                Phase::BackingOff => restarted == delays + 1,
                Phase::Done => restarted == delays || restarted == delays + 1,
            }
        }),
    decreases events.len(),
{
    law_record_counts_events(backoff, events);
    if events.len() > 0 {
        let earlier = events.drop_last();
        law_one_delay_per_restart(backoff, earlier);
        law_record_counts_events(backoff, earlier);
    }
}

/// Each child is recorded as stable at most once.
pub proof fn law_stable_at_most_once_per_start(backoff: Backoff, events: Seq<Event>)
    requires
        possible(backoff, events),
    ensures
        times(recorded(backoff, events), Note::Stable) <= times(
            recorded(backoff, events),
            Note::Started,
        ),
        reached(backoff, events).phase == (Phase::Running { stable: false }) ==> times(
            recorded(backoff, events),
            Note::Stable,
        ) < times(recorded(backoff, events), Note::Started),
    decreases events.len(),
{
    law_record_counts_events(backoff, events);
    if events.len() > 0 {
        let earlier = events.drop_last();
        law_stable_at_most_once_per_start(backoff, earlier);
        law_record_counts_events(backoff, earlier);
    }
}

/// Supervision ends, or waits for the child to end for good, exactly when the
/// shutdown flag was found true or the child was cancelled. No number of
/// panics, of unexpected returns or of sends that leave the flag false ends it,
/// nor does the loss of all senders.
pub proof fn law_stops_only_when_asked(backoff: Backoff, events: Seq<Event>)
    requires
        possible(backoff, events),
    ensures
        (reached(backoff, events).phase is Done || reached(backoff, events).phase is Draining)
            <==> tally(events, |e: Event| asks_to_stop(e)) > 0,
        tally(events, |e: Event| asks_to_stop(e)) <= 1,
    decreases events.len(),
{
    if events.len() > 0 {
        law_stops_only_when_asked(backoff, events.drop_last());
    }
}

/// A send that leaves the shutdown flag false changes nothing, is not recorded,
/// and begins nothing: the same child, the same stability period and the same
/// delay go on.
pub proof fn law_false_send_changes_nothing(state: SupervisorState, action: Action)
    ensures
        next_state(state, Event::ShutdownSent { shutdown: false }) == state,
        notes_on(state.phase, Event::ShutdownSent { shutdown: false }) == Seq::<Note>::empty(),
        state.phase is Running || state.phase is BackingOff ==> (is_due(
            action,
            state,
            Event::ShutdownSent { shutdown: false },
        ) <==> action is Wait),
{
}

/// The loss of all senders ends only the watch on the flag: it is not recorded,
/// and begins nothing.
pub proof fn law_lost_senders_change_only_the_watch(state: SupervisorState, action: Action)
    ensures
        next_state(state, Event::SendersGone) == (SupervisorState { watched: false, ..state }),
        notes_on(state.phase, Event::SendersGone) == Seq::<Note>::empty(),
        state.phase is Running || state.phase is BackingOff ==> (is_due(
            action,
            state,
            Event::SendersGone,
        ) <==> action is Wait),
{
}

/// A send that leaves the shutdown flag false, wherever it comes in a run, can
/// be left out: the supervisor reaches the same state, leaves the same record
/// and can go through the same events.
pub proof fn law_false_send_can_be_left_out(
    backoff: Backoff,
    before: Seq<Event>,
    after: Seq<Event>,
)
    requires
        possible(backoff, before.push(Event::ShutdownSent { shutdown: false }) + after),
    ensures
        possible(backoff, before + after),
        reached(backoff, before.push(Event::ShutdownSent { shutdown: false }) + after) == reached(
            backoff,
            before + after,
        ),
        recorded(backoff, before.push(Event::ShutdownSent { shutdown: false }) + after)
            == recorded(backoff, before + after),
    decreases after.len(),
{
    let longer = before.push(Event::ShutdownSent { shutdown: false }) + after;
    let shorter = before + after;
    if after.len() == 0 {
        assert(longer.drop_last() =~= before);
        assert(shorter =~= before);
        assert(recorded(backoff, before) + Seq::<Note>::empty() =~= recorded(backoff, before));
    } else {
        let fewer = after.drop_last();
        assert(longer.drop_last() =~= before.push(Event::ShutdownSent { shutdown: false }) + fewer);
        assert(shorter.drop_last() =~= before + fewer);
        law_false_send_can_be_left_out(backoff, before, fewer);
    }
}

/// The record shows the task as running: of its starts, stops and failures the
/// last is a start.
pub open spec fn shows_running(record: Seq<Note>) -> bool
    decreases record.len(),
{
    if record.len() == 0 {
        false
    } else {
        match record.last() {
            Note::Started => true,
            Note::Stopped => false,
            Note::Failed => false,
            Note::Restarted => shows_running(record.drop_last()),
            Note::Stable => shows_running(record.drop_last()),
        }
    }
}

/// The panics in the record since the task last ran stably.
pub open spec fn panic_streak(record: Seq<Note>) -> nat
    decreases record.len(),
{
    if record.len() == 0 {
        0
    } else {
        match record.last() {
            Note::Stable => 0,
            Note::Failed => panic_streak(record.drop_last()) + 1,
            Note::Started => panic_streak(record.drop_last()),
            Note::Stopped => panic_streak(record.drop_last()),
            Note::Restarted => panic_streak(record.drop_last()),
        }
    }
}

/// The record before the notes of the last event, note by note.
proof fn lemma_record_steps(record: Seq<Note>, phase: Phase, event: Event)
    ensures
        ({
            let notes = notes_on(phase, event);
            let longer = record + notes;
            &&& notes.len() == 0 ==> longer == record
            &&& notes.len() == 1 ==> longer.last() == notes[0] && longer.drop_last() == record
            &&& notes.len() == 2 ==> {
                &&& longer.last() == notes[1]
                &&& longer.drop_last().last() == notes[0]
                &&& longer.drop_last().len() > 0
                &&& longer.drop_last().drop_last() == record
            }
            &&& notes.len() <= 2
        }),
{
    let notes = notes_on(phase, event);
    let longer = record + notes;
    if notes.len() == 0 {
        assert(longer =~= record);
    } else if notes.len() == 1 {
        assert(longer.drop_last() =~= record);
    } else {
        assert(longer.drop_last().drop_last() =~= record);
    }
}

/// The record shows the task as running exactly while a child runs; so a
/// replacement is marked running as soon as it is spawned.
pub proof fn law_record_shows_running(backoff: Backoff, events: Seq<Event>)
    requires
        possible(backoff, events),
    ensures
        shows_running(recorded(backoff, events)) <==> (reached(backoff, events).phase is Running
            || reached(backoff, events).phase is Draining),
    decreases events.len(),
{
    if events.len() > 0 {
        let earlier = events.drop_last();
        law_record_shows_running(backoff, earlier);
        lemma_record_steps(
            recorded(backoff, earlier),
            reached(backoff, earlier).phase,
            events.last(),
        );
        reveal_with_fuel(shows_running, 3);
    }
}

/// The panics since the child last ran stably.
pub open spec fn panics_since_stable(events: Seq<Event>) -> nat
    decreases events.len(),
{
    if events.len() == 0 || events.last() is StabilityElapsed {
        0
    } else {
        panics_since_stable(events.drop_last()) + if is_panic(events.last()) {
            1nat
        } else {
            0
        }
    }
}

/// The record's streak of panics grows with each panic, is cleared by a stable
/// run and by nothing else; so a crash loop shows in it while it goes on.
pub proof fn law_record_shows_crash_loops(backoff: Backoff, events: Seq<Event>)
    requires
        possible(backoff, events),
    ensures
        panic_streak(recorded(backoff, events)) == panics_since_stable(events),
    decreases events.len(),
{
    if events.len() > 0 {
        let earlier = events.drop_last();
        law_record_shows_crash_loops(backoff, earlier);
        lemma_record_steps(
            recorded(backoff, earlier),
            reached(backoff, earlier).phase,
            events.last(),
        );
        reveal_with_fuel(panic_streak, 3);
    }
}

/// The delay before the replacement that follows `n` earlier delays: the
/// initial delay at first, later that delay doubled `n` times, up to the
/// maximum.
pub open spec fn nth_delay(backoff: Backoff, n: nat) -> nat {
    if n == 0 {
        backoff.initial@
    } else if backoff.initial@ * pow2(n) <= backoff.max@ {
        backoff.initial@ * pow2(n)
    } else {
        backoff.max@
    }
}

/// How many delays have passed.
pub open spec fn delays_passed(events: Seq<Event>) -> nat {
    tally(events, |e: Event| e is DelayElapsed)
}

/// The delays grow exponentially: with each one that has passed the next
/// doubles, up to the maximum.
pub proof fn law_delays_grow_exponentially(backoff: Backoff, events: Seq<Event>)
    requires
        possible(backoff, events),
    ensures
        reached(backoff, events).delay == nth_delay(backoff, delays_passed(events)),
        reached(backoff, events).max == backoff.max@,
        reached(backoff, events).stability == backoff.stability@,
    decreases events.len(),
{
    if events.len() > 0 {
        let earlier = events.drop_last();
        law_delays_grow_exponentially(backoff, earlier);
        lemma_next_delay(backoff, delays_passed(earlier));
    }
}

proof fn lemma_next_delay(backoff: Backoff, n: nat)
    ensures
        doubled(nth_delay(backoff, n), backoff.max@) == nth_delay(backoff, n + 1),
{
    let first = backoff.initial@;
    lemma_pow2_unfold(n + 1);
    assert(first * (2 * pow2(n)) == 2 * (first * pow2(n))) by (nonlinear_arith);
    lemma2_to64();
    assert(first * pow2(0) == first) by (nonlinear_arith)
        requires
            pow2(0) == 1,
    ;
}

/// Every delay but the first is at most the maximum, and so is the first if
/// the knobs have it so; then the delays never shrink.
pub proof fn law_delays_are_bounded(backoff: Backoff, n: nat)
    ensures
        n > 0 || backoff.initial@ <= backoff.max@ ==> nth_delay(backoff, n) <= backoff.max@,
        backoff.initial@ <= backoff.max@ ==> nth_delay(backoff, n) <= nth_delay(backoff, n + 1),
{
    lemma_next_delay(backoff, n);
}

/// What one more event adds to a run.
proof fn lemma_one_more(backoff: Backoff, events: Seq<Event>, event: Event)
    ensures
        possible(backoff, events.push(event)) <==> possible(backoff, events) && expected(
            reached(backoff, events),
            event,
        ),
        reached(backoff, events.push(event)) == next_state(reached(backoff, events), event),
        recorded(backoff, events.push(event)) == recorded(backoff, events) + notes_on(
            reached(backoff, events).phase,
            event,
        ),
{
    assert(events.push(event).drop_last() =~= events);
}

/// Supervision begins with the initial delay, with the flag watched, and with
/// nothing on record.
pub proof fn law_supervision_begins_afresh(backoff: Backoff)
    ensures
        reached(backoff, seq![]) == (SupervisorState {
            max: backoff.max@,
            stability: backoff.stability@,
            delay: backoff.initial@,
            watched: true,
            phase: Phase::Starting,
        }),
        recorded(backoff, seq![]) == Seq::<Note>::empty(),
        possible(backoff, seq![]),
{
}

/// Which events a run can go on with: the flag is read before every start;
/// while a child runs it can end at any time, and become stable once; a child
/// that is left to finish does so; a delay passes; and the flag can be sent on
/// while a child runs or is delayed, until all senders are gone.
pub proof fn law_what_can_happen_next(backoff: Backoff, events: Seq<Event>, event: Event)
    requires
        possible(backoff, events),
    ensures
        possible(backoff, events.push(event)) <==> {
            let phase = reached(backoff, events).phase;
            match event {
                Event::Flag(_) => phase == Phase::Starting,
                Event::ShutdownSent { .. } | Event::SendersGone => (phase is Running || phase
                    == Phase::BackingOff) && reached(backoff, events).watched,
                Event::StabilityElapsed => phase == (Phase::Running { stable: false }),
                Event::ChildEnded { .. } => phase is Running,
                Event::ChildDrained => phase == Phase::Draining,
                Event::DelayElapsed => phase == Phase::BackingOff,
            }
        },
{
    lemma_one_more(backoff, events, event);
}

/// A flag that is read as false starts the child: the start is recorded, and the
/// child is spawned with the stability period of the knobs.
pub proof fn law_false_flag_starts_the_child(backoff: Backoff, events: Seq<Event>, action: Action)
    requires
        possible(backoff, events.push(Event::Flag(false))),
    ensures
        ({
            let event = Event::Flag(false);
            let after = events.push(event);
            &&& reached(backoff, after).phase == (Phase::Running { stable: false })
            &&& recorded(backoff, after) == recorded(backoff, events).push(Note::Started)
            &&& is_due(action, reached(backoff, events), event) <==> (
            action matches Action::Spawn(period) && period@ == backoff.stability@)
        }),
{
    let event = Event::Flag(false);
    lemma_one_more(backoff, events, event);
    law_delays_grow_exponentially(backoff, events);
}

/// A flag that is read as true ends supervision without another start.
pub proof fn law_true_flag_ends_before_the_start(
    backoff: Backoff,
    events: Seq<Event>,
    action: Action,
)
    requires
        possible(backoff, events.push(Event::Flag(true))),
    ensures
        ({
            let event = Event::Flag(true);
            let after = events.push(event);
            &&& reached(backoff, after).phase == Phase::Done
            &&& recorded(backoff, after) == recorded(backoff, events).push(Note::Stopped)
            &&& is_due(action, reached(backoff, events), event) <==> action is Exit
        }),
{
    let event = Event::Flag(true);
    lemma_one_more(backoff, events, event);
}

/// Shutdown while a child runs, stable or not, records nothing yet and leaves
/// the child to finish.
pub proof fn law_shutdown_waits_for_the_child(backoff: Backoff, events: Seq<Event>, action: Action)
    requires
        possible(backoff, events.push(Event::ShutdownSent { shutdown: true })),
        reached(backoff, events).phase is Running,
    ensures
        ({
            let event = Event::ShutdownSent { shutdown: true };
            let after = events.push(event);
            &&& reached(backoff, after).phase == Phase::Draining
            &&& recorded(backoff, after) == recorded(backoff, events)
            &&& is_due(action, reached(backoff, events), event) <==> action is Wait
        }),
{
    let event = Event::ShutdownSent { shutdown: true };
    lemma_one_more(backoff, events, event);
    assert(recorded(backoff, events.push(event)) =~= recorded(backoff, events));
}

/// When the child that was left to finish has ended, and not before, the stop is
/// recorded and supervision ends.
pub proof fn law_end_follows_the_drained_child(backoff: Backoff, events: Seq<Event>, action: Action)
    requires
        possible(backoff, events.push(Event::ChildDrained)),
    ensures
        ({
            let event = Event::ChildDrained;
            let after = events.push(event);
            &&& reached(backoff, after).phase == Phase::Done
            &&& recorded(backoff, after) == recorded(backoff, events).push(Note::Stopped)
            &&& is_due(action, reached(backoff, events), event) <==> action is Exit
        }),
{
    let event = Event::ChildDrained;
    lemma_one_more(backoff, events, event);
}

/// Shutdown during a delay ends supervision at once: no child is running.
pub proof fn law_shutdown_cuts_the_delay_short(backoff: Backoff, events: Seq<Event>, action: Action)
    requires
        possible(backoff, events.push(Event::ShutdownSent { shutdown: true })),
        reached(backoff, events).phase == Phase::BackingOff,
    ensures
        ({
            let event = Event::ShutdownSent { shutdown: true };
            let after = events.push(event);
            &&& reached(backoff, after).phase == Phase::Done
            &&& recorded(backoff, after) == recorded(backoff, events).push(Note::Stopped)
            &&& is_due(action, reached(backoff, events), event) <==> action is Exit
        }),
{
    let event = Event::ShutdownSent { shutdown: true };
    lemma_one_more(backoff, events, event);
}

/// A stability period that has passed is recorded, and the same child runs on.
pub proof fn law_stability_is_recorded(backoff: Backoff, events: Seq<Event>, action: Action)
    requires
        possible(backoff, events.push(Event::StabilityElapsed)),
    ensures
        ({
            let event = Event::StabilityElapsed;
            let after = events.push(event);
            &&& reached(backoff, after).phase == (Phase::Running { stable: true })
            &&& recorded(backoff, after) == recorded(backoff, events).push(Note::Stable)
            &&& is_due(action, reached(backoff, events), event) <==> action is Wait
        }),
{
    let event = Event::StabilityElapsed;
    lemma_one_more(backoff, events, event);
}

/// A panic is recorded at once as a failure and a restart, and the replacement
/// waits: the initial delay at first, and after `n` delays the initial delay
/// doubled `n` times, up to the maximum.
pub proof fn law_panic_is_recorded_and_delayed(backoff: Backoff, events: Seq<Event>, action: Action)
    requires
        possible(
            backoff,
            events.push(Event::ChildEnded { outcome: Outcome::Panicked, shutdown: false }),
        ),
    ensures
        ({
            let event = Event::ChildEnded { outcome: Outcome::Panicked, shutdown: false };
            let after = events.push(event);
            &&& reached(backoff, after).phase == Phase::BackingOff
            &&& recorded(backoff, after) == recorded(backoff, events).push(Note::Failed).push(
                Note::Restarted,
            )
            &&& is_due(action, reached(backoff, events), event) <==> (
            action matches Action::Delay(delay) && delay@ == if delays_passed(events) == 0 {
                backoff.initial@
            } else if backoff.initial@ * pow2(delays_passed(events)) <= backoff.max@ {
                backoff.initial@ * pow2(delays_passed(events))
            } else {
                backoff.max@
            })
        }),
{
    let event = Event::ChildEnded { outcome: Outcome::Panicked, shutdown: false };
    lemma_one_more(backoff, events, event);
    law_delays_grow_exponentially(backoff, events);
    assert(recorded(backoff, events.push(event)) =~= recorded(backoff, events).push(
        Note::Failed,
    ).push(Note::Restarted));
}

/// An unexpected return is recorded at once as a stop and a restart, and the
/// replacement waits as after a panic.
pub proof fn law_return_is_recorded_and_delayed(
    backoff: Backoff,
    events: Seq<Event>,
    action: Action,
)
    requires
        possible(
            backoff,
            events.push(Event::ChildEnded { outcome: Outcome::Returned, shutdown: false }),
        ),
    ensures
        ({
            let event = Event::ChildEnded { outcome: Outcome::Returned, shutdown: false };
            let after = events.push(event);
            &&& reached(backoff, after).phase == Phase::BackingOff
            &&& recorded(backoff, after) == recorded(backoff, events).push(Note::Stopped).push(
                Note::Restarted,
            )
            &&& is_due(action, reached(backoff, events), event) <==> (
            action matches Action::Delay(delay) && delay@ == if delays_passed(events) == 0 {
                backoff.initial@
            } else if backoff.initial@ * pow2(delays_passed(events)) <= backoff.max@ {
                backoff.initial@ * pow2(delays_passed(events))
            } else {
                backoff.max@
            })
        }),
{
    let event = Event::ChildEnded { outcome: Outcome::Returned, shutdown: false };
    lemma_one_more(backoff, events, event);
    law_delays_grow_exponentially(backoff, events);
    assert(recorded(backoff, events.push(event)) =~= recorded(backoff, events).push(
        Note::Stopped,
    ).push(Note::Restarted));
}

/// A child that ends after the flag became true, or by cancellation, ends
/// supervision with a clean stop, however the child ended.
pub proof fn law_child_ends_with_shutdown(
    backoff: Backoff,
    events: Seq<Event>,
    outcome: Outcome,
    shutdown: bool,
    action: Action,
)
    requires
        possible(backoff, events.push(Event::ChildEnded { outcome, shutdown })),
        shutdown || outcome == Outcome::Cancelled,
    ensures
        reached(backoff, events.push(Event::ChildEnded { outcome, shutdown })).phase
            == Phase::Done,
        recorded(backoff, events.push(Event::ChildEnded { outcome, shutdown })) == recorded(
            backoff,
            events,
        ).push(Note::Stopped),
        is_due(
            action,
            reached(backoff, events),
            Event::ChildEnded { outcome, shutdown },
        ) <==> action is Exit,
{
    lemma_one_more(backoff, events, Event::ChildEnded { outcome, shutdown });
}

/// A delay that has passed records nothing; the flag is read before the
/// replacement starts.
pub proof fn law_delay_leads_back_to_the_flag(backoff: Backoff, events: Seq<Event>, action: Action)
    requires
        possible(backoff, events.push(Event::DelayElapsed)),
    ensures
        ({
            let event = Event::DelayElapsed;
            let after = events.push(event);
            &&& reached(backoff, after).phase == Phase::Starting
            &&& recorded(backoff, after) == recorded(backoff, events)
            &&& is_due(action, reached(backoff, events), event) <==> action is Wait
        }),
{
    let event = Event::DelayElapsed;
    lemma_one_more(backoff, events, event);
    assert(recorded(backoff, events.push(event)) =~= recorded(backoff, events));
}

/// Only a delay that has passed changes the next delay: it becomes twice as
/// long, or the maximum where that is less.
pub proof fn law_delay_changes_by_doubling(backoff: Backoff, events: Seq<Event>, event: Event)
    requires
        possible(backoff, events.push(event)),
    ensures
        ({
            let before = reached(backoff, events).delay;
            let after = reached(backoff, events.push(event)).delay;
            if event is DelayElapsed {
                &&& after <= 2 * before
                &&& after <= backoff.max@
                &&& after == 2 * before || after == backoff.max@
            } else {
                after == before
            }
        }),
{
    lemma_one_more(backoff, events, event);
    law_delays_grow_exponentially(backoff, events);
}

/// Of two delays with one cycle between them the second is twice the first, or
/// the maximum where that is less.
pub proof fn law_successive_delays_double(
    backoff: Backoff,
    events: Seq<Event>,
    first_end: Event,
    second_end: Event,
    first: Duration,
    second: Duration,
)
    requires
        possible(
            backoff,
            events.push(first_end).push(Event::DelayElapsed).push(Event::Flag(false)).push(
                second_end,
            ),
        ),
        is_due(Action::Delay(first), reached(backoff, events), first_end),
        is_due(
            Action::Delay(second),
            reached(
                backoff,
                events.push(first_end).push(Event::DelayElapsed).push(Event::Flag(false)),
            ),
            second_end,
        ),
    ensures
        second@ <= 2 * first@,
        second@ <= backoff.max@,
        second@ == 2 * first@ || second@ == backoff.max@,
{
    let ended = events.push(first_end);
    let waited = ended.push(Event::DelayElapsed);
    let started = waited.push(Event::Flag(false));
    lemma_one_more(backoff, events, first_end);
    lemma_one_more(backoff, ended, Event::DelayElapsed);
    lemma_one_more(backoff, waited, Event::Flag(false));
    lemma_one_more(backoff, started, second_end);
    law_delays_grow_exponentially(backoff, events);
}

/// The flag is watched exactly until all senders are gone.
pub proof fn law_flag_is_watched_until_senders_are_gone(backoff: Backoff, events: Seq<Event>)
    requires
        possible(backoff, events),
    ensures
        reached(backoff, events).watched <==> forall|i: int|
            0 <= i < events.len() ==> #[trigger] events[i] != Event::SendersGone,
    decreases events.len(),
{
    if events.len() > 0 {
        let earlier = events.drop_last();
        law_flag_is_watched_until_senders_are_gone(backoff, earlier);
        assert forall|i: int| 0 <= i < earlier.len() implies #[trigger] earlier[i]
            == events[i] by {}
        if reached(backoff, events).watched {
            assert forall|i: int| 0 <= i < events.len() implies #[trigger] events[i]
                != Event::SendersGone by {
                if i < earlier.len() {
                    assert(earlier[i] == events[i]);
                }
            }
        } else if reached(backoff, earlier).watched {
            assert(events[events.len() - 1] == Event::SendersGone);
        } else {
            let i = choose|i: int| 0 <= i < earlier.len() && earlier[i] == Event::SendersGone;
            assert(events[i] == Event::SendersGone);
        }
    }
}

/// Supervision never ends, and no replacement starts, while a child may still
/// run: each spawned child has ended before, but for the one that runs or is
/// left to finish.
pub proof fn law_no_child_is_left_running(backoff: Backoff, events: Seq<Event>)
    requires
        possible(backoff, events),
    ensures
        tally(events, |e: Event| e == Event::Flag(false)) == tally(
            events,
            |e: Event| e is ChildEnded || e is ChildDrained,
        ) + if reached(backoff, events).phase is Running || reached(backoff, events).phase
            == Phase::Draining {
            1nat
        } else {
            0
        },
    decreases events.len(),
{
    if events.len() > 0 {
        law_no_child_is_left_running(backoff, events.drop_last());
    }
}

} // verus!
