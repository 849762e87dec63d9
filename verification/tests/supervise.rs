use stellargate::supervise::{Action, Event, Note, Outcome, Phase};
use stellargate::{Backoff, Duration, Supervisor};

fn fast_backoff() -> Backoff {
    Backoff {
        initial: Duration::from_millis(5),
        max: Duration::from_millis(20),
        stability: Duration::from_millis(30),
    }
}

fn ended(outcome: Outcome) -> Event {
    Event::ChildEnded { outcome, shutdown: false }
}

fn sent(shutdown: bool) -> Event {
    Event::ShutdownSent { shutdown }
}

fn feed(supervisor: &mut Supervisor, event: Event) -> (Vec<Note>, Action) {
    assert!(supervisor.expects(event));
    let step = supervisor.step(event);
    (step.notes, step.action)
}

fn millis(n: u64) -> Duration {
    Duration::from_millis(n)
}

#[test]
fn production_backoff() {
    let backoff = Backoff::default();
    assert_eq!(backoff.initial, Duration::from_secs(1));
    assert_eq!(backoff.max, Duration::from_secs(60));
    assert_eq!(backoff.stability, Duration::from_secs(5));
}

#[test]
fn a_panicking_task_is_counted_at_once_and_restarted() {
    let mut s = Supervisor::new(fast_backoff());
    assert_eq!(s.phase(), Phase::Starting);
    assert_eq!(
        feed(&mut s, Event::Flag(false)),
        (vec![Note::Started], Action::Spawn(millis(30)))
    );
    assert_eq!(
        feed(&mut s, ended(Outcome::Panicked)),
        (vec![Note::Failed, Note::Restarted], Action::Delay(millis(5)))
    );
    assert_eq!(feed(&mut s, Event::DelayElapsed), (vec![], Action::Wait));
    assert_eq!(s.phase(), Phase::Starting);
    assert_eq!(
        feed(&mut s, Event::Flag(false)),
        (vec![Note::Started], Action::Spawn(millis(30)))
    );
    assert_eq!(s.phase(), Phase::Running { stable: false });
    assert_eq!(feed(&mut s, sent(true)), (vec![], Action::Wait));
    assert_eq!(s.phase(), Phase::Draining);
    assert_eq!(
        feed(&mut s, Event::ChildDrained),
        (vec![Note::Stopped], Action::Exit)
    );
    assert_eq!(s.phase(), Phase::Done);
}

#[test]
fn a_crash_loop_goes_on_with_growing_delays() {
    let mut s = Supervisor::new(fast_backoff());
    let mut failures = 0;
    let mut delays = vec![];
    for _ in 0..5 {
        feed(&mut s, Event::Flag(false));
        let (notes, action) = feed(&mut s, ended(Outcome::Panicked));
        failures += notes.iter().filter(|n| **n == Note::Failed).count();
        delays.push(action);
        feed(&mut s, Event::DelayElapsed);
    }
    assert_eq!(failures, 5);
    let expected: Vec<Action> = [5, 10, 20, 20, 20]
        .into_iter()
        .map(|n| Action::Delay(millis(n)))
        .collect();
    assert_eq!(delays, expected);
}

#[test]
fn production_delays_double_to_a_minute() {
    let mut s = Supervisor::new(Backoff::default());
    for secs in [1, 2, 4, 8, 16, 32, 60, 60, 60] {
        let (_, spawn) = feed(&mut s, Event::Flag(false));
        assert_eq!(spawn, Action::Spawn(Duration::from_secs(5)));
        let (_, delay) = feed(&mut s, ended(Outcome::Returned));
        assert_eq!(delay, Action::Delay(Duration::from_secs(secs)));
        feed(&mut s, Event::DelayElapsed);
    }
}

#[test]
fn the_first_delay_is_not_capped() {
    let mut backoff = fast_backoff();
    backoff.initial = millis(90);
    let mut s = Supervisor::new(backoff);
    feed(&mut s, Event::Flag(false));
    assert_eq!(feed(&mut s, ended(Outcome::Panicked)).1, Action::Delay(millis(90)));
    feed(&mut s, Event::DelayElapsed);
    feed(&mut s, Event::Flag(false));
    assert_eq!(feed(&mut s, ended(Outcome::Panicked)).1, Action::Delay(millis(20)));
}

#[test]
fn a_stable_run_is_noted_once_and_keeps_the_delay() {
    let mut s = Supervisor::new(fast_backoff());
    feed(&mut s, Event::Flag(false));
    feed(&mut s, ended(Outcome::Panicked));
    feed(&mut s, Event::DelayElapsed);
    feed(&mut s, Event::Flag(false));
    assert_eq!(
        feed(&mut s, Event::StabilityElapsed),
        (vec![Note::Stable], Action::Wait)
    );
    assert_eq!(s.phase(), Phase::Running { stable: true });
    assert!(!s.expects(Event::StabilityElapsed));
    assert_eq!(feed(&mut s, ended(Outcome::Panicked)).1, Action::Delay(millis(10)));
}

#[test]
fn a_send_of_false_does_not_end_supervision() {
    let mut s = Supervisor::new(fast_backoff());
    feed(&mut s, Event::Flag(false));
    assert_eq!(feed(&mut s, sent(false)), (vec![], Action::Wait));
    assert_eq!(s.phase(), Phase::Running { stable: false });
    assert_eq!(
        feed(&mut s, ended(Outcome::Panicked)),
        (vec![Note::Failed, Note::Restarted], Action::Delay(millis(5)))
    );
    assert_eq!(feed(&mut s, sent(false)), (vec![], Action::Wait));
    assert_eq!(s.phase(), Phase::BackingOff);
    assert_eq!(feed(&mut s, Event::DelayElapsed), (vec![], Action::Wait));
    assert_eq!(
        feed(&mut s, Event::Flag(false)),
        (vec![Note::Started], Action::Spawn(millis(30)))
    );
    assert!(s.watches_flag());
    assert_eq!(feed(&mut s, sent(true)), (vec![], Action::Wait));
    assert_eq!(s.phase(), Phase::Draining);
}

#[test]
fn the_loss_of_all_senders_ends_only_the_watch() {
    let mut s = Supervisor::new(fast_backoff());
    assert!(s.watches_flag());
    feed(&mut s, Event::Flag(false));
    assert_eq!(feed(&mut s, Event::SendersGone), (vec![], Action::Wait));
    assert_eq!(s.phase(), Phase::Running { stable: false });
    assert!(!s.watches_flag());
    assert!(!s.expects(Event::SendersGone));
    assert!(!s.expects(sent(true)));
    assert_eq!(
        feed(&mut s, ended(Outcome::Panicked)),
        (vec![Note::Failed, Note::Restarted], Action::Delay(millis(5)))
    );
    assert!(!s.expects(sent(false)));
    feed(&mut s, Event::DelayElapsed);
    assert_eq!(
        feed(&mut s, Event::Flag(false)),
        (vec![Note::Started], Action::Spawn(millis(30)))
    );
    assert!(!s.watches_flag());
}

#[test]
fn an_unexpected_return_counts_as_a_stop_and_is_restarted() {
    let mut s = Supervisor::new(fast_backoff());
    feed(&mut s, Event::Flag(false));
    assert_eq!(
        feed(&mut s, ended(Outcome::Returned)),
        (vec![Note::Stopped, Note::Restarted], Action::Delay(millis(5)))
    );
    assert_eq!(s.phase(), Phase::BackingOff);
}

#[test]
fn shutdown_before_the_start_stops_without_starting() {
    let mut s = Supervisor::new(fast_backoff());
    assert_eq!(
        feed(&mut s, Event::Flag(true)),
        (vec![Note::Stopped], Action::Exit)
    );
    assert_eq!(s.phase(), Phase::Done);
    for event in [
        Event::Flag(false),
        sent(true),
        sent(false),
        Event::SendersGone,
        Event::DelayElapsed,
        Event::ChildDrained,
    ] {
        assert!(!s.expects(event));
    }
}

#[test]
fn shutdown_during_the_delay_stops() {
    let mut s = Supervisor::new(fast_backoff());
    feed(&mut s, Event::Flag(false));
    feed(&mut s, ended(Outcome::Panicked));
    assert_eq!(feed(&mut s, sent(true)), (vec![Note::Stopped], Action::Exit));
    assert_eq!(s.phase(), Phase::Done);
}

#[test]
fn a_child_that_ends_during_shutdown_is_a_clean_stop() {
    for outcome in [Outcome::Returned, Outcome::Panicked, Outcome::Cancelled] {
        let mut s = Supervisor::new(fast_backoff());
        feed(&mut s, Event::Flag(false));
        let event = Event::ChildEnded { outcome, shutdown: true };
        assert_eq!(feed(&mut s, event), (vec![Note::Stopped], Action::Exit));
        assert_eq!(s.phase(), Phase::Done);
    }
}

#[test]
fn a_cancelled_child_ends_supervision() {
    let mut s = Supervisor::new(fast_backoff());
    feed(&mut s, Event::Flag(false));
    assert_eq!(
        feed(&mut s, ended(Outcome::Cancelled)),
        (vec![Note::Stopped], Action::Exit)
    );
    assert_eq!(s.phase(), Phase::Done);
}
