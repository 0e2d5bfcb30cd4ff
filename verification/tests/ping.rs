use calloop::sources::ping::{
    counter_outcome, decode_counter, DrainStep, PipeDrain, ReadOutcome, INCREMENT_CLOSE,
    INCREMENT_PING,
};
use calloop::PostAction;

// Drain the pipe as the ping source does, reading the given outcomes in
// turn; returns whether the callback runs and the action for the loop.
fn drain(reads: &[ReadOutcome]) -> Option<(bool, PostAction)> {
    let mut d = PipeDrain::new();
    for r in reads {
        match d.step(*r) {
            DrainStep::ReadAgain => {}
            DrainStep::Done { action, notify } => return Some((notify, action)),
            DrainStep::Error => return None,
        }
    }
    None
}

#[test]
fn ping() {
    // one ping, then the pipe is empty: the callback runs once
    let dispatched = drain(&[ReadOutcome::Data, ReadOutcome::WouldBlock]);
    assert_eq!(dispatched, Some((true, PostAction::Continue)));

    // Ping has been drained and no longer generates events
    let dispatched = drain(&[ReadOutcome::WouldBlock]);
    assert_eq!(dispatched, Some((false, PostAction::Continue)));
}

#[test]
fn ping_closed() {
    // If the sender is closed from the start, the ping triggers once,
    // removing itself but not invoking the callback
    let dispatched = drain(&[ReadOutcome::Closed]);
    assert_eq!(dispatched, Some((false, PostAction::Remove)));
}

#[test]
fn many_pings_one_event() {
    let dispatched = drain(&[
        ReadOutcome::Data,
        ReadOutcome::Data,
        ReadOutcome::Data,
        ReadOutcome::WouldBlock,
    ]);
    assert_eq!(dispatched, Some((true, PostAction::Continue)));
    let closed_after_pings = drain(&[ReadOutcome::Data, ReadOutcome::Closed]);
    assert_eq!(closed_after_pings, Some((true, PostAction::Remove)));
    assert_eq!(drain(&[ReadOutcome::Data, ReadOutcome::Failed]), None);
}

#[test]
fn eventfd_counter() {
    let e = decode_counter(3 * INCREMENT_PING);
    assert!(e.ping && !e.close);
    let e = decode_counter(INCREMENT_CLOSE);
    assert!(!e.ping && e.close);
    let e = decode_counter(2 * INCREMENT_PING + INCREMENT_CLOSE);
    assert!(e.ping && e.close);
    assert_eq!(
        counter_outcome(e),
        DrainStep::Done { action: PostAction::Remove, notify: true }
    );
    let e = decode_counter(0);
    assert!(!e.ping && !e.close);
    assert_eq!(
        counter_outcome(e),
        DrainStep::Done { action: PostAction::Continue, notify: false }
    );
}
