use calloop::sources::timer::{
    thread_step, ThreadStep, ThreadedDeadline, TimerInner, TimerScheduler, TimerfdCommand,
};

const MS: u64 = 1_000_000;

fn drain<T>(inner: &mut TimerInner<T>, now: u64, out: &mut Vec<T>) {
    while let Some(v) = inner.next_expired(now) {
        out.push(v);
    }
}

fn single_timer_scenario() {
    let mut inner = TimerInner::new(TimerScheduler::new());
    let mut fired = Vec::new();

    let (_timeout, cmd) = inner.insert(300 * MS, (), 0);
    assert_eq!(cmd, TimerfdCommand::Arm(300 * MS));

    // it should not have fired yet
    drain(&mut inner, 100 * MS, &mut fired);
    assert!(fired.is_empty());

    // it should have fired now
    drain(&mut inner, 300 * MS, &mut fired);
    assert_eq!(fired.len(), 1);
}

fn multi_timout_order_scenario() {
    let mut inner = TimerInner::new(TimerScheduler::new());
    let mut fired = Vec::new();

    inner.insert(300 * MS, 1u32, 0);
    inner.insert(100 * MS, 2u32, 0);
    inner.insert(600 * MS, 3u32, 0);

    drain(&mut inner, 200 * MS, &mut fired);
    assert_eq!(&fired, &[2]);

    drain(&mut inner, 500 * MS, &mut fired);
    assert_eq!(&fired, &[2, 1]);

    drain(&mut inner, 900 * MS, &mut fired);
    assert_eq!(&fired, &[2, 1, 3]);
}

fn timer_cancel_scenario() {
    let mut inner = TimerInner::new(TimerScheduler::new());
    let mut fired = Vec::new();

    let (timeout1, _) = inner.insert(300 * MS, 1u32, 0);
    let (timeout2, _) = inner.insert(100 * MS, 2u32, 0);
    let (timeout3, _) = inner.insert(600 * MS, 3u32, 0);

    drain(&mut inner, 200 * MS, &mut fired);
    assert_eq!(&fired, &[2]);

    // timeout2 has already fired, we cancel timeout1
    assert_eq!(inner.cancel(&timeout2, 200 * MS).0, None);
    assert_eq!(inner.cancel(&timeout1, 200 * MS).0, Some(1));

    drain(&mut inner, 500 * MS, &mut fired);
    assert_eq!(&fired, &[2]);

    // cancel timeout3
    assert_eq!(inner.cancel(&timeout3, 500 * MS).0, Some(3));

    drain(&mut inner, 1100 * MS, &mut fired);
    assert_eq!(&fired, &[2]);
}

#[test]
fn timer_single_timer() {
    single_timer_scenario();
}

#[test]
fn mod_single_timer() {
    single_timer_scenario();
}

#[test]
fn timer_multi_timout_order() {
    multi_timout_order_scenario();
}

#[test]
fn mod_multi_timout_order() {
    multi_timout_order_scenario();
}

#[test]
fn timer_timer_cancel() {
    timer_cancel_scenario();
}

#[test]
fn mod_timer_cancel() {
    timer_cancel_scenario();
}

#[test]
fn timeout_cancel_early() {
    // Cancelling an earlier timeout should not prevent later ones from running
    let mut inner = TimerInner::new(TimerScheduler::new());
    let mut count = 0;

    inner.insert(1000 * MS, (), 0);
    let (sooner, _) = inner.insert(500 * MS, (), 0);
    inner.cancel(&sooner, 0);

    // first timeout was cancelled, but the event loop still wakes up for nothing
    assert_eq!(inner.next_deadline(), Some(500 * MS));
    while inner.next_expired(500 * MS).is_some() {
        count += 1;
    }
    assert_eq!(count, 0);

    // second wake-up gets the second timeout
    assert_eq!(inner.next_deadline(), Some(1000 * MS));
    while inner.next_expired(1000 * MS).is_some() {
        count += 1;
    }
    assert_eq!(count, 1);
}

#[test]
fn timer_reschedule_commands() {
    let mut inner = TimerInner::new(TimerScheduler::new());
    let (_, cmd) = inner.insert(300 * MS, 'a', 0);
    assert_eq!(cmd, TimerfdCommand::Arm(300 * MS));
    // the earliest deadline is still the first one: the timer is armed again for it
    let (_, cmd) = inner.insert(600 * MS, 'b', 10 * MS);
    assert_eq!(cmd, TimerfdCommand::Arm(290 * MS));
    // an earlier one re-arms it
    let (_, cmd) = inner.insert(100 * MS, 'c', 20 * MS);
    assert_eq!(cmd, TimerfdCommand::Arm(80 * MS));
    assert_eq!(inner.cancel_all(), TimerfdCommand::Disarm);
    assert_eq!(inner.next_deadline(), None);
    assert_eq!(inner.next_expired(u64::MAX), None);
}

#[test]
fn timer_deadline_already_passed_fires_soonest() {
    let mut sched = TimerScheduler::new();
    // a deadline in the past is armed for one nanosecond
    assert_eq!(sched.reschedule(5, 10), TimerfdCommand::Arm(1));
    // the armed deadline has passed: a later one replaces it
    assert_eq!(sched.reschedule(50, 10), TimerfdCommand::Arm(40));
    // the armed deadline is ahead and earlier: it is kept
    assert_eq!(sched.reschedule(60, 10), TimerfdCommand::Unchanged);
    assert_eq!(sched.deschedule(), TimerfdCommand::Disarm);
    assert_eq!(sched.reschedule(60, 10), TimerfdCommand::Arm(50));
}

#[test]
fn timer_cancel_twice_returns_nothing() {
    let mut inner = TimerInner::new(TimerScheduler::new());
    let (t, _) = inner.insert(10, String::from("x"), 0);
    assert_eq!(inner.cancel(&t, 0).0, Some(String::from("x")));
    assert_eq!(inner.cancel(&t, 0).0, None);
    // the cancelled timeout never fires
    assert_eq!(inner.next_expired(100), None);
}

#[test]
fn timer_thread_steps() {
    assert_eq!(thread_step(None, 5), ThreadStep::Wait);
    assert_eq!(thread_step(Some(10), 5), ThreadStep::Sleep(5));
    assert_eq!(thread_step(Some(10), 10), ThreadStep::Sleep(0));
    assert_eq!(thread_step(Some(10), 11), ThreadStep::Fire);

    let mut d = ThreadedDeadline::new();
    assert!(d.reschedule(100, 0));
    assert!(!d.reschedule(200, 0));
    assert!(d.reschedule(50, 0));
    // an expired deadline is always replaced
    assert!(d.reschedule(500, 60));
    d.deschedule();
    assert!(d.reschedule(700, 60));
}
