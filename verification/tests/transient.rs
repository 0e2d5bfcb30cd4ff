use calloop::sources::transient::{ChildCall, TransientSource};
use calloop::PostAction;
use std::cell::Cell;
use std::rc::Rc;

// A nested source as the tests below see it: it can be (un)registered, and
// when registered and pinged it delivers events through a callback.
trait Child {
    type Event;
    fn register(&mut self);
    fn reregister(&mut self) {}
    fn unregister(&mut self);
    fn process(&mut self, callback: &mut dyn FnMut(Self::Event)) -> PostAction;
}

fn call<T: Child>(ts: &mut TransientSource<T>, c: ChildCall) {
    match c {
        ChildCall::Register => {
            ts.map(|s| s.register());
        }
        ChildCall::Reregister => {
            ts.map(|s| s.reregister());
        }
        ChildCall::Unregister => {
            ts.map(|s| s.unregister());
        }
        ChildCall::Nothing => {}
    }
}

fn register<T: Child>(ts: &mut TransientSource<T>) {
    let c = ts.register_step();
    call(ts, c);
    ts.registered();
}

fn reregister<T: Child>(ts: &mut TransientSource<T>) {
    let c = ts.reregister_step();
    call(ts, c);
    ts.reregistered();
}

fn unregister<T: Child>(ts: &mut TransientSource<T>) {
    let c = ts.unregister_step();
    call(ts, c);
    ts.unregistered();
}

fn process<T: Child>(ts: &mut TransientSource<T>, cb: &mut dyn FnMut(T::Event)) -> PostAction {
    let action = if ts.process_events_step() {
        ts.map(|s| s.process(cb)).unwrap()
    } else {
        PostAction::Continue
    };
    ts.processed(action)
}

// One dispatch of a loop holding only this source: process, then update the
// registration if asked to.
fn dispatch<T: Child>(ts: &mut TransientSource<T>, cb: &mut dyn FnMut(T::Event)) {
    if process(ts, cb) == PostAction::Reregister {
        reregister(ts);
    }
}

struct PingLike {
    pinged: bool,
    registered: bool,
    after: PostAction,
    dropped: Rc<Cell<bool>>,
}

impl PingLike {
    fn new(after: PostAction) -> (Self, Rc<Cell<bool>>) {
        let dropped = Rc::new(Cell::new(false));
        (
            PingLike { pinged: false, registered: false, after, dropped: dropped.clone() },
            dropped,
        )
    }
}

impl Drop for PingLike {
    fn drop(&mut self) {
        assert!(!self.registered, "source dropped while still registered");
        self.dropped.set(true);
    }
}

impl Child for PingLike {
    type Event = ();
    fn register(&mut self) {
        self.registered = true;
    }
    fn unregister(&mut self) {
        self.registered = false;
    }
    fn process(&mut self, callback: &mut dyn FnMut(())) -> PostAction {
        if self.registered && self.pinged {
            self.pinged = false;
            callback(());
        }
        self.after
    }
}

fn ping<T>(ts: &mut TransientSource<T>, f: impl FnOnce(&mut T)) {
    ts.map(f);
}

#[test]
fn test_transient_drop() {
    let mut fired = false;
    let (inner, dropped) = PingLike::new(PostAction::Remove);
    let mut outer: TransientSource<_> = inner.into();
    register(&mut outer);

    // First loop run: the ping generates an event for the inner source.
    ping(&mut outer, |s| s.pinged = true);
    dispatch(&mut outer, &mut |()| fired = true);
    assert!(fired);
    assert!(dropped.get());

    // Second loop run: the ping does nothing because the receiver has been
    // dropped.
    fired = false;
    ping(&mut outer, |s| s.pinged = true);
    dispatch(&mut outer, &mut |()| fired = true);
    assert!(!fired);
}

#[derive(Debug, PartialEq)]
enum Event {
    Msg(u32),
    Closed,
}

struct ChannelLike {
    queue: Vec<u32>,
    sender_dropped: bool,
    registered: bool,
}

impl Child for ChannelLike {
    type Event = Event;
    fn register(&mut self) {
        self.registered = true;
    }
    fn unregister(&mut self) {
        self.registered = false;
    }
    fn process(&mut self, callback: &mut dyn FnMut(Event)) -> PostAction {
        for msg in self.queue.drain(..) {
            callback(Event::Msg(msg));
        }
        if self.sender_dropped {
            callback(Event::Closed);
            PostAction::Remove
        } else {
            PostAction::Continue
        }
    }
}

#[test]
fn test_transient_passthrough() {
    let receiver = ChannelLike { queue: Vec::new(), sender_dropped: false, registered: false };
    let mut outer: TransientSource<_> = receiver.into();
    register(&mut outer);
    let mut msg_queue = vec![];

    // Send some data and drop the sender.
    outer.map(|r| {
        r.queue.extend([0u32, 1, 2, 3]);
        r.sender_dropped = true;
    });

    dispatch(&mut outer, &mut |msg| msg_queue.push(msg));

    assert_eq!(
        msg_queue,
        vec![Event::Msg(0), Event::Msg(1), Event::Msg(2), Event::Msg(3), Event::Closed]
    );
    assert!(outer.is_none());
}

struct IdSource {
    id: u32,
    inner: PingLike,
}

impl Child for IdSource {
    type Event = u32;
    fn register(&mut self) {
        self.inner.register();
    }
    fn unregister(&mut self) {
        self.inner.unregister();
    }
    fn process(&mut self, callback: &mut dyn FnMut(u32)) -> PostAction {
        let id = self.id;
        self.inner.process(&mut |()| callback(id));
        if self.id > 2 {
            PostAction::Remove
        } else {
            PostAction::Continue
        }
    }
}

#[test]
fn test_transient_map() {
    let mut id = 0;
    let (ping_inner, _dropped) = PingLike::new(PostAction::Continue);
    let mut outer: TransientSource<_> = IdSource { id, inner: ping_inner }.into();

    // The wrapper increments the id before each registration call and after
    // each processing.
    outer.map(|inner| inner.id += 1);
    register(&mut outer);

    let mut run = |outer: &mut TransientSource<IdSource>, id: &mut u32| {
        outer.map(|s| s.inner.pinged = true);
        let action = process(outer, &mut |got| *id = got);
        outer.map(|inner| inner.id += 1);
        if action == PostAction::Reregister {
            outer.map(|inner| inner.id += 1);
            reregister(outer);
        }
    };

    run(&mut outer, &mut id);
    assert_eq!(id, 1);
    run(&mut outer, &mut id);
    assert_eq!(id, 2);
    run(&mut outer, &mut id);
    assert_eq!(id, 3);
    run(&mut outer, &mut id);
    assert_eq!(id, 3);

    // Removing the source unregisters it.
    outer.map(|inner| inner.id += 1);
    unregister(&mut outer);

    // The inner source was dropped, so map() does not call its function.
    assert!(outer.map(|_| unreachable!()).is_none());
}

#[test]
fn test_transient_disable() {
    let mut fired = false;
    let (inner, _dropped) = PingLike::new(PostAction::Disable);
    let mut outer: TransientSource<_> = inner.into();
    register(&mut outer);

    // Ping here and not later, to check that disabling after an event is
    // triggered but not processed does not discard the event.
    outer.map(|s| s.pinged = true);
    dispatch(&mut outer, &mut |()| fired = true);
    assert!(fired);

    // Source should now be disabled.
    outer.map(|s| s.pinged = true);
    fired = false;
    dispatch(&mut outer, &mut |()| fired = true);
    assert!(!fired);

    // Re-enable the source.
    register(&mut outer);

    // Trigger another event.
    outer.map(|s| s.pinged = true);
    fired = false;
    dispatch(&mut outer, &mut |()| fired = true);
    assert!(fired);
    unregister(&mut outer);
}

struct FinishImmediately {
    data: Option<i32>,
    pinged: bool,
    registered: bool,
    dropped: Rc<Cell<bool>>,
}

impl FinishImmediately {
    fn new(data: i32) -> (Self, Rc<Cell<bool>>) {
        let dropped = Rc::new(Cell::new(false));
        (
            FinishImmediately { data: Some(data), pinged: true, registered: false, dropped: dropped.clone() },
            dropped,
        )
    }
}

impl Drop for FinishImmediately {
    fn drop(&mut self) {
        assert!(!self.registered, "source dropped while still registered");
        self.dropped.set(true);
    }
}

impl Child for FinishImmediately {
    type Event = i32;
    fn register(&mut self) {
        self.registered = true;
    }
    fn unregister(&mut self) {
        self.registered = false;
    }
    fn process(&mut self, callback: &mut dyn FnMut(i32)) -> PostAction {
        if self.registered && self.pinged {
            self.pinged = false;
            if let Some(d) = self.data.take() {
                callback(d);
            }
        }
        if self.data.is_none() {
            PostAction::Remove
        } else {
            PostAction::Continue
        }
    }
}

#[test]
fn test_transient_replace_unregister() {
    let (inner0, inner0_dropped) = FinishImmediately::new(0);
    let (inner1, inner1_dropped) = FinishImmediately::new(1);
    let mut current: TransientSource<FinishImmediately> = inner0.into();
    let mut replacement = Some(inner1);
    register(&mut current);

    // first run: the first inner source fires and finishes
    let mut got = None;
    let action = process(&mut current, &mut |d| got = Some(d));
    assert_eq!(action, PostAction::Reregister);
    reregister(&mut current);
    assert_eq!(got.take(), Some(0), "first inner source did not fire");
    assert!(inner0_dropped.get(), "first inner source not dropped");
    assert!(!inner1_dropped.get(), "replacement inner source dropped");

    // the parent replaces the finished child, and asks for re-registration
    assert!(current.is_none());
    if let Some(r) = replacement.take() {
        current = r.into();
    }
    reregister(&mut current);

    // second run: the replacement fires
    let action = process(&mut current, &mut |d| got = Some(d));
    assert_eq!(got.take(), Some(1), "replacement source did not fire");
    assert_eq!(action, PostAction::Reregister);
    reregister(&mut current);
    assert!(inner1_dropped.get());
}

#[test]
fn transient_only_reports_continue_or_reregister() {
    for after in [PostAction::Continue, PostAction::Reregister, PostAction::Disable, PostAction::Remove] {
        let (inner, _d) = PingLike::new(after);
        let mut ts: TransientSource<_> = inner.into();
        register(&mut ts);
        let r = process(&mut ts, &mut |()| {});
        assert!(r == PostAction::Continue || r == PostAction::Reregister);
        if r == PostAction::Reregister {
            reregister(&mut ts);
        }
        unregister(&mut ts);
    }
}

#[test]
fn transient_map_runs_on_the_source_once() {
    let mut t: TransientSource<u32> = TransientSource::Remove(1);
    let r = t.map(|x: &mut u32| {
        *x += 1;
        *x
    });
    assert_eq!(r, Some(2));
    assert!(matches!(t, TransientSource::Remove(2)));

    let mut e: TransientSource<u32> = TransientSource::Empty;
    let r = e.map(|_: &mut u32| -> u32 { unreachable!() });
    assert!(r.is_none());
    assert!(e.is_none());
}
