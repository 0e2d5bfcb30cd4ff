//! Timer logic: the pending timeouts of a timer and the arming of the
//! system timer that wakes the loop up for the earliest of them.
//!
//! Time is counted in nanoseconds from an origin chosen by the owner of the
//! timer (the instant the timer was created, typically).
use vstd::prelude::*;

verus! {

/// An identifier to cancel a timeout if necessary.
#[derive(Debug)]
pub struct Timeout {
    counter: u32,
}

impl Timeout {
    /// The counter value the timeout was registered under.
    pub closed spec fn counter(self) -> u32 {
        self.counter
    }
}

/// One pending timeout: its deadline, its identifier and its data
/// (`None` once it has been cancelled).
#[derive(Debug)]
pub struct TimeoutData<T> {
    pub deadline: u64,
    pub counter: u32,
    pub data: Option<T>,
}

/// No two entries share a counter.
pub open spec fn counters_distinct<T>(s: Seq<TimeoutData<T>>) -> bool {
    forall|i: int, j: int|
        0 <= i < s.len() && 0 <= j < s.len() && i != j ==> s[i].counter != s[j].counter
}

/// Some entry of `s` carries counter `c`.
pub open spec fn has_counter<T>(s: Seq<TimeoutData<T>>, c: u32) -> bool {
    exists|i: int| 0 <= i < s.len() && s[i].counter == c
}

/// The entries of `s` keyed by counter: deadline and data.
pub open spec fn timeouts_of<T>(s: Seq<TimeoutData<T>>) -> Map<u32, (u64, Option<T>)> {
    Map::new(
        |c: u32| has_counter(s, c),
        |c: u32|
            {
                let i = choose|i: int| 0 <= i < s.len() && s[i].counter == c;
                (s[i].deadline, s[i].data)
            },
    )
}

proof fn lemma_timeouts_at<T>(s: Seq<TimeoutData<T>>, i: int)
    requires
        counters_distinct(s),
        0 <= i < s.len(),
    ensures
        timeouts_of(s).contains_key(s[i].counter),
        timeouts_of(s)[s[i].counter] == (s[i].deadline, s[i].data),
{
    assert(has_counter(s, s[i].counter));
    let j = choose|j: int| 0 <= j < s.len() && s[j].counter == s[i].counter;
    assert(j == i);
}

proof fn lemma_timeouts_push<T>(s: Seq<TimeoutData<T>>, e: TimeoutData<T>)
    requires
        counters_distinct(s),
        !has_counter(s, e.counter),
    ensures
        counters_distinct(s.push(e)),
        timeouts_of(s.push(e)) == timeouts_of(s).insert(e.counter, (e.deadline, e.data)),
{
    let s2 = s.push(e);
    assert(counters_distinct(s2)) by {
        assert forall|i: int, j: int|
            0 <= i < s2.len() && 0 <= j < s2.len() && i != j implies s2[i].counter
            != s2[j].counter by {
            if i == s.len() {
                assert(s2[j] == s[j]);
            } else if j == s.len() {
                assert(s2[i] == s[i]);
            }
        }
    }
    let m1 = timeouts_of(s2);
    let m2 = timeouts_of(s).insert(e.counter, (e.deadline, e.data));
    assert forall|c: u32| m1.contains_key(c) <==> m2.contains_key(c) by {
        if m1.contains_key(c) {
            let i = choose|i: int| 0 <= i < s2.len() && s2[i].counter == c;
            if i < s.len() {
                assert(s2[i] == s[i]);
                assert(has_counter(s, c));
            }
        }
        if m2.contains_key(c) {
            if c == e.counter {
                assert(s2[s.len() as int] == e);
                assert(has_counter(s2, c));
            } else {
                let i = choose|i: int| 0 <= i < s.len() && s[i].counter == c;
                assert(s2[i] == s[i]);
                assert(has_counter(s2, c));
            }
        }
    }
    assert forall|c: u32| #[trigger] m1.contains_key(c) implies m1[c] == m2[c] by {
        let i = choose|i: int| 0 <= i < s2.len() && s2[i].counter == c;
        lemma_timeouts_at(s2, i);
        if i < s.len() {
            assert(s2[i] == s[i]);
            lemma_timeouts_at(s, i);
        }
    }
    assert(m1 =~= m2);
}

proof fn lemma_timeouts_swap_remove<T>(s: Seq<TimeoutData<T>>, i: int)
    requires
        counters_distinct(s),
        0 <= i < s.len(),
    ensures
        counters_distinct(s.update(i, s.last()).drop_last()),
        timeouts_of(s.update(i, s.last()).drop_last()) == timeouts_of(s).remove(s[i].counter),
{
    let n = s.len() - 1;
    let s2 = s.update(i, s.last()).drop_last();
    // position in `s` of each element of `s2`
    assert forall|j: int| 0 <= j < s2.len() implies #[trigger] s2[j] == s[if j == i {
        n
    } else {
        j
    }] by {}
    assert(counters_distinct(s2)) by {
        assert forall|a: int, b: int|
            0 <= a < s2.len() && 0 <= b < s2.len() && a != b implies s2[a].counter
            != s2[b].counter by {
            let pa = if a == i {
                n
            } else {
                a
            };
            let pb = if b == i {
                n
            } else {
                b
            };
            assert(s2[a] == s[pa]);
            assert(s2[b] == s[pb]);
        }
    }
    let m1 = timeouts_of(s2);
    let m2 = timeouts_of(s).remove(s[i].counter);
    assert forall|c: u32| m1.contains_key(c) <==> m2.contains_key(c) by {
        if m1.contains_key(c) {
            let j = choose|j: int| 0 <= j < s2.len() && s2[j].counter == c;
            let p = if j == i {
                n
            } else {
                j
            };
            assert(s2[j] == s[p]);
            assert(has_counter(s, c));
            assert(p != i);
        }
        if m2.contains_key(c) {
            let p = choose|p: int| 0 <= p < s.len() && s[p].counter == c;
            assert(p != i);
            let j = if p == n {
                i
            } else {
                p
            };
            assert(s2[j] == s[p]);
            assert(has_counter(s2, c));
        }
    }
    assert forall|c: u32| #[trigger] m1.contains_key(c) implies m1[c] == m2[c] by {
        let j = choose|j: int| 0 <= j < s2.len() && s2[j].counter == c;
        let p = if j == i {
            n
        } else {
            j
        };
        assert(s2[j] == s[p]);
        lemma_timeouts_at(s2, j);
        lemma_timeouts_at(s, p);
    }
    assert(m1 =~= m2);
}

proof fn lemma_timeouts_set_data<T>(s: Seq<TimeoutData<T>>, i: int, e: TimeoutData<T>)
    requires
        counters_distinct(s),
        0 <= i < s.len(),
        e.counter == s[i].counter,
    ensures
        counters_distinct(s.update(i, e)),
        timeouts_of(s.update(i, e)) == timeouts_of(s).insert(e.counter, (e.deadline, e.data)),
{
    let s2 = s.update(i, e);
    assert(counters_distinct(s2)) by {
        assert forall|a: int, b: int|
            0 <= a < s2.len() && 0 <= b < s2.len() && a != b implies s2[a].counter
            != s2[b].counter by {
            assert(s2[a].counter == s[a].counter);
            assert(s2[b].counter == s[b].counter);
        }
    }
    let m1 = timeouts_of(s2);
    let m2 = timeouts_of(s).insert(e.counter, (e.deadline, e.data));
    assert forall|c: u32| m1.contains_key(c) <==> m2.contains_key(c) by {
        if m1.contains_key(c) {
            let j = choose|j: int| 0 <= j < s2.len() && s2[j].counter == c;
            assert(s2[j].counter == s[j].counter);
            assert(has_counter(s, c));
        }
        if m2.contains_key(c) {
            let p = choose|p: int| 0 <= p < s.len() && s[p].counter == c;
            assert(s2[p].counter == s[p].counter);
            assert(has_counter(s2, c));
        }
    }
    assert forall|c: u32| #[trigger] m1.contains_key(c) implies m1[c] == m2[c] by {
        let j = choose|j: int| 0 <= j < s2.len() && s2[j].counter == c;
        lemma_timeouts_at(s2, j);
        if j != i {
            assert(s2[j] == s[j]);
            lemma_timeouts_at(s, j);
        }
    }
    assert(m1 =~= m2);
}

/// What the system timer is asked to do after a change of the timeouts.
#[derive(Copy, Clone, Debug, PartialEq, Eq, Structural)]
pub enum TimerfdCommand {
    /// Fire once, this many nanoseconds from now.
    Arm(u64),
    /// Stop the timer.
    Disarm,
    /// Leave the timer as it is.
    Unchanged,
}

/// Scheduling state of the system timer: the deadline it is armed for.
#[derive(Debug)]
pub struct TimerScheduler {
    current_deadline: Option<u64>,
}

/// The delay to program for `new_deadline`: the time left, and at least one
/// nanosecond, since a timer of zero would never fire.
pub open spec fn arming_delay(new_deadline: u64, now: u64) -> u64 {
    if new_deadline > now + 1 {
        (new_deadline - now) as u64
    } else {
        1
    }
}

/// The system timer is armed for exactly the time left until the deadline:
/// counted from `now`, it fires at `new_deadline` when that is ahead, and
/// after one nanosecond (the shortest delay that fires) otherwise.
pub proof fn lemma_arming_delay_reaches_deadline(new_deadline: u64, now: u64)
    ensures
        arming_delay(new_deadline, now) >= 1,
        new_deadline > now ==> now + arming_delay(new_deadline, now) == new_deadline,
        new_deadline <= now ==> arming_delay(new_deadline, now) == 1,
{
}

/// The armed deadline is kept when it is still ahead and comes before the
/// new one: the timer will fire for it first.
pub open spec fn keeps_current(current: Option<u64>, new_deadline: u64, now: u64) -> bool {
    match current {
        Some(cur) => new_deadline > cur && cur > now,
        None => false,
    }
}

/// The armed deadline is kept exactly when it is still ahead of `now` and
/// before the new deadline; in every other case the timer is re-armed.
pub proof fn lemma_keeps_current_when_earlier(current: Option<u64>, new_deadline: u64, now: u64)
    ensures
        keeps_current(current, new_deadline, now) <==> (current matches Some(c) && now < c && c
            < new_deadline),
{
}

impl TimerScheduler {
    /// The deadline the timer is armed for, if any.
    pub closed spec fn current(self) -> Option<u64> {
        self.current_deadline
    }

    /// A scheduler whose timer is not armed.
    pub fn new() -> (s: Self)
        ensures
            s.current() is None,
    {
        TimerScheduler { current_deadline: None }
    }

    /// Ask for a wake-up at `new_deadline`, the time being `now`.
    pub fn reschedule(&mut self, new_deadline: u64, now: u64) -> (cmd: TimerfdCommand)
        ensures
            keeps_current(old(self).current(), new_deadline, now) ==> final(self).current()
                == old(self).current() && cmd == TimerfdCommand::Unchanged,
            !keeps_current(old(self).current(), new_deadline, now) ==> final(self).current()
                == Some(new_deadline) && cmd == TimerfdCommand::Arm(
                arming_delay(new_deadline, now),
            ),
    {
        let time: u64 = if new_deadline > now && new_deadline - now > 1 {
            new_deadline - now
        } else {
            1
        };
        match self.current_deadline {
            Some(current_deadline) => {
                if new_deadline > current_deadline && current_deadline > now {
                    return TimerfdCommand::Unchanged;
                }
            },
            None => {},
        }
        self.current_deadline = Some(new_deadline);
        TimerfdCommand::Arm(time)
    }

    /// Stop the timer.
    pub fn deschedule(&mut self) -> (cmd: TimerfdCommand)
        ensures
            final(self).current() is None,
            cmd == TimerfdCommand::Disarm,
    {
        self.current_deadline = None;
        TimerfdCommand::Disarm
    }
}

/// The pending timeouts of a timer.
///
/// Cancelled timeouts stay until their deadline comes; they still count for
/// the wake-up of the loop but produce no event.
#[derive(Debug)]
pub struct TimerInner<T> {
    heap: Vec<TimeoutData<T>>,
    scheduler: TimerScheduler,
    counter: u32,
}

/// `d` is the earliest deadline of `m`.
pub open spec fn is_earliest<T>(m: Map<u32, (u64, Option<T>)>, d: u64) -> bool {
    &&& exists|c: u32| m.contains_key(c) && m[c].0 == d
    &&& forall|c: u32| m.contains_key(c) ==> d <= m[c].0
}

/// `new` keeps entries of `old` unchanged, and drops only cancelled ones
/// whose deadline is at most `bound`, besides `except`.
pub open spec fn drops_cancelled_up_to<T>(
    old: Map<u32, (u64, Option<T>)>,
    new: Map<u32, (u64, Option<T>)>,
    bound: u64,
    except: Option<u32>,
) -> bool {
    &&& forall|c: u32| #[trigger] new.contains_key(c) ==> old.contains_key(c) && new[c] == old[c]
    &&& forall|c: u32|
        #[trigger] old.contains_key(c) && !new.contains_key(c) && except != Some(c) ==> old[c].1 is None
            && old[c].0 <= bound
}

/// The system timer after a change of the pending timeouts `m`, the time
/// being `now`: stopped when nothing is pending; otherwise kept when its
/// deadline is still ahead and comes before the earliest one, and armed for
/// the earliest one else. `before` and `after` are the deadlines it is armed
/// for, `cmd` what it is asked to do.
pub open spec fn rearmed<T>(
    m: Map<u32, (u64, Option<T>)>,
    before: Option<u64>,
    after: Option<u64>,
    now: u64,
    cmd: TimerfdCommand,
) -> bool {
    &&& m.dom() == Set::<u32>::empty() ==> after is None && cmd == TimerfdCommand::Disarm
    &&& forall|d: u64|
        is_earliest(m, d) ==> {
            &&& keeps_current(before, d, now) ==> after == before && cmd
                == TimerfdCommand::Unchanged
            &&& !keeps_current(before, d, now) ==> after == Some(d) && cmd
                == TimerfdCommand::Arm(arming_delay(d, now))
        }
}

/// Taking out expired timeouts from `old` at time `now` found none: the
/// timeouts left are `new`, and none of them is due.
pub open spec fn none_due<T>(
    old: Map<u32, (u64, Option<T>)>,
    new: Map<u32, (u64, Option<T>)>,
    now: u64,
) -> bool {
    &&& drops_cancelled_up_to(old, new, now, None)
    &&& forall|c: u32| #[trigger] new.contains_key(c) ==> new[c].0 > now
    &&& forall|c: u32| #[trigger] old.contains_key(c) && old[c].0 <= now ==> old[c].1 is None
}

/// Taking out expired timeouts from `old` at time `now` gave the data `v` of
/// timeout `c`: it was due and not cancelled, no live timeout was due
/// earlier, and `new` is what is left.
pub open spec fn fires<T>(
    old: Map<u32, (u64, Option<T>)>,
    new: Map<u32, (u64, Option<T>)>,
    now: u64,
    c: u32,
    v: T,
) -> bool {
    let d = old[c].0;
    &&& old.contains_key(c)
    &&& old[c].1 == Some(v)
    &&& d <= now
    &&& !new.contains_key(c)
    &&& drops_cancelled_up_to(old, new, d, Some(c))
    &&& forall|c2: u32| old.contains_key(c2) && old[c2].1 is Some ==> d <= old[c2].0
}

/// The system timer never wakes the loop up later than the earliest pending
/// timeout: once re-armed, it is armed for a deadline no later than it.
pub proof fn lemma_rearmed_covers_earliest<T>(
    m: Map<u32, (u64, Option<T>)>,
    before: Option<u64>,
    after: Option<u64>,
    now: u64,
    cmd: TimerfdCommand,
    d: u64,
)
    requires
        rearmed(m, before, after, now, cmd),
        is_earliest(m, d),
    ensures
        after matches Some(a) && a <= d,
{
}

/// Timeouts fire in the order of their deadlines: of two timeouts taken out
/// one after the other, the first is due no later than the second.
pub proof fn lemma_timeouts_fire_in_order<T>(
    m0: Map<u32, (u64, Option<T>)>,
    m1: Map<u32, (u64, Option<T>)>,
    m2: Map<u32, (u64, Option<T>)>,
    now1: u64,
    now2: u64,
    c1: u32,
    v1: T,
    c2: u32,
    v2: T,
)
    requires
        fires(m0, m1, now1, c1, v1),
        fires(m1, m2, now2, c2, v2),
    ensures
        m0[c1].0 <= m1[c2].0,
{
    assert(m0.contains_key(c2) && m1[c2] == m0[c2]);
}

/// A cancelled timeout never fires: once its data is taken out, taking out
/// expired timeouts never yields it.
pub proof fn lemma_cancelled_never_fires<T>(
    m: Map<u32, (u64, Option<T>)>,
    c: u32,
    m2: Map<u32, (u64, Option<T>)>,
    now: u64,
    c2: u32,
    v: T,
)
    requires
        m.contains_key(c),
        fires(m.insert(c, (m[c].0, None)), m2, now, c2, v),
    ensures
        c2 != c,
{
}

impl<T> TimerInner<T> {
    /// The pending timeouts, by counter: deadline and data (`None` once
    /// cancelled).
    pub closed spec fn timeouts(self) -> Map<u32, (u64, Option<T>)> {
        timeouts_of(self.heap@)
    }

    /// The counter the next timeout will receive.
    pub closed spec fn counter(self) -> u32 {
        self.counter
    }

    /// The deadline the system timer is armed for.
    pub closed spec fn armed(self) -> Option<u64> {
        self.scheduler.current()
    }

    /// Counters are distinct and below the next one.
    pub closed spec fn wf(self) -> bool {
        &&& counters_distinct(self.heap@)
        &&& forall|i: int| 0 <= i < self.heap@.len() ==> self.heap@[i].counter < self.counter
    }

    /// How many timeouts were set so far: the counter of the next one.
    pub fn issued(&self) -> (c: u32)
        ensures
            c == self.counter(),
    {
        self.counter
    }

    /// A timer with no timeout.
    pub fn new(scheduler: TimerScheduler) -> (t: Self)
        ensures
            t.wf(),
            t.timeouts() == Map::<u32, (u64, Option<T>)>::empty(),
            t.counter() == 0,
            t.armed() == scheduler.current(),
    {
        let t = TimerInner { heap: Vec::new(), scheduler, counter: 0 };
        assert(t.timeouts() =~= Map::<u32, (u64, Option<T>)>::empty());
        t
    }

    /// Index of an entry with the earliest deadline.
    fn earliest_index(&self) -> (r: Option<usize>)
        ensures
            r is None <==> self.heap@.len() == 0,
            r matches Some(i) ==> i < self.heap@.len() && forall|j: int|
                0 <= j < self.heap@.len() ==> self.heap@[i as int].deadline
                    <= #[trigger] self.heap@[j].deadline,
    {
        let n = self.heap.len();
        if n == 0 {
            return None;
        }
        let mut best: usize = 0;
        let mut i: usize = 1;
        while i < n
            invariant
                n == self.heap@.len(),
                best < n,
                1 <= i <= n,
                forall|j: int|
                    0 <= j < i ==> self.heap@[best as int].deadline
                        <= #[trigger] self.heap@[j].deadline,
            decreases n - i,
        {
            if self.heap[i].deadline < self.heap[best].deadline {
                best = i;
            }
            i = i + 1;
        }
        Some(best)
    }

    /// The earliest deadline among the pending timeouts, cancelled ones
    /// included.
    pub fn next_deadline(&self) -> (r: Option<u64>)
        requires
            self.wf(),
        ensures
            r is None <==> self.timeouts().dom() == Set::<u32>::empty(),
            r matches Some(d) ==> is_earliest(self.timeouts(), d),
    {
        match self.earliest_index() {
            None => {
                assert(self.timeouts().dom() =~= Set::<u32>::empty());
                None
            },
            Some(i) => {
                let d = self.heap[i].deadline;
                proof {
                    lemma_timeouts_at(self.heap@, i as int);
                    assert forall|c: u32| self.timeouts().contains_key(c) implies d
                        <= self.timeouts()[c].0 by {
                        let j = choose|j: int|
                            0 <= j < self.heap@.len() && self.heap@[j].counter == c;
                        lemma_timeouts_at(self.heap@, j);
                    }
                    assert(self.timeouts().dom().contains(self.heap@[i as int].counter));
                }
                Some(d)
            },
        }
    }

    /// Re-arm the system timer for the earliest deadline, or stop it when
    /// nothing is pending.
    pub fn reschedule(&mut self, now: u64) -> (cmd: TimerfdCommand)
        requires
            old(self).wf(),
        ensures
            final(self).wf(),
            final(self).timeouts() == old(self).timeouts(),
            final(self).counter() == old(self).counter(),
            rearmed(old(self).timeouts(), old(self).armed(), final(self).armed(), now, cmd),
    {
        match self.next_deadline() {
            Some(d) => {
                proof {
                    assert forall|d2: u64| is_earliest(self.timeouts(), d2) implies d2 == d by {
                        let c1 = choose|c: u32|
                            self.timeouts().contains_key(c) && self.timeouts()[c].0 == d;
                        let c2 = choose|c: u32|
                            self.timeouts().contains_key(c) && self.timeouts()[c].0 == d2;
                        assert(d <= self.timeouts()[c2].0);
                        assert(d2 <= self.timeouts()[c1].0);
                    }
                }
                self.scheduler.reschedule(d, now)
            },
            None => {
                proof {
                    assert forall|d2: u64| !is_earliest(self.timeouts(), d2) by {
                        if is_earliest(self.timeouts(), d2) {
                            let c = choose|c: u32|
                                self.timeouts().contains_key(c) && self.timeouts()[c].0 == d2;
                            assert(self.timeouts().dom().contains(c));
                        }
                    }
                }
                self.scheduler.deschedule()
            },
        }
    }

    /// Set a new timeout at `deadline`, the time being `now`.
    ///
    /// The returned `Timeout` can be used to cancel it.
    pub fn insert(&mut self, deadline: u64, value: T, now: u64) -> (r: (Timeout, TimerfdCommand))
        requires
            old(self).wf(),
            old(self).counter() < u32::MAX,
        ensures
            final(self).wf(),
            r.0.counter() == old(self).counter(),
            !old(self).timeouts().contains_key(r.0.counter()),
            final(self).counter() == old(self).counter() + 1,
            final(self).timeouts() == old(self).timeouts().insert(
                r.0.counter(),
                (deadline, Some(value)),
            ),
            rearmed(final(self).timeouts(), old(self).armed(), final(self).armed(), now, r.1),
    {
        let counter = self.counter;
        let e = TimeoutData { deadline, counter, data: Some(value) };
        proof {
            assert(!has_counter(self.heap@, counter)) by {
                if has_counter(self.heap@, counter) {
                    let i = choose|i: int|
                        0 <= i < self.heap@.len() && self.heap@[i].counter == counter;
                    assert(self.heap@[i].counter < self.counter);
                }
            }
            lemma_timeouts_push(self.heap@, e);
        }
        self.heap.push(e);
        self.counter = counter + 1;
        let cmd = self.reschedule(now);
        (Timeout { counter }, cmd)
    }

    /// Cancel a previously set timeout and retrieve the associated data.
    ///
    /// Returns `None` if the timeout does not exist (it has already fired
    /// or has already been cancelled).
    pub fn cancel(&mut self, timeout: &Timeout, now: u64) -> (r: (Option<T>, TimerfdCommand))
        requires
            old(self).wf(),
        ensures
            final(self).wf(),
            final(self).counter() == old(self).counter(),
            !old(self).timeouts().contains_key(timeout.counter()) ==> r.0 is None && final(self).timeouts() == old(self).timeouts() && final(self).armed() == old(self).armed()
                && r.1 == TimerfdCommand::Unchanged,
            old(self).timeouts().contains_key(timeout.counter()) ==> {
                let (d, data) = old(self).timeouts()[timeout.counter()];
                &&& r.0 == data
                &&& final(self).timeouts() == old(self).timeouts().insert(
                    timeout.counter(),
                    (d, None),
                )
                &&& rearmed(final(self).timeouts(), old(self).armed(), final(self).armed(), now, r.1)
            },
    {
        let n = self.heap.len();
        let mut i: usize = 0;
        while i < n
            invariant
                n == self.heap@.len(),
                i <= n,
                self.heap@ == old(self).heap@,
                self.counter == old(self).counter,
                self.scheduler == old(self).scheduler,
                old(self).wf(),
                forall|j: int| 0 <= j < i ==> #[trigger] self.heap@[j].counter != timeout.counter,
            decreases n - i,
        {
            if self.heap[i].counter == timeout.counter {
                let ghost before = self.heap@;
                let TimeoutData { deadline, counter, data } = self.heap.swap_remove(i);
                let ghost removed = self.heap@;
                proof {
                    lemma_timeouts_at(before, i as int);
                    lemma_timeouts_swap_remove(before, i as int);
                    assert(!has_counter(removed, counter)) by {
                        if has_counter(removed, counter) {
                            let j = choose|j: int|
                                0 <= j < removed.len() && removed[j].counter == counter;
                            lemma_timeouts_at(removed, j);
                        }
                    }
                    lemma_timeouts_push(removed, TimeoutData { deadline, counter, data: None });
                    assert(timeouts_of(before).remove(counter).insert(counter, (deadline, None))
                        =~= timeouts_of(before).insert(counter, (deadline, None)));
                }
                self.heap.push(TimeoutData { deadline, counter, data: None });
                proof {
                    assert forall|k: int| 0 <= k < self.heap@.len() implies self.heap@[k].counter
                        < self.counter by {
                        if k < removed.len() {
                            let p = if k == i {
                                before.len() - 1
                            } else {
                                k as int
                            };
                            assert(removed[k] == before[p]);
                        }
                    }
                }
                let cmd = self.reschedule(now);
                return (data, cmd);
            }
            i = i + 1;
        }
        proof {
            assert(!old(self).timeouts().contains_key(timeout.counter)) by {
                if has_counter(self.heap@, timeout.counter) {
                    let j = choose|j: int|
                        0 <= j < self.heap@.len() && self.heap@[j].counter == timeout.counter;
                    assert(self.heap@[j].counter != timeout.counter);
                }
            }
        }
        (None, TimerfdCommand::Unchanged)
    }

    /// Cancel all planned timeouts; their data is dropped.
    pub fn cancel_all(&mut self) -> (cmd: TimerfdCommand)
        requires
            old(self).wf(),
        ensures
            final(self).wf(),
            final(self).counter() == old(self).counter(),
            final(self).timeouts() == Map::<u32, (u64, Option<T>)>::empty(),
            final(self).armed() is None,
            cmd == TimerfdCommand::Disarm,
    {
        self.heap = Vec::new();
        assert(self.timeouts() =~= Map::<u32, (u64, Option<T>)>::empty());
        self.reschedule(0)
    }

    /// Take out the data of the earliest timeout whose deadline has come,
    /// the time being `now`; cancelled timeouts met on the way are dropped.
    pub fn next_expired(&mut self, now: u64) -> (r: Option<T>)
        requires
            old(self).wf(),
        ensures
            final(self).wf(),
            final(self).counter() == old(self).counter(),
            final(self).armed() == old(self).armed(),
            r is None ==> none_due(old(self).timeouts(), final(self).timeouts(), now),
            r matches Some(v) ==> exists|c: u32|
                #[trigger] fires(old(self).timeouts(), final(self).timeouts(), now, c, v),
    {
        let ghost orig = self.timeouts();
        loop
            invariant
                self.wf(),
                self.counter == old(self).counter,
                self.scheduler == old(self).scheduler,
                orig == old(self).timeouts(),
                forall|c: u32|
                    #[trigger] self.timeouts().contains_key(c) ==> orig.contains_key(c)
                        && self.timeouts()[c] == orig[c],
                forall|c: u32|
                    #[trigger] orig.contains_key(c) && !self.timeouts().contains_key(c) ==> {
                        &&& orig[c].1 is None
                        &&& orig[c].0 <= now
                        &&& forall|c2: u32|
                            self.timeouts().contains_key(c2) ==> orig[c].0
                                <= self.timeouts()[c2].0
                    },
            decreases self.heap@.len(),
        {
            let i = match self.earliest_index() {
                None => {
                    proof {
                        assert(self.timeouts().dom() =~= Set::<u32>::empty());
                        assert forall|c: u32| #[trigger] orig.contains_key(c) && orig[c].0 <= now implies orig[c].1 is None by {
                            assert(!self.timeouts().dom().contains(c));
                        }
                    }
                    return None;
                },
                Some(i) => i,
            };
            let ghost before = self.heap@;
            let ghost mbefore = self.timeouts();
            proof {
                lemma_timeouts_at(before, i as int);
                assert forall|c2: u32| mbefore.contains_key(c2) implies before[i as int].deadline
                    <= mbefore[c2].0 by {
                    let j = choose|j: int| 0 <= j < before.len() && before[j].counter == c2;
                    lemma_timeouts_at(before, j);
                }
            }
            if self.heap[i].deadline > now {
                proof {
                    assert(drops_cancelled_up_to(orig, self.timeouts(), now, None));
                    assert forall|c: u32| #[trigger] self.timeouts().contains_key(c) implies self.timeouts()[c].0 > now by {
                        assert(before[i as int].deadline <= mbefore[c].0);
                    }
                    assert forall|c: u32| #[trigger] orig.contains_key(c) && orig[c].0 <= now implies orig[c].1 is None by {
                        if self.timeouts().contains_key(c) {
                            assert(self.timeouts()[c] == orig[c]);
                        }
                    }
                }
                return None;
            }
            let TimeoutData { deadline, counter, data } = self.heap.swap_remove(i);
            proof {
                lemma_timeouts_swap_remove(before, i as int);
                assert forall|k: int| 0 <= k < self.heap@.len() implies self.heap@[k].counter
                    < self.counter by {
                    let p = if k == i {
                        before.len() - 1
                    } else {
                        k as int
                    };
                    assert(self.heap@[k] == before[p]);
                }
            }
            match data {
                Some(v) => {
                    proof {
                        assert(orig[counter] == (deadline, Some(v)));
                        assert(drops_cancelled_up_to(orig, self.timeouts(), deadline, Some(counter))) by {
                            assert forall|c: u32| orig.contains_key(c) && !self.timeouts().contains_key(c) && Some(counter) != Some(c) implies orig[c].1 is None && orig[c].0 <= deadline by {
                                if mbefore.contains_key(c) {
                                    assert(self.timeouts() == mbefore.remove(counter));
                                } else {
                                    assert(orig[c].0 <= mbefore[counter].0);
                                }
                            }
                        }
                        assert forall|c2: u32|
                            orig.contains_key(c2) && orig[c2].1 is Some implies deadline
                            <= orig[c2].0 by {
                            if !mbefore.contains_key(c2) {
                            } else {
                                assert(mbefore[c2] == orig[c2]);
                            }
                        }
                        assert(!self.timeouts().contains_key(counter));
                        assert(fires(orig, self.timeouts(), now, counter, v));
                    }
                    return Some(v);
                },
                None => {},
            }
        }
    }
}

/// What the timer thread does next (platforms without a system timer).
#[derive(Copy, Clone, Debug, PartialEq, Eq, Structural)]
pub enum ThreadStep {
    /// Sleep this many nanoseconds, or until woken up.
    Sleep(u64),
    /// The deadline has passed: wake the event loop, then sleep until woken up.
    Fire,
    /// Nothing is scheduled: sleep until woken up.
    Wait,
}

/// The timer thread's decision, given the deadline it was asked for and the
/// current time.
pub fn thread_step(deadline: Option<u64>, now: u64) -> (step: ThreadStep)
    ensures
        deadline is None ==> step == ThreadStep::Wait,
        deadline matches Some(d) ==> if d >= now {
            step == ThreadStep::Sleep((d - now) as u64)
        } else {
            step == ThreadStep::Fire
        },
{
    match deadline {
        Some(d) => {
            if d >= now {
                ThreadStep::Sleep(d - now)
            } else {
                ThreadStep::Fire
            }
        },
        None => ThreadStep::Wait,
    }
}

/// The deadline shared with the timer thread, on platforms without a system
/// timer.
#[derive(Debug)]
pub struct ThreadedDeadline {
    current_deadline: Option<u64>,
}

impl ThreadedDeadline {
    /// The deadline the thread is asked to wake up for.
    pub closed spec fn current(self) -> Option<u64> {
        self.current_deadline
    }

    /// No deadline yet.
    pub fn new() -> (s: Self)
        ensures
            s.current() is None,
    {
        ThreadedDeadline { current_deadline: None }
    }

    /// The deadline the thread is asked to wake up for.
    pub fn deadline(&self) -> (d: Option<u64>)
        ensures
            d == self.current(),
    {
        self.current_deadline
    }

    /// Ask for a wake-up at `new_deadline`; the result tells whether the
    /// thread must be woken up to take the new deadline into account.
    pub fn reschedule(&mut self, new_deadline: u64, now: u64) -> (unpark: bool)
        ensures
            unpark <==> match old(self).current() {
                Some(cur) => new_deadline < cur || cur <= now,
                None => true,
            },
            unpark ==> final(self).current() == Some(new_deadline),
            !unpark ==> final(self).current() == old(self).current(),
    {
        match self.current_deadline {
            Some(current_deadline) => {
                if new_deadline < current_deadline || current_deadline <= now {
                    self.current_deadline = Some(new_deadline);
                    true
                } else {
                    false
                }
            },
            None => {
                self.current_deadline = Some(new_deadline);
                true
            },
        }
    }

    /// Forget the deadline.
    pub fn deschedule(&mut self)
        ensures
            final(self).current() is None,
    {
        self.current_deadline = None;
    }
}

} // verus!
