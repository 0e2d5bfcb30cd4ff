//! Event sources: the actions they request from the event loop once their
//! events are processed, and the idle callbacks queued on the loop.
use vstd::prelude::*;

use std::ops::{BitOr, BitOrAssign};

pub mod futures;
pub mod ping;
pub mod timer;
pub mod transient;

verus! {

/// Possible actions that can be requested to the event loop by an
/// event source once its events have been processed.
///
/// `PostAction` values can be combined with the `|` (bit-or) operator (or with
/// `|=`) with the result that:
/// - if both values are identical, the result is that value
/// - if they are different, the result is [`Reregister`](PostAction::Reregister)
#[derive(Copy, Clone, Debug, PartialEq, Eq, Structural)]
pub enum PostAction {
    /// Continue listening for events on this source as before
    Continue,
    /// Trigger a re-registration of this source
    Reregister,
    /// Disable this source
    Disable,
    /// Remove this source from the eventloop
    Remove,
}

/// What `a | b` is: the common value when both agree, `Reregister` otherwise.
pub open spec fn combine(a: PostAction, b: PostAction) -> PostAction {
    if a == b {
        a
    } else {
        PostAction::Reregister
    }
}

/// Combines `PostAction` values returned from nested event sources.
impl BitOr for PostAction {
    type Output = Self;

    fn bitor(self, rhs: Self) -> (r: Self::Output) {
        if self == rhs {
            self
        } else {
            PostAction::Reregister
        }
    }
}

impl vstd::std_specs::ops::BitOrSpecImpl for PostAction {
    open spec fn obeys_bitor_spec() -> bool {
        true
    }

    open spec fn bitor_req(self, rhs: Self) -> bool {
        true
    }

    open spec fn bitor_spec(self, rhs: Self) -> Self {
        combine(self, rhs)
    }
}

/// Combines `PostAction` values returned from nested event sources.
impl BitOrAssign for PostAction {
    fn bitor_assign(&mut self, rhs: Self)
        ensures
            *final(self) == combine(*old(self), rhs),
    {
        if *self != rhs {
            *self = PostAction::Reregister;
        }
    }
}

/// Combining is commutative: the order in which child results are merged
/// does not matter.
pub proof fn lemma_combine_commutative(a: PostAction, b: PostAction)
    ensures
        combine(a, b) == combine(b, a),
{
}

/// Combining is associative, so any number of child results can be folded
/// in any grouping.
pub proof fn lemma_combine_associative(a: PostAction, b: PostAction, c: PostAction)
    ensures
        combine(combine(a, b), c) == combine(a, combine(b, c)),
{
}

/// Combining a value with itself gives that value back.
pub proof fn lemma_combine_idempotent(a: PostAction)
    ensures
        combine(a, a) == a,
{
}

/// `Reregister` absorbs every other value.
pub proof fn lemma_combine_reregister_absorbs(a: PostAction)
    ensures
        combine(PostAction::Reregister, a) == PostAction::Reregister,
        combine(a, PostAction::Reregister) == PostAction::Reregister,
{
}

/// Two different actions combine to `Reregister`.
pub proof fn lemma_combine_different(a: PostAction, b: PostAction)
    requires
        a != b,
    ensures
        combine(a, b) == PostAction::Reregister,
{
}

/// When every child returns `Continue`, so does the combination.
pub proof fn lemma_combine_all_continue(s: Seq<PostAction>)
    requires
        forall|i: int| 0 <= i < s.len() ==> s[i] == PostAction::Continue,
    ensures
        s.fold_left(PostAction::Continue, |acc: PostAction, x: PostAction| combine(acc, x))
            == PostAction::Continue,
    decreases s.len(),
{
    if s.len() > 0 {
        lemma_combine_all_continue(s.drop_last());
    }
}


/// An idle callback that was inserted in a loop's [`IdleQueue`].
///
/// This handle allows you to cancel the callback. Dropping it will *not*
/// cancel it.
#[derive(Debug)]
pub struct Idle {
    id: u64,
}

impl Idle {
    /// The identifier under which the callback waits in its queue.
    pub closed spec fn id(self) -> u64 {
        self.id
    }

    /// Cancel the idle callback if it was not already run.
    pub fn cancel<F>(self, queue: &mut IdleQueue<F>)
        requires
            old(queue).wf(),
        ensures
            final(queue).wf(),
            final(queue).next_id() == old(queue).next_id(),
            final(queue).entries() == cancelled_entries(old(queue).entries(), self.id()),
    {
        queue.cancel_id(self.id);
    }
}

/// The callbacks waiting for the loop to become idle, in insertion order.
///
/// Each callback has an identifier, drawn from a counter that never goes
/// back, so that a stale [`Idle`] handle can never cancel a later callback.
#[derive(Debug)]
pub struct IdleQueue<F> {
    next_id: u64,
    entries: Vec<(u64, Option<F>)>,
}

/// `entries` once the callback with identifier `id` is cancelled: its slot
/// is emptied, the others are left alone.
pub open spec fn cancelled_entries<F>(entries: Seq<(u64, Option<F>)>, id: u64) -> Seq<(u64, Option<F>)> {
    Seq::new(
        entries.len(),
        |i: int|
            if entries[i].0 == id {
                (id, None)
            } else {
                entries[i]
            },
    )
}

/// Taking the next callback of the batch of callbacks queued before `bound`
/// took the one at position `j` of `old`, callback `f`, and left `new`: the
/// entries before it were cancelled ones of the batch, dropped with it.
pub open spec fn takes_at<F>(
    old: Seq<(u64, Option<F>)>,
    bound: u64,
    new: Seq<(u64, Option<F>)>,
    f: F,
    j: int,
) -> bool {
    &&& 0 <= j < old.len()
    &&& old[j].0 < bound
    &&& old[j].1 == Some(f)
    &&& forall|i: int| 0 <= i < j ==> (#[trigger] old[i]).0 < bound && old[i].1 is None
    &&& new == old.skip(j + 1)
}

/// The batch of callbacks queued before `bound` is exhausted in `old`: what
/// is left of it was cancelled and is dropped, leaving `new`.
pub open spec fn batch_done<F>(
    old: Seq<(u64, Option<F>)>,
    bound: u64,
    new: Seq<(u64, Option<F>)>,
) -> bool {
    exists|k: int|
        {
            &&& 0 <= k <= old.len()
            &&& forall|i: int| 0 <= i < k ==> (#[trigger] old[i]).0 < bound && old[i].1 is None
            &&& k < old.len() ==> old[k].0 >= bound
            &&& new == old.skip(k)
        }
}

/// The callbacks still to run in the batch queued before `bound`, in order:
/// those at the front of `s` queued before `bound` and not cancelled.
pub open spec fn live_in_batch<F>(s: Seq<(u64, Option<F>)>, bound: u64) -> Seq<F>
    decreases s.len(),
{
    if s.len() == 0 || s[0].0 >= bound {
        Seq::empty()
    } else {
        let rest = live_in_batch(s.drop_first(), bound);
        match s[0].1 {
            Some(f) => seq![f] + rest,
            None => rest,
        }
    }
}

/// Idle callbacks run in the order they were queued, each once: the
/// callback taken is the first still to run in the batch, and the rest of
/// the batch is what is still to run afterwards.
pub proof fn lemma_batch_runs_in_order<F>(
    old: Seq<(u64, Option<F>)>,
    bound: u64,
    new: Seq<(u64, Option<F>)>,
    f: F,
    j: int,
)
    requires
        takes_at(old, bound, new, f, j),
    ensures
        live_in_batch(old, bound) == seq![f] + live_in_batch(new, bound),
    decreases j,
{
    if j > 0 {
        assert(takes_at(old.drop_first(), bound, new, f, j - 1)) by {
            assert forall|i: int| 0 <= i < j - 1 implies (#[trigger] old.drop_first()[i]).0 < bound
                && old.drop_first()[i].1 is None by {
                assert(old.drop_first()[i] == old[i + 1]);
            }
            assert(old.drop_first().skip(j) =~= old.skip(j + 1));
        }
        lemma_batch_runs_in_order(old.drop_first(), bound, new, f, j - 1);
        assert(old[0].0 < bound && old[0].1 is None);
    } else {
        assert(old.drop_first() =~= new);
    }
}

/// A batch that is done has nothing left to run.
pub proof fn lemma_batch_done_runs_nothing<F>(
    old: Seq<(u64, Option<F>)>,
    bound: u64,
    new: Seq<(u64, Option<F>)>,
)
    requires
        batch_done(old, bound, new),
    ensures
        live_in_batch(old, bound) == Seq::<F>::empty(),
{
    let k = choose|k: int|
        {
            &&& 0 <= k <= old.len()
            &&& forall|i: int| 0 <= i < k ==> (#[trigger] old[i]).0 < bound && old[i].1 is None
            &&& k < old.len() ==> old[k].0 >= bound
            &&& new == old.skip(k)
        };
    lemma_batch_prefix_cancelled(old, bound, k);
}

proof fn lemma_batch_prefix_cancelled<F>(s: Seq<(u64, Option<F>)>, bound: u64, k: int)
    requires
        0 <= k <= s.len(),
        forall|i: int| 0 <= i < k ==> (#[trigger] s[i]).0 < bound && s[i].1 is None,
        k < s.len() ==> s[k].0 >= bound,
    ensures
        live_in_batch(s, bound) == Seq::<F>::empty(),
    decreases k,
{
    if k > 0 {
        assert forall|i: int| 0 <= i < k - 1 implies (#[trigger] s.drop_first()[i]).0 < bound
            && s.drop_first()[i].1 is None by {
            assert(s.drop_first()[i] == s[i + 1]);
        }
        if k - 1 < s.drop_first().len() {
            assert(s.drop_first()[k - 1] == s[k]);
        }
        lemma_batch_prefix_cancelled(s.drop_first(), bound, k - 1);
        assert(s[0].0 < bound && s[0].1 is None);
    }
}

/// A callback cancelled before it is reached never runs, even when it is
/// cancelled while its batch is running: the next callback taken after the
/// cancellation is another one.
pub proof fn lemma_cancelled_idle_never_runs<F>(
    entries: Seq<(u64, Option<F>)>,
    id: u64,
    bound: u64,
    new: Seq<(u64, Option<F>)>,
    f: F,
    j: int,
)
    requires
        takes_at(cancelled_entries(entries, id), bound, new, f, j),
    ensures
        entries[j].0 != id,
{
}

impl<F> IdleQueue<F> {
    /// The waiting callbacks with their identifiers (`None` once cancelled).
    pub closed spec fn entries(self) -> Seq<(u64, Option<F>)> {
        self.entries@
    }

    /// The identifier the next inserted callback will receive.
    pub closed spec fn next_id(self) -> u64 {
        self.next_id
    }

    /// Identifiers strictly increase along the queue and stay below `next_id`.
    pub open spec fn wf(self) -> bool {
        &&& forall|i: int, j: int|
            0 <= i < j < self.entries().len() ==> self.entries()[i].0 < self.entries()[j].0
        &&& forall|i: int| 0 <= i < self.entries().len() ==> self.entries()[i].0 < self.next_id()
    }

    /// An empty queue.
    pub fn new() -> (q: Self)
        ensures
            q.wf(),
            q.entries().len() == 0,
            q.next_id() == 0,
    {
        IdleQueue { next_id: 0, entries: Vec::new() }
    }

    /// How many callbacks were queued so far: the identifier of the next one.
    pub fn issued(&self) -> (id: u64)
        ensures
            id == self.next_id(),
    {
        self.next_id
    }

    /// Queue a callback; the returned handle can cancel it.
    pub fn insert(&mut self, callback: F) -> (idle: Idle)
        requires
            old(self).wf(),
            old(self).next_id() < u64::MAX,
        ensures
            final(self).wf(),
            idle.id() == old(self).next_id(),
            final(self).next_id() == old(self).next_id() + 1,
            final(self).entries() == old(self).entries().push((idle.id(), Some(callback))),
    {
        let id = self.next_id;
        let ghost before = self.entries@;
        self.entries.push((id, Some(callback)));
        self.next_id = id + 1;
        proof {
            assert forall|i: int, j: int| 0 <= i < j < self.entries().len() implies self.entries()[i].0
                < self.entries()[j].0 by {
                assert(old(self).entries()[i].0 < old(self).next_id());
                if j < before.len() {
                    assert(old(self).entries()[i].0 < old(self).entries()[j].0);
                }
            }
            assert forall|i: int| 0 <= i < self.entries().len() implies self.entries()[i].0
                < self.next_id() by {
                if i < before.len() {
                    assert(old(self).entries()[i].0 < old(self).next_id());
                }
            }
        }
        Idle { id }
    }

    fn cancel_id(&mut self, id: u64)
        requires
            old(self).wf(),
        ensures
            final(self).wf(),
            final(self).next_id() == old(self).next_id(),
            final(self).entries().len() == old(self).entries().len(),
            forall|i: int|
                0 <= i < old(self).entries().len() ==> #[trigger] final(self).entries()[i] == (
                if old(self).entries()[i].0 == id {
                    (id, None)
                } else {
                    old(self).entries()[i]
                }),
    {
        let n = self.entries.len();
        let mut i: usize = 0;
        while i < n
            invariant
                n == old(self).entries@.len(),
                self.entries@.len() == n,
                self.next_id == old(self).next_id,
                i <= n,
                forall|k: int|
                    0 <= k < i ==> #[trigger] self.entries@[k] == (
                    if old(self).entries@[k].0 == id {
                        (id, None)
                    } else {
                        old(self).entries@[k]
                    }),
                forall|k: int| i <= k < n ==> #[trigger] self.entries@[k] == old(self).entries@[k],
                old(self).wf(),
            decreases n - i,
        {
            if self.entries[i].0 == id {
                self.entries.set(i, (id, None));
            }
            i = i + 1;
        }
        proof {
            assert forall|a: int, b: int| 0 <= a < b < self.entries@.len() implies
                self.entries@[a].0 < self.entries@[b].0 by {
                assert(self.entries@[a].0 == old(self).entries@[a].0);
                assert(self.entries@[b].0 == old(self).entries@[b].0);
            }
            assert forall|a: int| 0 <= a < self.entries@.len() implies
                self.entries@[a].0 < self.next_id by {
                assert(self.entries@[a].0 == old(self).entries@[a].0);
            }
        }
    }

    /// The bound of the batch of callbacks queued so far: those with an
    /// identifier below it. Callbacks queued later wait for the next batch.
    pub fn batch_bound(&self) -> (bound: u64)
        ensures
            bound == self.next_id(),
    {
        self.next_id
    }

    /// Take out the next callback to run of the batch queued before
    /// `bound`, dropping the cancelled ones met on the way; `None` once the
    /// batch is exhausted. Taking them one at a time lets a callback of the
    /// batch cancel a later one.
    pub fn next_in_batch(&mut self, bound: u64) -> (r: Option<F>)
        requires
            old(self).wf(),
        ensures
            final(self).wf(),
            final(self).next_id() == old(self).next_id(),
            r is None ==> batch_done(old(self).entries(), bound, final(self).entries()),
            r matches Some(f) ==> exists|j: int|
                #[trigger] takes_at(old(self).entries(), bound, final(self).entries(), f, j),
    {
        let ghost orig = self.entries@;
        let total: usize = self.entries.len();
        let mut k: usize = 0;
        while self.entries.len() > 0 && self.entries[0].0 < bound
            invariant
                self.wf(),
                self.next_id == old(self).next_id,
                orig == old(self).entries@,
                old(self).wf(),
                orig.len() == total,
                0 <= k <= orig.len(),
                self.entries@ == orig.skip(k as int),
                forall|i: int| 0 <= i < k ==> (#[trigger] orig[i]).0 < bound && orig[i].1 is None,
            decreases self.entries@.len(),
        {
            let ghost before = self.entries@;
            let (id, cb) = self.entries.remove(0);
            proof {
                assert(before[0] == orig[k as int]);
                assert(self.entries@ =~= orig.skip(k + 1));
                assert forall|a: int, b: int| 0 <= a < b < self.entries().len() implies
                    self.entries()[a].0 < self.entries()[b].0 by {
                    assert(self.entries()[a] == orig[k + 1 + a]);
                    assert(self.entries()[b] == orig[k + 1 + b]);
                    assert(old(self).entries()[k + 1 + a].0 < old(self).entries()[k + 1 + b].0);
                }
                assert forall|a: int| 0 <= a < self.entries().len() implies self.entries()[a].0
                    < self.next_id() by {
                    assert(self.entries()[a] == orig[k + 1 + a]);
                    assert(old(self).entries()[k + 1 + a].0 < old(self).next_id());
                }
            }
            match cb {
                Some(f) => {
                    proof {
                        assert(takes_at(orig, bound, self.entries@, f, k as int));
                    }
                    return Some(f);
                },
                None => {},
            }
            k = k + 1;
        }
        proof {
            assert(batch_done(orig, bound, self.entries@)) by {
                if (k as int) < orig.len() {
                    assert(self.entries@[0] == orig[k as int]);
                }
            }
        }
        None
    }
}

} // verus!
