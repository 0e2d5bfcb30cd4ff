//! Wrapper for a transient event source.
//!
//! If you have high level event source that you expect to remain in the
//! event loop indefinitely, and another event source nested inside that one
//! that you expect to require removal or disabling from time to time, this
//! wrapper tracks what has to happen to the nested source.
//!
//! The registration work itself belongs to the nested source; for each of
//! `register`, `reregister`, `unregister` and `process_events` the wrapper
//! says which call of the nested source is due (`*_step`), and once that
//! call has succeeded, moves to its next state (`registered`,
//! `reregistered`, `unregistered`, `processed`).
use vstd::prelude::*;

use crate::sources::PostAction;

verus! {

/// A `TransientSource` wraps an event source and manages its registration.
#[derive(Debug)]
pub enum TransientSource<T> {
    /// The source should be kept in the loop.
    Keep(T),
    /// The source needs to be registered with the loop.
    Register(T),
    /// The source needs to be disabled but kept.
    Disable(T),
    /// The source needs to be removed from the loop.
    Remove(T),
    /// The source has been removed from the loop and dropped.
    Empty,
}

/// The state of a [`TransientSource`], without the source.
#[derive(Copy, Clone, Debug, PartialEq, Eq, Structural)]
pub enum Phase {
    Keep,
    Register,
    Disable,
    Remove,
    Empty,
}

/// The call of the nested source that is due.
#[derive(Copy, Clone, Debug, PartialEq, Eq, Structural)]
pub enum ChildCall {
    /// Register the nested source.
    Register,
    /// Update the registration of the nested source.
    Reregister,
    /// Unregister the nested source.
    Unregister,
    /// Leave the nested source alone.
    Nothing,
}

/// The nested source's call for a `register` of the wrapper.
pub open spec fn register_call(p: Phase) -> ChildCall {
    match p {
        Phase::Keep | Phase::Register | Phase::Disable => ChildCall::Register,
        Phase::Remove | Phase::Empty => ChildCall::Nothing,
    }
}

/// The state once a `register` of the wrapper has succeeded.
pub open spec fn after_register(p: Phase) -> Phase {
    match p {
        Phase::Keep | Phase::Register | Phase::Disable => Phase::Keep,
        Phase::Remove | Phase::Empty => Phase::Empty,
    }
}

/// The nested source's call for a `reregister` of the wrapper.
pub open spec fn reregister_call(p: Phase) -> ChildCall {
    match p {
        Phase::Keep => ChildCall::Reregister,
        Phase::Register => ChildCall::Register,
        Phase::Disable | Phase::Remove => ChildCall::Unregister,
        Phase::Empty => ChildCall::Nothing,
    }
}

/// The state once a `reregister` of the wrapper has succeeded.
pub open spec fn after_reregister(p: Phase) -> Phase {
    match p {
        Phase::Keep | Phase::Register => Phase::Keep,
        Phase::Disable => Phase::Disable,
        Phase::Remove | Phase::Empty => Phase::Empty,
    }
}

/// The nested source's call for an `unregister` of the wrapper.
pub open spec fn unregister_call(p: Phase) -> ChildCall {
    match p {
        Phase::Empty => ChildCall::Nothing,
        _ => ChildCall::Unregister,
    }
}

/// The state once an `unregister` of the wrapper has succeeded.
pub open spec fn after_unregister(p: Phase) -> Phase {
    match p {
        Phase::Remove => Phase::Empty,
        _ => p,
    }
}

/// The state after the nested source processed its events and asked for
/// `action` (only a kept source processes events).
pub open spec fn after_process(p: Phase, action: PostAction) -> Phase {
    if p == Phase::Keep {
        match action {
            PostAction::Continue | PostAction::Reregister => Phase::Keep,
            PostAction::Disable => Phase::Disable,
            PostAction::Remove => Phase::Remove,
        }
    } else {
        p
    }
}

/// What the wrapper asks of the loop after the nested source processed its
/// events and asked for `action`.
pub open spec fn process_result(p: Phase, action: PostAction) -> PostAction {
    if p == Phase::Keep && action != PostAction::Continue {
        PostAction::Reregister
    } else {
        PostAction::Continue
    }
}

impl<T> TransientSource<T> {
    /// The state of the wrapper.
    pub open spec fn phase(self) -> Phase {
        match self {
            TransientSource::Keep(_) => Phase::Keep,
            TransientSource::Register(_) => Phase::Register,
            TransientSource::Disable(_) => Phase::Disable,
            TransientSource::Remove(_) => Phase::Remove,
            TransientSource::Empty => Phase::Empty,
        }
    }

    /// The wrapped source (meaningful unless the wrapper is empty).
    pub open spec fn inner(self) -> T
        recommends
            self.phase() != Phase::Empty,
    {
        match self {
            TransientSource::Keep(s) => s,
            TransientSource::Register(s) => s,
            TransientSource::Disable(s) => s,
            TransientSource::Remove(s) => s,
            TransientSource::Empty => arbitrary(),
        }
    }

    /// Apply a function to the enclosed source, if it exists. It will be
    /// applied even if the source is ready to be removed or is disabled.
    ///
    /// `f` runs once on the enclosed source, and its result is returned; an
    /// empty wrapper does not run it.
    pub fn map<F, U>(&mut self, f: F) -> (r: Option<U>)
        where
            F: FnOnce(&mut T) -> U,
        requires
            old(self).phase() != Phase::Empty ==> forall|s: &mut T|
                *s == old(self).inner() ==> #[trigger] f.requires((s,)),
        ensures
            final(self).phase() == old(self).phase(),
            old(self).phase() == Phase::Empty ==> r is None,
            old(self).phase() != Phase::Empty ==> exists|s: &mut T, u: U|
                {
                    &&& r == Some(u)
                    &&& *s == old(self).inner()
                    &&& #[trigger] f.ensures((s,), u)
                    &&& *final(s) == final(self).inner()
                },
    {
        match self {
            TransientSource::Keep(source) => Some(f(source)),
            TransientSource::Register(source) => Some(f(source)),
            TransientSource::Disable(source) => Some(f(source)),
            TransientSource::Remove(source) => Some(f(source)),
            TransientSource::Empty => None,
        }
    }

    /// Returns `true` if there is no wrapped event source.
    pub fn is_none(&self) -> (r: bool)
        ensures
            r <==> self.phase() == Phase::Empty,
    {
        match self {
            TransientSource::Empty => true,
            _ => false,
        }
    }

    /// Move the enclosed source, if any, into the state `phase` (which is
    /// not `Empty`). An empty wrapper stays empty.
    fn replace(&mut self, phase: Phase)
        requires
            phase != Phase::Empty,
        ensures
            old(self).phase() == Phase::Empty ==> final(self).phase() == Phase::Empty,
            old(self).phase() != Phase::Empty ==> final(self).phase() == phase && final(self).inner() == old(self).inner(),
    {
        let mut taken = TransientSource::Empty;
        std::mem::swap(&mut taken, self);
        let source = match taken {
            TransientSource::Keep(source) => source,
            TransientSource::Register(source) => source,
            TransientSource::Disable(source) => source,
            TransientSource::Remove(source) => source,
            TransientSource::Empty => {
                return ;
            },
        };
        *self = match phase {
            Phase::Keep => TransientSource::Keep(source),
            Phase::Register => TransientSource::Register(source),
            Phase::Disable => TransientSource::Disable(source),
            _ => TransientSource::Remove(source),
        };
    }

    /// The nested source's call due for a `register` of the wrapper.
    pub fn register_step(&self) -> (c: ChildCall)
        ensures
            c == register_call(self.phase()),
    {
        match self {
            TransientSource::Keep(_) => ChildCall::Register,
            TransientSource::Register(_) => ChildCall::Register,
            TransientSource::Disable(_) => ChildCall::Register,
            _ => ChildCall::Nothing,
        }
    }

    /// The wrapper was registered: the call of `register_step` succeeded.
    pub fn registered(&mut self)
        ensures
            final(self).phase() == after_register(old(self).phase()),
            final(self).phase() != Phase::Empty ==> final(self).inner() == old(self).inner(),
    {
        match self {
            TransientSource::Keep(_) => {},
            TransientSource::Register(_) | TransientSource::Disable(_) => {
                self.replace(Phase::Keep);
            },
            TransientSource::Remove(_) => {
                *self = TransientSource::Empty;
            },
            TransientSource::Empty => {},
        }
    }

    /// The nested source's call due for a `reregister` of the wrapper.
    pub fn reregister_step(&self) -> (c: ChildCall)
        ensures
            c == reregister_call(self.phase()),
    {
        match self {
            TransientSource::Keep(_) => ChildCall::Reregister,
            TransientSource::Register(_) => ChildCall::Register,
            TransientSource::Disable(_) | TransientSource::Remove(_) => ChildCall::Unregister,
            TransientSource::Empty => ChildCall::Nothing,
        }
    }

    /// The wrapper was re-registered: the call of `reregister_step`
    /// succeeded.
    pub fn reregistered(&mut self)
        ensures
            final(self).phase() == after_reregister(old(self).phase()),
            final(self).phase() != Phase::Empty ==> final(self).inner() == old(self).inner(),
    {
        match self {
            TransientSource::Keep(_) => {},
            TransientSource::Register(_) => {
                self.replace(Phase::Keep);
            },
            TransientSource::Disable(_) => {},
            TransientSource::Remove(_) => {
                *self = TransientSource::Empty;
            },
            TransientSource::Empty => {},
        }
    }

    /// The nested source's call due for an `unregister` of the wrapper.
    pub fn unregister_step(&self) -> (c: ChildCall)
        ensures
            c == unregister_call(self.phase()),
    {
        match self {
            TransientSource::Empty => ChildCall::Nothing,
            _ => ChildCall::Unregister,
        }
    }

    /// The wrapper was unregistered: the call of `unregister_step` succeeded.
    pub fn unregistered(&mut self)
        ensures
            final(self).phase() == after_unregister(old(self).phase()),
            final(self).phase() != Phase::Empty ==> final(self).inner() == old(self).inner(),
    {
        match self {
            TransientSource::Remove(_) => {
                *self = TransientSource::Empty;
            },
            _ => {},
        }
    }

    /// Whether the nested source is to process the events: only a kept
    /// source does.
    pub fn process_events_step(&self) -> (active: bool)
        ensures
            active <==> self.phase() == Phase::Keep,
    {
        match self {
            TransientSource::Keep(_) => true,
            _ => false,
        }
    }

    /// The nested source processed its events and asked for `action` (or
    /// was not asked to, see `process_events_step`): flag it for disabling
    /// or removal if it asked for that, and tell the loop what to do.
    pub fn processed(&mut self, action: PostAction) -> (r: PostAction)
        ensures
            final(self).phase() == after_process(old(self).phase(), action),
            final(self).phase() != Phase::Empty ==> final(self).inner() == old(self).inner(),
            r == process_result(old(self).phase(), action),
            r == PostAction::Continue || r == PostAction::Reregister,
    {
        let kept = match self {
            TransientSource::Keep(_) => true,
            _ => false,
        };
        if !kept {
            return PostAction::Continue;
        }
        match action {
            PostAction::Continue => PostAction::Continue,
            PostAction::Reregister => PostAction::Reregister,
            PostAction::Disable => {
                self.replace(Phase::Disable);
                PostAction::Reregister
            },
            PostAction::Remove => {
                self.replace(Phase::Remove);
                PostAction::Reregister
            },
        }
    }
}

/// A new source waits for its first registration.
impl<T> From<T> for TransientSource<T> {
    fn from(source: T) -> (t: Self) {
        TransientSource::Register(source)
    }
}

impl<T> vstd::std_specs::convert::FromSpecImpl<T> for TransientSource<T> {
    open spec fn obeys_from_spec() -> bool {
        true
    }

    open spec fn from_spec(v: T) -> Self {
        TransientSource::Register(v)
    }
}

/// Once registered, a wrapper either keeps its source or has dropped it.
pub proof fn lemma_register_settles(p: Phase)
    ensures
        after_register(p) == Phase::Keep || after_register(p) == Phase::Empty,
{
}

/// A source that asked to be removed is dropped at the next update of the
/// wrapper's registration, whichever it is.
pub proof fn lemma_removal_completes(p: Phase)
    ensures
        after_process(p, PostAction::Remove) == Phase::Remove ==> {
            &&& after_register(Phase::Remove) == Phase::Empty
            &&& after_reregister(Phase::Remove) == Phase::Empty
            &&& after_unregister(Phase::Remove) == Phase::Empty
        },
{
}

/// A source that asked to be disabled is unregistered at the next
/// re-registration, stays disabled, and comes back when the wrapper is
/// registered again.
pub proof fn lemma_disable_then_enable()
    ensures
        after_process(Phase::Keep, PostAction::Disable) == Phase::Disable,
        process_result(Phase::Keep, PostAction::Disable) == PostAction::Reregister,
        reregister_call(Phase::Disable) == ChildCall::Unregister,
        after_reregister(Phase::Disable) == Phase::Disable,
        register_call(Phase::Disable) == ChildCall::Register,
        after_register(Phase::Disable) == Phase::Keep,
{
}

/// An empty wrapper is inert: it never calls a nested source, never asks
/// the loop for anything, and stays empty.
pub proof fn lemma_empty_is_inert(action: PostAction)
    ensures
        register_call(Phase::Empty) == ChildCall::Nothing,
        reregister_call(Phase::Empty) == ChildCall::Nothing,
        unregister_call(Phase::Empty) == ChildCall::Nothing,
        after_register(Phase::Empty) == Phase::Empty,
        after_reregister(Phase::Empty) == Phase::Empty,
        after_unregister(Phase::Empty) == Phase::Empty,
        after_process(Phase::Empty, action) == Phase::Empty,
        process_result(Phase::Empty, action) == PostAction::Continue,
{
}

/// A kept wrapper passes every request of its nested source on to the loop
/// as a re-registration (which is how the wrapper gets to register, disable
/// or drop the nested source), and asks for nothing when the nested source
/// asks for nothing. A wrapper that is not kept never asks for anything.
pub proof fn lemma_kept_passes_requests_on(p: Phase, action: PostAction)
    ensures
        p == Phase::Keep && action != PostAction::Continue ==> process_result(p, action)
            == PostAction::Reregister,
        p == Phase::Keep && action == PostAction::Continue ==> process_result(p, action)
            == PostAction::Continue,
        p != Phase::Keep ==> process_result(p, action) == PostAction::Continue,
        p == Phase::Keep ==> (after_process(p, action) == Phase::Disable <==> action
            == PostAction::Disable),
        p == Phase::Keep ==> (after_process(p, action) == Phase::Remove <==> action
            == PostAction::Remove),
        p == Phase::Keep && (action == PostAction::Continue || action == PostAction::Reregister)
            ==> after_process(p, action) == Phase::Keep,
{
}

/// Re-registering the wrapper refreshes the nested source's registration
/// exactly when the source stays in the loop: a kept source is re-registered,
/// one waiting for its first registration is registered, one to disable or
/// remove is unregistered, and an empty wrapper calls nothing.
pub proof fn lemma_reregister_refreshes_kept_source(p: Phase)
    ensures
        reregister_call(p) == ChildCall::Reregister <==> p == Phase::Keep,
        reregister_call(p) == ChildCall::Register <==> p == Phase::Register,
        reregister_call(p) == ChildCall::Unregister <==> (p == Phase::Disable || p
            == Phase::Remove),
        reregister_call(p) == ChildCall::Nothing <==> p == Phase::Empty,
        after_reregister(p) == Phase::Keep ==> (reregister_call(p) == ChildCall::Reregister
            || reregister_call(p) == ChildCall::Register),
        register_call(p) == ChildCall::Register <==> (p == Phase::Keep || p == Phase::Register
            || p == Phase::Disable),
        unregister_call(p) == ChildCall::Unregister <==> p != Phase::Empty,
{
}

/// How each update of the wrapper's registration moves its state: a
/// registration keeps whatever source is there (dropping one asked to be
/// removed), a re-registration keeps a kept or new source, leaves a
/// disabled one disabled and drops one asked to be removed, and an
/// unregistration only drops a source asked to be removed.
pub proof fn lemma_registration_moves(p: Phase)
    ensures
        after_register(p) == Phase::Keep <==> (p == Phase::Keep || p == Phase::Register || p
            == Phase::Disable),
        after_reregister(p) == Phase::Keep <==> (p == Phase::Keep || p == Phase::Register),
        after_reregister(p) == Phase::Disable <==> p == Phase::Disable,
        after_reregister(p) == Phase::Empty <==> (p == Phase::Remove || p == Phase::Empty),
        p != Phase::Remove ==> after_unregister(p) == p,
        after_unregister(Phase::Remove) == Phase::Empty,
{
}

} // verus!
