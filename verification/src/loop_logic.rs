//! The decisions the event loop takes while registering sources and
//! dispatching their events.
use vstd::prelude::*;

use crate::sources::PostAction;

verus! {

/// The number of bits of a token key that store the source ID; with the
/// bits of the sub-source ID they make up the bits of `usize`.
pub open spec fn spec_max_sources() -> u32 {
    if usize::BITS == 64 {
        44
    } else if usize::BITS == 32 {
        22
    } else {
        10
    }
}

/// The number of bits of a token key that store the sub-source ID.
pub open spec fn spec_max_subsources() -> u32 {
    if usize::BITS == 64 {
        20
    } else if usize::BITS == 32 {
        10
    } else {
        6
    }
}

/// How many sources a loop can hold: two to the power of `spec_max_sources`.
pub open spec fn spec_max_sources_total() -> int {
    if usize::BITS == 64 {
        0x1000_0000_0000
    } else if usize::BITS == 32 {
        0x40_0000
    } else {
        0x400
    }
}

/// The source ids and the sub-source ids share the bits of a key, and a
/// loop holds as many sources as the source bits can count.
pub proof fn lemma_source_bits()
    ensures
        spec_max_sources() + spec_max_subsources() == usize::BITS,
        usize::BITS == 64 ==> spec_max_sources_total() == (1u64 << 44u64),
        usize::BITS == 32 ==> spec_max_sources_total() == (1u64 << 22u64),
{
    assert((1u64 << 44u64) == 0x1000_0000_0000u64) by (bit_vector);
    assert((1u64 << 22u64) == 0x40_0000u64) by (bit_vector);
}

/// The number of bits used to store the source ID.
pub fn max_sources() -> (bits: u32)
    ensures
        bits == spec_max_sources(),
{
    if usize::BITS == 64 {
        44
    } else if usize::BITS == 32 {
        22
    } else {
        10
    }
}

/// The number of bits used to store the sub-source ID.
pub fn max_subsources() -> (bits: u32)
    ensures
        bits == spec_max_subsources(),
        spec_max_sources() + bits == usize::BITS,
{
    if usize::BITS == 64 {
        20
    } else if usize::BITS == 32 {
        10
    } else {
        6
    }
}

/// How many sources a loop can hold.
pub fn max_sources_total() -> (total: u64)
    ensures
        total == spec_max_sources_total(),
{
    if usize::BITS == 64 {
        0x1000_0000_0000
    } else if usize::BITS == 32 {
        0x40_0000
    } else {
        0x400
    }
}

/// The bits of a token key that identify the source.
pub fn max_sources_mask() -> (mask: u64)
    ensures
        mask == spec_max_sources_total() - 1,
{
    max_sources_total() - 1
}

/// A token representing a registration in the event loop.
///
/// This token is given to you by the event loop when an event source is
/// inserted or a dispatcher is registered. You can use it to disable,
/// enable, update or remove it.
#[derive(Clone, Copy, Debug, PartialEq, Eq, Structural)]
pub struct RegistrationToken {
    key: usize,
}

impl RegistrationToken {
    /// The key of the registered source.
    pub closed spec fn spec_key(self) -> usize {
        self.key
    }

    /// The token of the source registered under `key`.
    pub fn new(key: usize) -> (t: RegistrationToken)
        ensures
            t.spec_key() == key,
    {
        RegistrationToken { key }
    }

    /// The key of the registered source.
    pub fn key(&self) -> (k: usize)
        ensures
            k == self.spec_key(),
    {
        self.key
    }
}

/// Whether a source can still be inserted when the next key would be
/// `vacant_key`: the key must fit the bits reserved for sources.
pub fn has_room_for(vacant_key: usize) -> (room: bool)
    ensures
        room <==> vacant_key < spec_max_sources_total(),
{
    (vacant_key as u64) < max_sources_total()
}

/// The key of the source an event is for: the source bits of its token key.
pub fn source_key(token_key: usize) -> (key: usize)
    ensures
        key == (token_key as int) % spec_max_sources_total(),
        token_key < spec_max_sources_total() ==> key == token_key,
{
    let k: u64 = token_key as u64;
    let mask: u64 = max_sources_mask();
    let masked: u64 = k & mask;
    if usize::BITS == 64 {
        assert(masked == k % 0x1000_0000_0000) by (bit_vector)
            requires
                masked == k & 0x0fff_ffff_ffff,
        ;
    } else if usize::BITS == 32 {
        assert(masked == k % 0x40_0000) by (bit_vector)
            requires
                masked == k & 0x3f_ffff,
        ;
    } else {
        assert(masked == k % 0x400) by (bit_vector)
            requires
                masked == k & 0x3ff,
        ;
    }
    masked as usize
}

/// The action taken for a source after its events were processed: what it
/// returned, unless it returned `Continue`, in which case an action
/// requested from within its callback (`pending`) takes over.
pub fn resolve_post_action(returned: PostAction, pending: PostAction) -> (action: PostAction)
    ensures
        returned == PostAction::Continue ==> action == pending,
        returned != PostAction::Continue ==> action == returned,
{
    match returned {
        PostAction::Continue => pending,
        _ => returned,
    }
}

/// What the loop does with a source once its events were processed.
#[derive(Copy, Clone, Debug, PartialEq, Eq, Structural)]
pub struct FollowUp {
    /// The action applied to the source: `Reregister` updates its
    /// registration, `Disable` unregisters it, `Remove` takes it out of the
    /// loop.
    pub action: PostAction,
    /// Whether the source is then unregistered because it is no longer in
    /// the loop.
    pub unregister: bool,
}

/// The follow-up for a source whose processing gave `returned` while
/// `pending` was requested from its callback; `still_present` tells whether
/// the source was still in the loop once its callback returned (the callback
/// may have removed it). A source that has left the loop, by its callback or
/// by the action, is unregistered.
pub fn follow_up(returned: PostAction, pending: PostAction, still_present: bool) -> (f: FollowUp)
    ensures
        f.action == (if returned == PostAction::Continue {
            pending
        } else {
            returned
        }),
        f.unregister <==> (!still_present || f.action == PostAction::Remove),
{
    let action = resolve_post_action(returned, pending);
    let removed = match action {
        PostAction::Remove => true,
        _ => false,
    };
    FollowUp { action, unregister: !still_present || removed }
}

/// The action to remember when updating or disabling a source could not be
/// done at once because the source is busy running its own callback: it is
/// applied once the callback returns.
pub fn deferred_action(done: bool, requested: PostAction) -> (pending: Option<PostAction>)
    ensures
        done ==> pending is None,
        !done ==> pending == Some(requested),
{
    if done {
        None
    } else {
        Some(requested)
    }
}

/// What `block_on` does next.
#[derive(Copy, Clone, Debug, PartialEq, Eq, Structural)]
pub enum BlockOnStep {
    /// The loop was asked to stop: give back what the future produced, if
    /// anything.
    Finish,
    /// The future was woken up: poll it, and dispatch events if it is still
    /// pending.
    PollFuture,
    /// Dispatch events.
    Dispatch,
}

/// The next step of `block_on`, given whether the loop was asked to stop
/// and whether the future was woken up since it was last polled.
pub fn block_on_step(stop: bool, future_ready: bool) -> (s: BlockOnStep)
    ensures
        stop ==> s == BlockOnStep::Finish,
        !stop && future_ready ==> s == BlockOnStep::PollFuture,
        !stop && !future_ready ==> s == BlockOnStep::Dispatch,
{
    if stop {
        BlockOnStep::Finish
    } else if future_ready {
        BlockOnStep::PollFuture
    } else {
        BlockOnStep::Dispatch
    }
}

} // verus!
