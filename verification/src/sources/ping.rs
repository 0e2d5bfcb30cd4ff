//! Ping to the event loop: the decisions of the ping event source.
//!
//! A ping source produces one `()` event however many times it was pinged
//! between two dispatches, and asks to be removed once every sending end is
//! gone.
use vstd::prelude::*;

use crate::sources::PostAction;

verus! {

/// What one non-blocking read of the ping pipe gave.
#[derive(Copy, Clone, Debug, PartialEq, Eq, Structural)]
pub enum ReadOutcome {
    /// Some bytes were read: pings are pending.
    Data,
    /// End of file: every sending end was closed.
    Closed,
    /// Nothing more to read for now.
    WouldBlock,
    /// Any other error.
    Failed,
}

/// What to do after a read of the pipe.
#[derive(Copy, Clone, Debug, PartialEq, Eq, Structural)]
pub enum DrainStep {
    /// Read again.
    ReadAgain,
    /// The pipe is drained: call the callback once if `notify`, then return
    /// `action` to the loop.
    Done { action: PostAction, notify: bool },
    /// Propagate the read error.
    Error,
}

/// One step of draining the ping pipe: whether some ping was read once the
/// read gave `outcome`, after `pinged` before, and what to do next.
pub open spec fn drain_step(pinged: bool, outcome: ReadOutcome) -> (bool, DrainStep) {
    match outcome {
        ReadOutcome::Data => (true, DrainStep::ReadAgain),
        ReadOutcome::Closed => (pinged, DrainStep::Done { action: PostAction::Remove, notify: pinged }),
        ReadOutcome::WouldBlock => (
            pinged,
            DrainStep::Done { action: PostAction::Continue, notify: pinged },
        ),
        ReadOutcome::Failed => (pinged, DrainStep::Error),
    }
}

/// Each read moves the drain as the pipe demands: data means a ping came
/// and the pipe is read again; an empty pipe ends the drain, keeping the
/// source and notifying if some ping came; a closed pipe ends it, removing
/// the source and notifying if some ping came; a failed read is an error.
pub proof fn lemma_drain_step_outcomes(pinged: bool, outcome: ReadOutcome)
    ensures
        outcome == ReadOutcome::Data ==> drain_step(pinged, outcome) == (
            true,
            DrainStep::ReadAgain,
        ),
        outcome == ReadOutcome::WouldBlock ==> drain_step(pinged, outcome) == (
            pinged,
            DrainStep::Done { action: PostAction::Continue, notify: pinged },
        ),
        outcome == ReadOutcome::Closed ==> drain_step(pinged, outcome) == (
            pinged,
            DrainStep::Done { action: PostAction::Remove, notify: pinged },
        ),
        outcome == ReadOutcome::Failed ==> drain_step(pinged, outcome).1 == DrainStep::Error,
        outcome != ReadOutcome::Data ==> drain_step(pinged, outcome).0 == pinged,
{
}

/// Draining the pipe through the reads `outcomes`, from `pinged`: the steps
/// go on while they say to read again.
pub open spec fn drain_all(pinged: bool, outcomes: Seq<ReadOutcome>) -> (bool, DrainStep)
    decreases outcomes.len(),
{
    if outcomes.len() == 0 {
        (pinged, DrainStep::ReadAgain)
    } else {
        let (p, next) = drain_step(pinged, outcomes[0]);
        if next == DrainStep::ReadAgain {
            drain_all(p, outcomes.drop_first())
        } else {
            (p, next)
        }
    }
}

/// However many times the source was pinged before its pipe is drained, it
/// produces one event, and none when it was not pinged.
pub proof fn lemma_pings_coalesce(n: nat)
    ensures
        drain_all(false, Seq::new(n, |i: int| ReadOutcome::Data).push(ReadOutcome::WouldBlock))
            == (n > 0, DrainStep::Done { action: PostAction::Continue, notify: n > 0 }),
{
    lemma_drain_reads(false, n);
}

proof fn lemma_drain_reads(pinged: bool, n: nat)
    ensures
        drain_all(pinged, Seq::new(n, |i: int| ReadOutcome::Data).push(ReadOutcome::WouldBlock))
            == (pinged || n > 0, DrainStep::Done {
            action: PostAction::Continue,
            notify: pinged || n > 0,
        }),
    decreases n,
{
    let s = Seq::new(n, |i: int| ReadOutcome::Data).push(ReadOutcome::WouldBlock);
    if n > 0 {
        let rest = Seq::new((n - 1) as nat, |i: int| ReadOutcome::Data).push(
            ReadOutcome::WouldBlock,
        );
        assert(s.drop_first() =~= rest);
        lemma_drain_reads(true, (n - 1) as nat);
    } else {
        assert(s.drop_first() =~= Seq::<ReadOutcome>::empty());
    }
}

/// The state of draining the ping pipe: whether some ping was read.
#[derive(Copy, Clone, Debug, PartialEq, Eq, Structural)]
pub struct PipeDrain {
    read_something: bool,
}

impl PipeDrain {
    /// Whether some ping was read so far.
    pub closed spec fn pinged(self) -> bool {
        self.read_something
    }

    /// Nothing read yet.
    pub fn new() -> (d: Self)
        ensures
            !d.pinged(),
    {
        PipeDrain { read_something: false }
    }

    /// Take the outcome of one read into account.
    pub fn step(&mut self, outcome: ReadOutcome) -> (next: DrainStep)
        ensures
            (final(self).pinged(), next) == drain_step(old(self).pinged(), outcome),
    {
        match outcome {
            ReadOutcome::Data => {
                self.read_something = true;
                DrainStep::ReadAgain
            },
            ReadOutcome::Closed => DrainStep::Done {
                action: PostAction::Remove,
                notify: self.read_something,
            },
            ReadOutcome::WouldBlock => DrainStep::Done {
                action: PostAction::Continue,
                notify: self.read_something,
            },
            ReadOutcome::Failed => DrainStep::Error,
        }
    }
}

/// What a ping adds to the eventfd counter.
pub const INCREMENT_PING: u64 = 0x2;

/// What the closing of the last sending end adds to the eventfd counter.
pub const INCREMENT_CLOSE: u64 = 0x1;

/// What the eventfd counter read by the source says.
#[derive(Copy, Clone, Debug, PartialEq, Eq, Structural)]
pub struct CounterEvents {
    /// Some ping arrived.
    pub ping: bool,
    /// The sending side was closed.
    pub close: bool,
}

/// Split the eventfd counter: its low bit tells the closing, any other bit
/// a ping.
pub fn decode_counter(counter: u64) -> (e: CounterEvents)
    ensures
        e.close <==> counter % 2 == 1,
        e.ping <==> counter >= 2,
{
    let close = (counter & INCREMENT_CLOSE) != 0;
    let ping = (counter & (u64::MAX - 1)) != 0;
    assert(close <==> counter % 2 == 1) by (bit_vector)
        requires
            close == ((counter & 1) != 0),
    ;
    assert(ping <==> counter >= 2) by (bit_vector)
        requires
            ping == ((counter & 0xffff_ffff_ffff_fffe) != 0),
    ;
    CounterEvents { ping, close }
}

/// What the eventfd source does with a drained counter.
pub fn counter_outcome(e: CounterEvents) -> (r: DrainStep)
    ensures
        r == (DrainStep::Done {
            action: if e.close {
                PostAction::Remove
            } else {
                PostAction::Continue
            },
            notify: e.ping,
        }),
{
    DrainStep::Done {
        action: if e.close {
            PostAction::Remove
        } else {
            PostAction::Continue
        },
        notify: e.ping,
    }
}

/// The counter encoding is unambiguous: after `pings` pings and `closes`
/// closings (the last sending end closes at most once), the counter tells
/// whether any ping came and whether the sending side closed.
pub proof fn lemma_counter_encoding(pings: nat, closes: nat)
    requires
        closes <= 1,
        pings * 2 + closes <= u64::MAX,
    ensures
        ({
            let counter = (pings * INCREMENT_PING + closes * INCREMENT_CLOSE) as u64;
            &&& (counter % 2 == 1 <==> closes == 1)
            &&& (counter >= 2 <==> pings > 0)
        }),
{
}

} // verus!
