//! A futures executor as an event source: the state of its tasks.
use vstd::prelude::*;

use std::task::Waker;

verus! {

/// `std::task::Waker`, carried through opaque.
#[verifier::external_type_specification]
#[verifier::external_body]
pub struct ExWaker(Waker);

/// An active future or its result.
#[derive(Debug)]
pub enum Active<T> {
    /// The future is currently being polled.
    ///
    /// Waking this waker will insert the runnable into the incoming queue.
    Future(Waker),
    /// The future has finished polling, and its result is stored here.
    Finished(T),
}

impl<T> Active<T> {
    /// Whether the future has produced its result.
    pub fn is_finished(&self) -> (r: bool)
        ensures
            r <==> self is Finished,
    {
        match self {
            Active::Finished(_) => true,
            _ => false,
        }
    }
}

/// Error generated when trying to schedule a future after the executor was
/// destroyed.
#[derive(Debug)]
pub struct ExecutorDestroyed;

} // verus!
