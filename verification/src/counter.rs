//! A request counter that a connection's guard and its tracker entry share.

use vstd::prelude::*;
use std::sync::Arc;
use std::sync::atomic::AtomicUsize;
use std::sync::atomic::Ordering;

verus! {

/// `Arc::clone` on a counter: the new handle is a handle on the same counter
/// as the one it was cloned from.
#[verifier::external_body]
fn clone_handle(handle: &Arc<AtomicUsize>) -> (shared: Arc<AtomicUsize>)
    ensures
        shared == *handle,
{
    Arc::clone(handle)
}

/// A handle on a counter of requests. Handles made by [`RequestCounter::share`]
/// count on one and the same counter. The counter is updated and read without
/// synchronisation, so a reading may lag behind the increments made so far;
/// nothing is promised of the value read.
#[derive(Debug)]
pub struct RequestCounter {
    count: Arc<AtomicUsize>,
}

impl RequestCounter {
    /// A handle on a new counter.
    pub fn new() -> RequestCounter {
        RequestCounter { count: Arc::new(AtomicUsize::new(0)) }
    }

    /// Another handle on the same counter.
    pub fn share(&self) -> (shared: RequestCounter)
        ensures
            shared == *self,
    {
        RequestCounter { count: clone_handle(&self.count) }
    }

    /// Counts one more request.
    pub fn increment(&self) {
        self.count.fetch_add(1, Ordering::Relaxed);
    }

    /// A reading of the counter.
    pub fn load(&self) -> usize {
        self.count.load(Ordering::Relaxed)
    }
}

} // verus!
