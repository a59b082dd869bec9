//! The release discipline of one connection: the shutdown-and-drain of the
//! underlying stream must be performed exactly once, however the owning
//! scope ends, and a defensive second release must change nothing.

use vstd::prelude::*;

verus! {

/// Tracks whether the stream behind a connection has already been shut
/// down and drained. The holder of the real stream consults `release`
/// before touching the transport, so the teardown I/O runs exactly once
/// even when release is invoked again defensively.
pub struct ConnectionGuard {
    released: bool,
}

impl ConnectionGuard {
    /// Whether the stream has already been released.
    pub closed spec fn spec_released(&self) -> bool {
        self.released
    }

    /// The guard for a freshly opened stream: nothing released yet.
    pub fn new() -> (r: ConnectionGuard)
        ensures
            !r.spec_released(),
    {
        ConnectionGuard { released: false }
    }

    /// Decide the release step. Exactly on the first invocation the result
    /// asks the holder to perform the shutdown-and-drain I/O; any later
    /// invocation asks for nothing and leaves the guard unchanged, so a
    /// second release is indistinguishable from the first alone.
    pub fn release(&mut self) -> (perform_io: bool)
        ensures
            final(self).spec_released(),
            perform_io == !old(self).spec_released(),
            old(self).spec_released() ==> *final(self) == *old(self),
    {
        if self.released {
            false
        } else {
            self.released = true;
            true
        }
    }
}

} // verus!
