//! The launcher's only shared mutable state: the chosen port and the two
//! exclusively owned child-process handles.
//!
//! The handle type is a parameter so the shell can store real process
//! handles while everything about ownership is settled here: a handle can be
//! stored once, taken out at most once, and a second shutdown finds both
//! slots already empty.

use vstd::prelude::*;

verus! {

/// Per-run supervisor state.  Exactly one instance exists per application
/// run.
pub struct ServiceState<H> {
    /// The port assigned for this run; set once, before any child is
    /// spawned, and never reassigned.
    pub port: Option<u16>,
    /// The server process handle, while owned by this state.
    pub server: Option<H>,
    /// The worker process handle, while owned by this state.
    pub worker: Option<H>,
}

impl<H> ServiceState<H> {
    /// Fresh state: no port, no children.
    pub fn new() -> (s: Self)
        ensures
            s.port is None,
            s.server is None,
            s.worker is None,
    {
        ServiceState { port: None, server: None, worker: None }
    }

    /// Records the port chosen for this run.  The port is assigned once per
    /// run, so the slot must still be empty.
    pub fn set_port(&mut self, p: u16)
        requires
            old(self).port is None,
        ensures
            final(self).port == Some(p),
            final(self).server == old(self).server,
            final(self).worker == old(self).worker,
    {
        self.port = Some(p);
    }

    /// The port chosen for this run, if one has been assigned yet.
    pub fn port(&self) -> (r: Option<u16>)
        ensures
            r == self.port,
    {
        self.port
    }

    /// Stores the freshly spawned server handle.  The slot must be empty:
    /// the server is spawned at most once per run.
    pub fn store_server(&mut self, h: H)
        requires
            old(self).server is None,
        ensures
            final(self).server == Some(h),
            final(self).port == old(self).port,
            final(self).worker == old(self).worker,
    {
        self.server = Some(h);
    }

    /// Stores the freshly spawned worker handle.
    pub fn store_worker(&mut self, h: H)
        requires
            old(self).worker is None,
        ensures
            final(self).worker == Some(h),
            final(self).port == old(self).port,
            final(self).server == old(self).server,
    {
        self.worker = Some(h);
    }

    /// Takes exclusive ownership of the server handle for termination.
    /// Empties the slot, so taking twice yields `None` the second time and
    /// double-termination is impossible.
    pub fn take_server(&mut self) -> (h: Option<H>)
        ensures
            h == old(self).server,
            final(self).server is None,
            final(self).port == old(self).port,
            final(self).worker == old(self).worker,
    {
        self.server.take()
    }

    /// Takes exclusive ownership of the worker handle for termination.
    pub fn take_worker(&mut self) -> (h: Option<H>)
        ensures
            h == old(self).worker,
            final(self).worker is None,
            final(self).port == old(self).port,
            final(self).server == old(self).server,
    {
        self.worker.take()
    }

    /// Takes both handles at once, as shutdown does.  Safe to call in any
    /// state; after it, both slots are empty, so a repeated shutdown is a
    /// no-op.
    pub fn take_all(&mut self) -> (r: (Option<H>, Option<H>))
        ensures
            r.0 == old(self).server,
            r.1 == old(self).worker,
            final(self).server is None,
            final(self).worker is None,
            final(self).port == old(self).port,
    {
        let s = self.server.take();
        let w = self.worker.take();
        (s, w)
    }
}

} // verus!
