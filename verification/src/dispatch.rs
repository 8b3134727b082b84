//! The connection dispatcher's decision rules: connections are serviced
//! strictly one at a time. The accept loop itself lives at the socket; what
//! is here decides, from the dispatcher's state, whether a waiting
//! connection may be accepted now, and tracks the transition from idle to
//! serving and back.

use vstd::prelude::*;

verus! {

/// What the dispatcher does about a waiting connection.
#[derive(Clone, Copy, PartialEq, Eq, Debug)]
pub enum DispatchAction {
    /// Accept the connection and start serving it.
    Accept,
    /// Keep waiting: either no connection is pending or one is being served.
    Wait,
}

/// The dispatcher's state: whether a connection is currently being served,
/// and how many have been completed (successfully or not) since startup.
pub struct Dispatcher {
    pub serving: bool,
    pub completed: u64,
}

/// The dispatcher's rule for a waiting connection: accept exactly when idle.
pub open spec fn spec_next_action(d: Dispatcher, connection_waiting: bool) -> DispatchAction {
    if connection_waiting && !d.serving {
        DispatchAction::Accept
    } else {
        DispatchAction::Wait
    }
}

/// Sequential service: while one connection is being served, no other is
/// ever accepted, whatever arrives.
pub proof fn lemma_sequential_dispatch(d: Dispatcher, connection_waiting: bool)
    requires
        d.serving,
    ensures
        spec_next_action(d, connection_waiting) != DispatchAction::Accept,
{
}

impl Dispatcher {
    /// A dispatcher that has just started listening: idle, nothing served.
    pub fn new() -> (d: Dispatcher)
        ensures
            !d.serving,
            d.completed == 0,
    {
        Dispatcher { serving: false, completed: 0 }
    }

    /// Decides what to do about a possibly waiting connection.
    pub fn next_action(&self, connection_waiting: bool) -> (a: DispatchAction)
        ensures
            a == spec_next_action(*self, connection_waiting),
            self.serving ==> a == DispatchAction::Wait,
    {
        if connection_waiting && !self.serving {
            DispatchAction::Accept
        } else {
            DispatchAction::Wait
        }
    }

    /// Marks an accepted connection as the one being served; only an idle
    /// dispatcher may do this.
    pub fn begin_connection(&mut self)
        requires
            !old(self).serving,
        ensures
            final(self).serving,
            final(self).completed == old(self).completed,
    {
        self.serving = true;
    }

    /// Records that the served connection's transfer completed or failed;
    /// only then does the dispatcher return to accepting.
    pub fn finish_connection(&mut self)
        requires
            old(self).serving,
            old(self).completed < u64::MAX,
        ensures
            !final(self).serving,
            final(self).completed == old(self).completed + 1,
    {
        self.serving = false;
        self.completed = self.completed + 1;
    }
}

} // verus!
