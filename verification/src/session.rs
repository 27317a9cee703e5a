//! The two database sessions that a probe cycle runs on.

use vstd::prelude::*;

verus! {

/// Two sessions to the same database, each in a fixed role: the probe
/// session runs the statement in a transaction, the inspector session reads
/// the lock catalog meanwhile. A cycle takes both for its whole length, so
/// whoever holds the pair holds it exclusively.
pub struct SessionPair<S> {
    probe: S,
    inspector: S,
}

impl<S> SessionPair<S> {
    /// The session in the probe role.
    pub closed spec fn probe(&self) -> S {
        self.probe
    }

    /// The session in the inspector role.
    pub closed spec fn inspector(&self) -> S {
        self.inspector
    }

    /// A pair of the two sessions, the first as probe and the second as
    /// inspector.
    pub fn new(probe: S, inspector: S) -> (pair: Self)
        ensures
            pair.probe() == probe,
            pair.inspector() == inspector,
    {
        SessionPair { probe, inspector }
    }

    /// Both sessions for one cycle: the probe session to work on, the
    /// inspector session to read from. The roles stay as they were given.
    pub fn split(&mut self) -> (sessions: (&mut S, &S))
        ensures
            *sessions.0 == old(self).probe(),
            *sessions.1 == old(self).inspector(),
            final(self).probe() == *final(sessions.0),
            final(self).inspector() == old(self).inspector(),
    {
        (&mut self.probe, &self.inspector)
    }
}

} // verus!
