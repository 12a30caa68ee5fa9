//! Readiness, and how the poller reports it.

use vstd::prelude::*;

verus! {

/// The readiness of a descriptor.
#[derive(PartialEq, Eq, Clone, Copy, Debug, Structural)]
pub struct EventSet {
    readable: bool,
    writable: bool,
}

impl EventSet {
    /// Whether the set holds read readiness.
    pub closed spec fn has_readable(self) -> bool {
        self.readable
    }

    /// Whether the set holds write readiness.
    pub closed spec fn has_writable(self) -> bool {
        self.writable
    }

    /// The empty set.
    pub fn none() -> (set: EventSet)
        ensures
            !set.has_readable(),
            !set.has_writable(),
    {
        EventSet { readable: false, writable: false }
    }

    /// Read readiness alone.
    pub fn readable() -> (set: EventSet)
        ensures
            set.has_readable(),
            !set.has_writable(),
    {
        EventSet { readable: true, writable: false }
    }

    /// Write readiness alone.
    pub fn writable() -> (set: EventSet)
        ensures
            !set.has_readable(),
            set.has_writable(),
    {
        EventSet { readable: false, writable: true }
    }

    /// Read and write readiness.
    pub fn all() -> (set: EventSet)
        ensures
            set.has_readable(),
            set.has_writable(),
    {
        EventSet { readable: true, writable: true }
    }

    /// Whether the set holds read readiness.
    pub fn is_readable(&self) -> (readable: bool)
        ensures
            readable == self.has_readable(),
    {
        self.readable
    }

    /// Whether the set holds write readiness.
    pub fn is_writable(&self) -> (writable: bool)
        ensures
            writable == self.has_writable(),
    {
        self.writable
    }
}

/// How the poller reports readiness.
#[derive(PartialEq, Eq, Clone, Copy, Debug, Structural)]
pub enum PollOpt {
    /// Once per change of state: the descriptor has to be drained.
    Edge,
    /// As long as the condition holds.
    Level,
}

impl PollOpt {
    /// Edge-triggered.
    pub fn edge() -> (opt: PollOpt)
        ensures
            opt == PollOpt::Edge,
    {
        PollOpt::Edge
    }

    /// Level-triggered.
    pub fn level() -> (opt: PollOpt)
        ensures
            opt == PollOpt::Level,
    {
        PollOpt::Level
    }
}

} // verus!
