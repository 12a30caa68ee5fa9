//! A reactor core: state machines in generation-tagged slots, driven by
//! readiness events, timers and notifications.

use std::marker::PhantomData;
use vstd::prelude::*;

pub mod dispatch;
pub mod events;
pub mod handler;
pub mod machine;
pub mod model;
pub mod scope;
pub mod slots;
pub mod token;
pub mod transports;

pub use handler::{Config, EventMachine, EventSet, Handler, PollOpt, Scope};

verus! {

/// A marker for a type that a value is made for without holding one.
pub struct PhantomSend<C>(PhantomData<C>);

impl<C> PhantomSend<C> {
    /// The marker.
    pub fn new() -> PhantomSend<C> {
        PhantomSend(PhantomData)
    }
}

} // verus!
