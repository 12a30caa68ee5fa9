//! The contract that every machine fulfils, and the types that an
//! application plugs into the loop.

use crate::events::EventSet;
use crate::scope::Scope;
use vstd::prelude::*;

verus! {

/// The error of an I/O operation.
#[verifier::external_type_specification]
#[verifier::external_body]
pub struct ExIoError(std::io::Error);

/// The types that an application plugs into the loop.
pub trait Config {
    /// The value shared by all machines, lent to every callback.
    type Context;

    /// What other threads send to a machine.
    type Message;

    /// What a machine attaches to a timer it arms.
    type Timeout;

    /// The loop itself, lent to every callback: where a machine registers its
    /// descriptors and arms its timers.
    type Loop;
}

/// Why the driver discards a machine.
#[derive(PartialEq, Eq, Clone, Copy, Debug, Structural)]
pub enum Abort {
    /// The machine's `register` failed.
    RegisterFailed,
    /// The machine could not be added to the registry.
    MachineAddError,
}

/// The contract of a state machine.
///
/// Each lifecycle callback takes the machine by value and returns either the
/// machine to go on with or nothing. To return nothing is the only way in
/// which a machine ends itself.
///
/// A callback reaches the registry through the scope alone. What the clauses
/// below say of the scope is what a spawn keeps, by the contract of
/// `Scope::add_machine`.
pub trait EventMachine<C: Config>: Sized {
    /// A descriptor of the machine is ready.
    fn ready(
        self,
        events: EventSet,
        ctx: &mut C::Context,
        eloop: &mut C::Loop,
        scope: &mut Scope<C, Self>,
    ) -> (next: Option<Self>)
        requires
            old(scope).wf(),
        ensures
            final(scope).wf(),
            final(scope).follows(*old(scope)),
    ;

    /// Called once, on the turn of the loop after the machine was added: the
    /// machine registers its descriptors with the loop.
    fn register(&mut self, eloop: &mut C::Loop, scope: &mut Scope<C, Self>) -> (registered: Result<
        (),
        std::io::Error,
    >)
        requires
            old(scope).wf(),
        ensures
            final(scope).wf(),
            final(scope).follows(*old(scope)),
    ;

    /// The loop is shutting down. By default the machine ends at once: it
    /// returns nothing and touches neither the context, the loop nor the
    /// scope.
    fn shutdown(self, ctx: &mut C::Context, eloop: &mut C::Loop, scope: &mut Scope<C, Self>) -> (next:
        Option<Self>)
        requires
            old(scope).wf(),
        ensures
            final(scope).wf(),
            final(scope).follows(*old(scope)),
        default_ensures
            next is None,
            *final(ctx) == *old(ctx),
            *final(eloop) == *old(eloop),
            *final(scope) == *old(scope),
    {
        proof {
            scope@.lemma_grown_refl();
        }
        None
    }

    /// A timer that the machine armed has expired. By default it is ignored:
    /// the machine goes on as it is, and neither the context, the loop nor the
    /// scope is touched.
    fn timeout(
        self,
        timeout: C::Timeout,
        ctx: &mut C::Context,
        eloop: &mut C::Loop,
        scope: &mut Scope<C, Self>,
    ) -> (next: Option<Self>)
        requires
            old(scope).wf(),
        ensures
            final(scope).wf(),
            final(scope).follows(*old(scope)),
        default_ensures
            next == Some(self),
            *final(ctx) == *old(ctx),
            *final(eloop) == *old(eloop),
            *final(scope) == *old(scope),
    {
        proof {
            scope@.lemma_grown_refl();
        }
        Some(self)
    }

    /// A message for the machine has arrived. By default it is ignored: the
    /// machine goes on as it is, and neither the context, the loop nor the
    /// scope is touched.
    fn notify(
        self,
        msg: C::Message,
        ctx: &mut C::Context,
        eloop: &mut C::Loop,
        scope: &mut Scope<C, Self>,
    ) -> (next: Option<Self>)
        requires
            old(scope).wf(),
        ensures
            final(scope).wf(),
            final(scope).follows(*old(scope)),
        default_ensures
            next == Some(self),
            *final(ctx) == *old(ctx),
            *final(eloop) == *old(eloop),
            *final(scope) == *old(scope),
    {
        proof {
            scope@.lemma_grown_refl();
        }
        Some(self)
    }

    /// The driver discards the machine. Nothing is returned: an aborted
    /// machine cannot go on. By default the machine is dropped, and neither
    /// the context, the loop nor the scope is touched.
    fn abort(
        self,
        reason: Abort,
        ctx: &mut C::Context,
        eloop: &mut C::Loop,
        scope: &mut Scope<C, Self>,
    )
        requires
            old(scope).wf(),
        ensures
            final(scope).wf(),
            final(scope).follows(*old(scope)),
        default_ensures
            *final(ctx) == *old(ctx),
            *final(eloop) == *old(eloop),
            *final(scope) == *old(scope),
    {
        proof {
            scope@.lemma_grown_refl();
        }
    }
}

} // verus!
