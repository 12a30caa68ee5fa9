//! The accept loop: one machine spawned for each connection that a listening
//! descriptor hands out.

use crate::handler::{Abort, Config, EventMachine, EventSet, PollOpt, Registration, Scope};
use crate::token::Token;
use crate::transports::IoOutcome;
use std::marker::PhantomData;
use vstd::prelude::*;

verus! {

/// A listening descriptor `A` whose connections become machines `M`.
#[verifier::reject_recursive_types(M)]
#[verifier::reject_recursive_types(C)]
pub struct Serve<A, M, C>(A, PhantomData<(M, C)>);

/// A machine that can be made from an accepted connection.
pub trait Init<S, C: Config>: EventMachine<C> {
    /// The machine for `conn`, or nothing where the connection is declined.
    fn accept(
        conn: S,
        context: &mut C::Context,
        eloop: &mut C::Loop,
        scope: &mut Scope<C, Self>,
    ) -> (machine: Option<Self>)
        requires
            old(scope).wf(),
        ensures
            final(scope).wf(),
            final(scope).follows(*old(scope)),
    ;
}

/// What an accept loop does next.
#[derive(PartialEq, Eq, Clone, Copy, Debug, Structural)]
pub enum Accepting {
    /// Accept once more: further connections may be pending.
    Again,
    /// Stop until the next readiness event.
    Done,
}

impl<A, M, C: Config> Serve<A, M, C> {
    /// The listening descriptor.
    pub closed spec fn listener(self) -> A {
        self.0
    }

    /// The accept loop on `sock`.
    pub fn new(sock: A) -> (serve: Self)
        ensures
            serve.listener() == sock,
    {
        Serve(sock, PhantomData)
    }

    /// The listening descriptor, to accept on and to register.
    pub fn socket(&self) -> (sock: &A)
        ensures
            *sock == self.listener(),
    {
        &self.0
    }

    /// How the listening descriptor is registered: for reading,
    /// level-triggered, under the slot of the current machine.
    pub fn register(&self, scope: &Scope<C, M>) -> (registration: Registration)
        ensures
            registration.token == scope.current().index(),
            registration.interest.has_readable(),
            !registration.interest.has_writable(),
            registration.opt == PollOpt::Level,
    {
        scope.register(EventSet::readable(), PollOpt::level())
    }

    /// A readiness event has come: an accept is due where the descriptor is
    /// readable, and nothing else.
    pub fn ready(&self, evset: EventSet) -> (next: Accepting)
        ensures
            next == (if evset.has_readable() {
                Accepting::Again
            } else {
                Accepting::Done
            }),
    {
        if evset.is_readable() {
            Accepting::Again
        } else {
            Accepting::Done
        }
    }
}

impl<A, M, C: Config> Serve<A, M, C> {
    /// Spawns the machine made for a connection and returns its token. Where
    /// the machine cannot be added it is aborted with
    /// `Abort::MachineAddError`. With no machine, the connection having been
    /// declined, nothing is done.
    pub fn spawn(
        &self,
        child: Option<M>,
        context: &mut C::Context,
        eloop: &mut C::Loop,
        scope: &mut Scope<C, M>,
    ) -> (spawned: Option<Token>) where M: EventMachine<C>
        requires
            old(scope).wf(),
        ensures
            final(scope).wf(),
            final(scope).follows(*old(scope)),
            child is None ==> spawned is None && *final(scope) == *old(scope),
            child is None || spawned is Some ==> *final(context) == *old(context) && *final(eloop)
                == *old(eloop),
            old(scope)@.full() || old(scope).channel_lost() ==> spawned is None,
            spawned matches Some(token) ==> {
                &&& child matches Some(machine)
                &&& !old(scope)@.in_use(token.index())
                &&& token.generation() == Some(old(scope)@.counter_next)
                &&& final(scope)@ == old(scope)@.insert(token.index(), machine)
                &&& final(scope)@.matches(token)
            },
            spawned is None && child is Some ==> exists|
                c: &mut C::Context,
                l: &mut C::Loop,
                s: &mut Scope<C, M>,
            |
                {
                    &&& #[trigger] call_ensures(
                        M::abort,
                        (child->0, Abort::MachineAddError, c, l, s),
                        (),
                    )
                    &&& *c == *old(context)
                    &&& *l == *old(eloop)
                    &&& s@ == old(scope)@
                    &&& s.current() == old(scope).current()
                    &&& *final(c) == *final(context)
                    &&& *final(l) == *final(eloop)
                    &&& *final(s) == *final(scope)
                },
    {
        match child {
            Some(conm) => {
                let ghost before = scope@;
                match scope.add_machine(conm) {
                    Ok(token) => Some(token),
                    Err(back) => {
                        let ghost between = scope@;
                        let abort = M::abort;
                        abort(back, Abort::MachineAddError, context, eloop, scope);
                        proof {
                            scope@.lemma_grown_trans(between, before);
                        }
                        None
                    },
                }
            },
            None => {
                proof {
                    scope@.lemma_grown_refl();
                }
                None
            },
        }
    }

    /// An accept has ended with `outcome`.
    ///
    /// For a connection, its machine is made and spawned, and the loop goes
    /// on, so that one readiness event serves every pending connection. The
    /// loop stops when the descriptor would block or the accept failed, and
    /// goes on as it was after an interruption.
    ///
    /// Returns what the loop does next and, where a machine was spawned, its
    /// token.
    pub fn accepted<S>(
        &self,
        outcome: IoOutcome<S>,
        context: &mut C::Context,
        eloop: &mut C::Loop,
        scope: &mut Scope<C, M>,
    ) -> (accepted: (Accepting, Option<Token>)) where M: Init<S, C>
        requires
            old(scope).wf(),
        ensures
            final(scope).wf(),
            final(scope).follows(*old(scope)),
            accepted.0 == (if outcome is Done || outcome is Interrupted {
                Accepting::Again
            } else {
                Accepting::Done
            }),
            !(outcome is Done) ==> accepted.1 is None && *final(scope) == *old(scope)
                && *final(context) == *old(context),
            outcome matches IoOutcome::Done(conn) ==> exists|
                c: &mut C::Context,
                l: &mut C::Loop,
                s: &mut Scope<C, M>,
                child: Option<M>,
            |
                {
                    &&& #[trigger] call_ensures(M::accept, (conn, c, l, s), child)
                    &&& *c == *old(context)
                    &&& *l == *old(eloop)
                    &&& *s == *old(scope)
                    &&& match accepted.1 {
                        Some(token) => {
                            &&& child matches Some(machine)
                            &&& !final(s)@.in_use(token.index())
                            &&& token.generation() == Some(final(s)@.counter_next)
                            &&& final(scope)@ == final(s)@.insert(token.index(), machine)
                            &&& *final(context) == *final(c)
                            &&& *final(eloop) == *final(l)
                        },
                        None => match child {
                            Some(machine) => exists|
                                c2: &mut C::Context,
                                l2: &mut C::Loop,
                                s2: &mut Scope<C, M>,
                            |
                                {
                                    &&& #[trigger] call_ensures(
                                        M::abort,
                                        (machine, Abort::MachineAddError, c2, l2, s2),
                                        (),
                                    )
                                    &&& *c2 == *final(c)
                                    &&& *l2 == *final(l)
                                    &&& s2@ == final(s)@
                                    &&& *final(c2) == *final(context)
                                    &&& *final(l2) == *final(eloop)
                                    &&& *final(s2) == *final(scope)
                                },
                            None => {
                                &&& *final(context) == *final(c)
                                &&& *final(eloop) == *final(l)
                                &&& *final(scope) == *final(s)
                            },
                        },
                    }
                },
    {
        match outcome {
            IoOutcome::Done(conn) => {
                let ghost before = scope@;
                let make = M::accept;
                let child = make(conn, context, eloop, scope);
                let ghost between = scope@;
                let spawned = self.spawn(child, context, eloop, scope);
                proof {
                    scope@.lemma_grown_trans(between, before);
                }
                (Accepting::Again, spawned)
            },
            IoOutcome::Interrupted => {
                proof {
                    scope@.lemma_grown_refl();
                }
                (Accepting::Again, None)
            },
            _ => {
                proof {
                    scope@.lemma_grown_refl();
                }
                (Accepting::Done, None)
            },
        }
    }
}

} // verus!
