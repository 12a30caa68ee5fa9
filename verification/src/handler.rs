//! The driver of the loop: the owner of the registry and of the shared
//! context.

use crate::dispatch::{
    before_event, dispatched, end_of, lemma_before_push, lemma_callback_frame,
    lemma_dispatched_evolves, lemma_run_push, one_per_slot, run,
};
use crate::scope::{channel_answers, send_message, MessageInner};
use crate::slots::{Registry, Slots};
use vstd::prelude::*;

pub use crate::dispatch::{Dispatch, Event};
pub use crate::events::{EventSet, PollOpt};
pub use crate::machine::{Abort, Config, EventMachine};
pub use crate::scope::{Message, MessageKind, Registration, Rejected, Scope, Timeout};
pub use crate::slots::EventMachineSlot;
pub use crate::token::Token;

verus! {

/// The number of slots of a handler made by `Handler::new`.
pub const DEFAULT_CAPACITY: usize = 4096;

/// Where the driver stands.
#[derive(PartialEq, Eq, Clone, Copy, Debug, Structural)]
pub enum State {
    /// Events are dispatched.
    Running,
    /// A stop was asked for: the machines were offered `shutdown`, and those
    /// that have stayed are waited for.
    Draining,
    /// The loop has nothing left to do, or cannot go on.
    Stopped,
}

/// The state of the driver after something was done to its registry: it has
/// stopped where the channel is lost, or where it was draining and no slot is
/// in use any more; else it is where it was.
pub open spec fn advance<M>(state: State, slots: Slots<M>, channel_lost: bool) -> State {
    if channel_lost || (state == State::Draining && slots.is_empty()) {
        State::Stopped
    } else {
        state
    }
}

/// The driver: the owner of the registry and of the shared context. The loop
/// hands it each event, and it calls the machine that the event is for.
#[verifier::reject_recursive_types(C)]
pub struct Handler<C: Config, M: EventMachine<C>> {
    scope: Scope<C, M>,
    context: C::Context,
    state: State,
}

impl<C: Config, M: EventMachine<C>> View for Handler<C, M> {
    type V = Slots<M>;

    closed spec fn view(&self) -> Slots<M> {
        self.scope@
    }
}

impl<C: Config, M: EventMachine<C>> Handler<C, M> {
    /// The invariant of a driver between events: the registry is sound and
    /// every slot in use holds its machine.
    pub closed spec fn wf(&self) -> bool {
        Self::settled(self.scope)
    }

    /// The registry behind the scope is sound and every slot in use holds its
    /// machine.
    spec fn settled(scope: Scope<C, M>) -> bool {
        &&& scope.slab.wf()
        &&& forall|i: usize| #[trigger] scope@.in_use(i) ==> scope@.occupied(i)
    }

    /// The shared context.
    pub closed spec fn context(&self) -> C::Context {
        self.context
    }

    /// Whether the channel was found closed or broken: the loop cannot go on.
    pub closed spec fn channel_lost(&self) -> bool {
        self.scope.closed
    }

    /// Where the driver stands.
    pub closed spec fn status(&self) -> State {
        self.state
    }

    /// Whether `sent` is what the channel may answer to `message`.
    pub open spec fn answers(&self, message: Message<C>, sent: Result<(), Rejected<C>>) -> bool {
        channel_answers(self.sender(), message, sent)
    }

    /// The sending end of the channel over which spawned machines are
    /// announced.
    pub closed spec fn sender(&self) -> mio::deprecated::Sender<Message<C>> {
        self.scope.sender()
    }

    /// What a callback for the machine at `token` is handed: the shared
    /// context, the loop, and a scope in which the slot of the machine is held
    /// and which addresses the machine with its generation.
    pub open spec fn hands(
        &self,
        eloop: C::Loop,
        token: Token,
        ctx: C::Context,
        l: C::Loop,
        scope: Scope<C, M>,
    ) -> bool {
        &&& ctx == self.context()
        &&& l == eloop
        &&& scope.wf()
        &&& scope@ == self@.vacate(token.index())
        &&& scope.current() == Token::stamped(token.index(), self@.generations[token.index()])
        &&& scope.channel_lost() == self.channel_lost()
    }

    /// What the driver is once a callback has left `ctx`, `l` and `scope` and
    /// returned `next` for the machine at `token`: what it returned is written
    /// back, and the rest is as the callback left it.
    pub open spec fn receives(
        &self,
        eloop: C::Loop,
        token: Token,
        ctx: C::Context,
        l: C::Loop,
        scope: Scope<C, M>,
        next: Option<M>,
    ) -> bool {
        &&& self.context() == ctx
        &&& eloop == l
        &&& self@ == scope@.written_back(token.index(), next)
        &&& self.channel_lost() == scope.channel_lost()
    }

    /// What `wf` says, in terms of the model.
    pub proof fn lemma_wf(&self)
        requires
            self.wf(),
        ensures
            self@.wf(),
            forall|i: usize| #[trigger] self@.in_use(i) ==> self@.occupied(i),
    {
        self.scope.slab.lemma_wf();
    }

    /// Where the driver stands.
    pub fn state(&self) -> (state: State)
        ensures
            state == self.status(),
    {
        self.state
    }

    /// Brings the state up to date with the registry and the channel.
    fn settle(&mut self)
        requires
            old(self).wf(),
        ensures
            final(self).wf(),
            final(self)@ == old(self)@,
            final(self).context() == old(self).context(),
            final(self).channel_lost() == old(self).channel_lost(),
            final(self).sender() == old(self).sender(),
            final(self).status() == advance(old(self).status(), old(self)@, old(self).channel_lost()),
    {
        if self.scope.closed {
            self.state = State::Stopped;
        } else {
            match self.state {
                State::Draining => {
                    if self.scope.slab.count() == 0 {
                        self.state = State::Stopped;
                    }
                },
                _ => {},
            }
        }
    }

    /// Brings the state up to date after an event, unless the event was
    /// dropped.
    fn settle_after(&mut self, outcome: Dispatch)
        requires
            old(self).wf(),
        ensures
            final(self).wf(),
            final(self)@ == old(self)@,
            final(self).context() == old(self).context(),
            final(self).channel_lost() == old(self).channel_lost(),
            final(self).sender() == old(self).sender(),
            outcome == Dispatch::Stale ==> *final(self) == *old(self),
            outcome != Dispatch::Stale ==> final(self).status() == advance(
                old(self).status(),
                old(self)@,
                old(self).channel_lost(),
            ),
    {
        match outcome {
            Dispatch::Stale => {},
            _ => {
                self.settle();
            },
        }
    }

    /// A driver with `DEFAULT_CAPACITY` slots, all free, that owns `context`
    /// and announces spawned machines over `channel`.
    pub fn new(context: C::Context, channel: mio::deprecated::Sender<Message<C>>) -> (handler: Handler<
        C,
        M,
    >)
        ensures
            handler.wf(),
            handler@.capacity() == DEFAULT_CAPACITY,
            handler@.is_empty(),
            handler@.counter_next == 0,
            handler.context() == context,
            handler.sender() == channel,
            !handler.channel_lost(),
            handler.status() == State::Running,
    {
        Handler::with_capacity(context, channel, DEFAULT_CAPACITY)
    }

    /// A driver with `capacity` slots, all free.
    pub fn with_capacity(
        context: C::Context,
        channel: mio::deprecated::Sender<Message<C>>,
        capacity: usize,
    ) -> (handler: Handler<C, M>)
        requires
            capacity < usize::MAX,
        ensures
            handler.wf(),
            handler@.capacity() == capacity,
            handler@.is_empty(),
            handler@.counter_next == 0,
            handler.context() == context,
            handler.sender() == channel,
            !handler.channel_lost(),
            handler.status() == State::Running,
    {
        Handler {
            scope: Scope {
                slab: Registry::new(capacity),
                channel,
                token: Token::from_mio(0),
                closed: false,
            },
            context,
            state: State::Running,
        }
    }

    /// Calls `f` on the machine that `token` addresses and writes back what it
    /// returns. A stale token is dropped: nothing is called and nothing
    /// changes.
    fn with_machine<F>(&mut self, eloop: &mut C::Loop, token: Token, f: F) -> (outcome: Dispatch)
        where F: FnOnce(M, &mut C::Context, &mut C::Loop, &mut Scope<C, M>) -> Option<M>
        requires
            old(self).wf(),
            forall|m: M, ctx: &mut C::Context, l: &mut C::Loop, scope: &mut Scope<C, M>|
                scope.wf() ==> f.requires((m, ctx, l, scope)),
            forall|
                m: M,
                ctx: &mut C::Context,
                l: &mut C::Loop,
                scope: &mut Scope<C, M>,
                next: Option<M>,
            |
                f.ensures((m, ctx, l, scope), next) ==> final(scope).wf() && final(scope).follows(
                    *scope,
                ),
        ensures
            final(self).wf(),
            outcome != Dispatch::Evicted,
            dispatched(old(self)@, final(self)@, token, outcome),
            outcome == Dispatch::Stale ==> *final(self) == *old(self),
            old(self).channel_lost() ==> final(self).channel_lost(),
            final(self).sender() == old(self).sender(),
            final(self).status() == old(self).status(),
            outcome != Dispatch::Stale ==> exists|
                ctx: &mut C::Context,
                l: &mut C::Loop,
                scope: &mut Scope<C, M>,
                next: Option<M>,
            |
                {
                    &&& #[trigger] f.ensures(
                        (old(self)@.slot(token.index()).machine, ctx, l, scope),
                        next,
                    )
                    &&& old(self).hands(*old(eloop), token, *ctx, *l, *scope)
                    &&& final(self).receives(
                        *final(eloop),
                        token,
                        *final(ctx),
                        *final(l),
                        *final(scope),
                        next,
                    )
                    &&& (outcome == Dispatch::Kept <==> next is Some)
                },
    {
        proof {
            self.scope.slab.lemma_wf();
        }
        let index = token.as_usize();
        match self.scope.slab.take(token) {
            None => Dispatch::Stale,
            Some(slot) => {
                self.scope.token = Token::new(index, slot.counter);
                proof {
                    assert forall|i: usize| #[trigger]
                        self.scope@.in_use(i) && i != index implies self.scope@.occupied(i) by {
                        assert(old(self)@.in_use(i));
                    }
                }
                let next = f(slot.machine, &mut self.context, eloop, &mut self.scope);
                let ghost during = self.scope@;
                proof {
                    self.scope.lemma_wf();
                }
                let outcome = if next.is_some() {
                    Dispatch::Kept
                } else {
                    Dispatch::Destroyed
                };
                self.scope.slab.restore(index, next);
                proof {
                    lemma_callback_frame(old(self)@, during, self@, index);
                    assert forall|i: usize| #[trigger] self@.in_use(i) implies self@.occupied(i) by {
                        if i != index {
                            assert(during.in_use(i));
                        }
                    }
                }
                outcome
            },
        }
    }

    /// A descriptor registered under the bare index `token` is ready: calls
    /// `ready` on the machine in that slot, whatever its generation.
    ///
    /// The machine gets the shared context, the loop and a scope that
    /// addresses it; what it returns is written back, and the driver is
    /// otherwise as the callback has left these three.
    pub fn ready(&mut self, eloop: &mut C::Loop, token: usize, events: EventSet) -> (outcome: Dispatch)
        requires
            old(self).wf(),
        ensures
            final(self).wf(),
            outcome != Dispatch::Evicted,
            dispatched(old(self)@, final(self)@, Token::bare(token), outcome),
            outcome == Dispatch::Stale ==> *final(self) == *old(self),
            old(self).channel_lost() ==> final(self).channel_lost(),
            final(self).sender() == old(self).sender(),
            outcome != Dispatch::Stale ==> final(self).status() == advance(
                old(self).status(),
                final(self)@,
                final(self).channel_lost(),
            ),
            outcome != Dispatch::Stale ==> exists|
                ctx: &mut C::Context,
                l: &mut C::Loop,
                scope: &mut Scope<C, M>,
                next: Option<M>,
            |
                {
                    &&& #[trigger] call_ensures(
                        M::ready,
                        (old(self)@.slot(token).machine, events, ctx, l, scope),
                        next,
                    )
                    &&& old(self).hands(*old(eloop), Token::bare(token), *ctx, *l, *scope)
                    &&& final(self).receives(
                        *final(eloop),
                        Token::bare(token),
                        *final(ctx),
                        *final(l),
                        *final(scope),
                        next,
                    )
                    &&& (outcome == Dispatch::Kept <==> next is Some)
                },
    {
        let call = |fsm: M, ctx: &mut C::Context, l: &mut C::Loop, scope: &mut Scope<C, M>| -> (next:
            Option<M>)
            requires
                old(scope).wf(),
            ensures
                final(scope).wf(),
                final(scope).follows(*old(scope)),
                exists|c: &mut C::Context, e: &mut C::Loop, s: &mut Scope<C, M>|
                    {
                        &&& #[trigger] call_ensures(M::ready, (fsm, events, c, e, s), next)
                        &&& *c == *old(ctx)
                        &&& *e == *old(l)
                        &&& *s == *old(scope)
                        &&& *final(c) == *final(ctx)
                        &&& *final(e) == *final(l)
                        &&& *final(s) == *final(scope)
                    },
            {
                let callback = M::ready;
                callback(fsm, events, ctx, l, scope)
            };
        let outcome = self.with_machine(eloop, Token::from_mio(token), call);
        self.settle_after(outcome);
        outcome
    }

    /// A message has arrived over the channel.
    ///
    /// A register message has the machine register itself; where that fails,
    /// the machine is aborted with `Abort::RegisterFailed`, once, and its slot
    /// freed, so that it gets no further callback. Any other message goes to
    /// the `notify` of the machine it is for, and what that returns is written
    /// back.
    pub fn notify(&mut self, eloop: &mut C::Loop, msg: Message<C>) -> (outcome: Dispatch)
        requires
            old(self).wf(),
        ensures
            final(self).wf(),
            dispatched(old(self)@, final(self)@, msg.target(), outcome),
            outcome == Dispatch::Stale ==> *final(self) == *old(self),
            outcome == Dispatch::Evicted ==> msg.kind() == MessageKind::Register,
            outcome == Dispatch::Destroyed ==> msg.kind() == MessageKind::Deliver,
            old(self).channel_lost() ==> final(self).channel_lost(),
            final(self).sender() == old(self).sender(),
            outcome != Dispatch::Stale ==> final(self).status() == advance(
                old(self).status(),
                final(self)@,
                final(self).channel_lost(),
            ),
            outcome != Dispatch::Stale && msg.kind() == MessageKind::Deliver ==> exists|
                ctx: &mut C::Context,
                l: &mut C::Loop,
                scope: &mut Scope<C, M>,
                next: Option<M>,
            |
                {
                    &&& #[trigger] call_ensures(
                        M::notify,
                        (
                            old(self)@.slot(msg.target().index()).machine,
                            msg.payload()->0,
                            ctx,
                            l,
                            scope,
                        ),
                        next,
                    )
                    &&& old(self).hands(*old(eloop), msg.target(), *ctx, *l, *scope)
                    &&& final(self).receives(
                        *final(eloop),
                        msg.target(),
                        *final(ctx),
                        *final(l),
                        *final(scope),
                        next,
                    )
                    &&& (outcome == Dispatch::Kept <==> next is Some)
                },
            outcome != Dispatch::Stale && msg.kind() == MessageKind::Register ==> exists|
                m: &mut M,
                l: &mut C::Loop,
                scope: &mut Scope<C, M>,
                registered: Result<(), std::io::Error>,
            |
                {
                    &&& #[trigger] call_ensures(M::register, (m, l, scope), registered)
                    &&& *m == old(self)@.slot(msg.target().index()).machine
                    &&& old(self).hands(
                        *old(eloop),
                        msg.target(),
                        old(self).context(),
                        *l,
                        *scope,
                    )
                    &&& match registered {
                        Ok(_) => {
                            &&& outcome == Dispatch::Kept
                            &&& final(self).receives(
                                *final(eloop),
                                msg.target(),
                                old(self).context(),
                                *final(l),
                                *final(scope),
                                Some(*final(m)),
                            )
                        },
                        Err(_) => {
                            &&& outcome == Dispatch::Evicted
                            &&& exists|c: &mut C::Context, l2: &mut C::Loop, s2: &mut Scope<C, M>|
                                {
                                    &&& #[trigger] call_ensures(
                                        M::abort,
                                        (*final(m), Abort::RegisterFailed, c, l2, s2),
                                        (),
                                    )
                                    &&& *c == old(self).context()
                                    &&& *l2 == *final(l)
                                    &&& *s2 == *final(scope)
                                    &&& final(self).receives(
                                        *final(eloop),
                                        msg.target(),
                                        *final(c),
                                        *final(l2),
                                        *final(s2),
                                        None,
                                    )
                                }
                        },
                    }
                },
    {
        match msg.0 {
            MessageInner::RegisterMachine(token) => {
                let call = |
                    fsm: M,
                    ctx: &mut C::Context,
                    l: &mut C::Loop,
                    scope: &mut Scope<C, M>,
                | -> (next: Option<M>)
                    requires
                        old(scope).wf(),
                    ensures
                        final(scope).wf(),
                        final(scope).follows(*old(scope)),
                        exists|
                            m: &mut M,
                            e: &mut C::Loop,
                            s: &mut Scope<C, M>,
                            registered: Result<(), std::io::Error>,
                        |
                            {
                                &&& #[trigger] call_ensures(M::register, (m, e, s), registered)
                                &&& *m == fsm
                                &&& *e == *old(l)
                                &&& *s == *old(scope)
                                &&& match registered {
                                    Ok(_) => {
                                        &&& next == Some(*final(m))
                                        &&& *final(ctx) == *old(ctx)
                                        &&& *final(l) == *final(e)
                                        &&& *final(scope) == *final(s)
                                    },
                                    Err(_) => {
                                        &&& next is None
                                        &&& exists|
                                            c: &mut C::Context,
                                            e2: &mut C::Loop,
                                            s2: &mut Scope<C, M>,
                                        |
                                            {
                                                &&& #[trigger] call_ensures(
                                                    M::abort,
                                                    (*final(m), Abort::RegisterFailed, c, e2, s2),
                                                    (),
                                                )
                                                &&& *c == *old(ctx)
                                                &&& *e2 == *final(e)
                                                &&& *s2 == *final(s)
                                                &&& *final(c) == *final(ctx)
                                                &&& *final(e2) == *final(l)
                                                &&& *final(s2) == *final(scope)
                                            }
                                    },
                                }
                            },
                    {
                        let mut fsm = fsm;
                        let ghost before = scope@;
                        let register = M::register;
                        let registered = register(&mut fsm, l, scope);
                        let ghost between = scope@;
                        match registered {
                            Ok(()) => Some(fsm),
                            Err(_) => {
                                let abort = M::abort;
                                abort(fsm, Abort::RegisterFailed, ctx, l, scope);
                                proof {
                                    scope@.lemma_grown_trans(between, before);
                                }
                                None
                            },
                        }
                    };
                let outcome = match self.with_machine(eloop, token, call) {
                    Dispatch::Destroyed => Dispatch::Evicted,
                    outcome => outcome,
                };
                self.settle_after(outcome);
                outcome
            },
            MessageInner::Deliver(token, payload) => {
                let call = |
                    fsm: M,
                    ctx: &mut C::Context,
                    l: &mut C::Loop,
                    scope: &mut Scope<C, M>,
                | -> (next: Option<M>)
                    requires
                        old(scope).wf(),
                    ensures
                        final(scope).wf(),
                        final(scope).follows(*old(scope)),
                        exists|c: &mut C::Context, e: &mut C::Loop, s: &mut Scope<C, M>|
                            {
                                &&& #[trigger] call_ensures(M::notify, (fsm, payload, c, e, s), next)
                                &&& *c == *old(ctx)
                                &&& *e == *old(l)
                                &&& *s == *old(scope)
                                &&& *final(c) == *final(ctx)
                                &&& *final(e) == *final(l)
                                &&& *final(s) == *final(scope)
                            },
                    {
                        let callback = M::notify;
                        callback(fsm, payload, ctx, l, scope)
                    };
                let outcome = self.with_machine(eloop, token, call);
                assert(token == msg.target());
                assert(msg.payload()->0 == payload);
                self.settle_after(outcome);
                outcome
            },
        }
    }

    /// A timer has expired: gives its payload to the `timeout` of the machine
    /// that armed it, and writes back what that returns. Where the machine is
    /// gone the timeout is dropped, also where another machine has taken its
    /// slot.
    pub fn timeout(&mut self, eloop: &mut C::Loop, timeout: Timeout<C>) -> (outcome: Dispatch)
        requires
            old(self).wf(),
        ensures
            final(self).wf(),
            outcome != Dispatch::Evicted,
            dispatched(old(self)@, final(self)@, timeout.target(), outcome),
            outcome == Dispatch::Stale ==> *final(self) == *old(self),
            old(self).channel_lost() ==> final(self).channel_lost(),
            final(self).sender() == old(self).sender(),
            outcome != Dispatch::Stale ==> final(self).status() == advance(
                old(self).status(),
                final(self)@,
                final(self).channel_lost(),
            ),
            outcome != Dispatch::Stale ==> exists|
                ctx: &mut C::Context,
                l: &mut C::Loop,
                scope: &mut Scope<C, M>,
                next: Option<M>,
            |
                {
                    &&& #[trigger] call_ensures(
                        M::timeout,
                        (
                            old(self)@.slot(timeout.target().index()).machine,
                            timeout.payload(),
                            ctx,
                            l,
                            scope,
                        ),
                        next,
                    )
                    &&& old(self).hands(*old(eloop), timeout.target(), *ctx, *l, *scope)
                    &&& final(self).receives(
                        *final(eloop),
                        timeout.target(),
                        *final(ctx),
                        *final(l),
                        *final(scope),
                        next,
                    )
                    &&& (outcome == Dispatch::Kept <==> next is Some)
                },
    {
        let token = timeout.token;
        let payload = timeout.timeout;
        let call = |fsm: M, ctx: &mut C::Context, l: &mut C::Loop, scope: &mut Scope<C, M>| -> (next:
            Option<M>)
            requires
                old(scope).wf(),
            ensures
                final(scope).wf(),
                final(scope).follows(*old(scope)),
                exists|c: &mut C::Context, e: &mut C::Loop, s: &mut Scope<C, M>|
                    {
                        &&& #[trigger] call_ensures(M::timeout, (fsm, payload, c, e, s), next)
                        &&& *c == *old(ctx)
                        &&& *e == *old(l)
                        &&& *s == *old(scope)
                        &&& *final(c) == *final(ctx)
                        &&& *final(e) == *final(l)
                        &&& *final(s) == *final(scope)
                    },
            {
                let callback = M::timeout;
                callback(fsm, payload, ctx, l, scope)
            };
        let outcome = self.with_machine(eloop, token, call);
        assert(token == timeout.target());
        assert(payload == timeout.payload());
        self.settle_after(outcome);
        outcome
    }

    /// Adds a machine from outside any callback, as before the loop starts:
    /// inserts it and queues its register message.
    ///
    /// Where no slot is free, or the channel does not take the message, the
    /// machine is handed back and the registry is as it was. Once the channel
    /// was found lost, nothing is added any more.
    pub fn add_machine(&mut self, machine: M) -> (added: Result<Token, M>)
        requires
            old(self).wf(),
        ensures
            final(self).wf(),
            final(self).context() == old(self).context(),
            old(self).channel_lost() ==> final(self).channel_lost(),
            final(self).sender() == old(self).sender(),
            final(self).channel_lost() ==> added is Err,
            old(self)@.full() || old(self)@.counter_next == u64::MAX || old(self).channel_lost()
                ==> added is Err,
            !(old(self)@.full() || old(self)@.counter_next == u64::MAX || old(self).channel_lost())
                ==> exists|token: Token, sent: Result<(), Rejected<C>>|
                {
                    &&& #[trigger] old(self).answers(Message::<C>::registering(token), sent)
                    &&& !old(self)@.in_use(token.index())
                    &&& token.generation() == Some(old(self)@.counter_next)
                    &&& match sent {
                        Ok(_) => {
                            &&& added == Ok::<Token, M>(token)
                            &&& final(self)@ == old(self)@.insert(token.index(), machine)
                            &&& final(self)@.counter_next == old(self)@.counter_next + 1
                            &&& !final(self).channel_lost()
                        },
                        Err(rejected) => {
                            &&& added == Err::<Token, M>(machine)
                            &&& final(self)@ == old(self)@
                            &&& final(self).channel_lost() == !(rejected is Full)
                        },
                    }
                },
            final(self).status() == (if final(self).channel_lost() {
                State::Stopped
            } else {
                old(self).status()
            }),
            match added {
                Ok(token) => {
                    &&& !old(self)@.in_use(token.index())
                    &&& token.index() < old(self)@.capacity()
                    &&& token.generation() == Some(old(self)@.counter_next)
                    &&& final(self)@ == old(self)@.insert(token.index(), machine)
                    &&& final(self)@.matches(token)
                },
                Err(back) => back == machine && final(self)@ == old(self)@,
            },
    {
        proof {
            self.scope.slab.lemma_wf();
        }
        if self.scope.closed {
            self.state = State::Stopped;
            return Err(machine);
        }
        match self.scope.slab.reserve() {
            Some(token) => {
                let send = send_message::<C>;
                let sent = send(&self.scope.channel, Message::register(token));
                assert(old(self).answers(Message::<C>::registering(token), sent));
                let added = self.scope.settle_spawn(token, machine, sent);
                proof {
                    let i = token.index();
                    old(self)@.lemma_insert_grows(i, machine);
                    old(self)@.lemma_reserve(i);
                    assert forall|j: usize| #[trigger] self@.in_use(j) implies self@.occupied(j) by {
                        if j != i {
                            assert(old(self)@.in_use(j));
                        }
                    }
                }
                if self.scope.closed {
                    self.state = State::Stopped;
                }
                added
            },
            None => Err(machine),
        }
    }

    /// The shared context.
    pub fn context_ref(&self) -> (context: &C::Context)
        ensures
            *context == self.context(),
    {
        &self.context
    }

    /// The same driver with another context.
    pub closed spec fn with_context(self, context: C::Context) -> Self {
        Handler { context, ..self }
    }

    /// The shared context, to change it between events. Nothing else of the
    /// driver changes.
    pub fn context_mut(&mut self) -> (context: &mut C::Context)
        ensures
            *context == old(self).context(),
            *final(self) == old(self).with_context(*final(context)),
            final(self)@ == old(self)@,
            final(self).sender() == old(self).sender(),
            final(self).channel_lost() == old(self).channel_lost(),
            final(self).status() == old(self).status(),
            final(self).wf() == old(self).wf(),
    {
        &mut self.context
    }

    /// Whether the channel was found closed or broken. The loop cannot go on
    /// then: spawned machines would never be registered.
    pub fn is_channel_lost(&self) -> (lost: bool)
        ensures
            lost == self.channel_lost(),
    {
        self.scope.closed
    }

    /// Whether `handle` addresses a machine.
    pub fn contains(&self, handle: Token) -> (found: bool)
        requires
            self.wf(),
        ensures
            found == self@.matches(handle),
    {
        self.scope.slab.contains(handle)
    }

    /// The machine that `handle` addresses, or `None` where the handle is
    /// stale.
    pub fn get_for_dispatch(&self, handle: Token) -> (found: Option<&M>)
        requires
            self.wf(),
        ensures
            match found {
                Some(machine) => self@.matches(handle) && *machine == self@.slot(
                    handle.index(),
                ).machine,
                None => !self@.matches(handle),
            },
    {
        self.scope.slab.get_for_dispatch(handle)
    }

    /// The number of slots.
    pub fn capacity(&self) -> (capacity: usize)
        requires
            self.wf(),
        ensures
            capacity == self@.capacity(),
    {
        self.scope.slab.capacity()
    }

    /// The number of machines.
    pub fn count(&self) -> (n: usize)
        requires
            self.wf(),
        ensures
            n == self@.generations.dom().len(),
            n == 0 <==> self@.is_empty(),
    {
        self.scope.slab.count()
    }

    /// The generation of the machine in slot `index`, if there is one.
    pub fn generation(&self, index: usize) -> (generation: Option<u64>)
        requires
            self.wf(),
        ensures
            generation == (if self@.in_use(index) {
                Some(self@.generations[index])
            } else {
                None
            }),
    {
        self.scope.slab.generation(index)
    }

    /// The generation that the next machine gets.
    pub fn counter_next(&self) -> (counter: u64)
        ensures
            counter == self@.counter_next,
    {
        self.scope.slab.counter_next()
    }

    /// Frees slot `index` whatever its generation and returns its machine, if
    /// it held one. No callback is made.
    pub fn remove(&mut self, index: usize) -> (removed: Option<M>)
        requires
            old(self).wf(),
        ensures
            final(self).wf(),
            final(self).context() == old(self).context(),
            final(self).channel_lost() == old(self).channel_lost(),
            final(self).sender() == old(self).sender(),
            match removed {
                Some(machine) => {
                    &&& old(self)@.occupied(index)
                    &&& machine == old(self)@.slot(index).machine
                    &&& final(self)@ == old(self)@.remove(index)
                    &&& !final(self)@.in_use(index)
                    &&& final(self).status() == advance(
                        old(self).status(),
                        final(self)@,
                        final(self).channel_lost(),
                    )
                },
                None => !old(self)@.occupied(index) && *final(self) == *old(self),
            },
    {
        proof {
            self.scope.slab.lemma_wf();
        }
        let removed = self.scope.slab.remove(index);
        proof {
            assert forall|j: usize| #[trigger] self.scope@.in_use(j) implies self.scope@.occupied(
                j,
            ) by {
                assert(old(self).scope@.in_use(j));
            }
        }
        if removed.is_some() {
            self.settle();
        }
        removed
    }

    /// Offers `shutdown` to the machine in slot `index`, if there is one.
    fn offer_shutdown(&mut self, eloop: &mut C::Loop, index: usize) -> (outcome: Dispatch)
        requires
            old(self).wf(),
        ensures
            final(self).wf(),
            final(self)@.capacity() == old(self)@.capacity(),
            final(self)@.evolved_from(old(self)@),
            outcome != Dispatch::Evicted,
            dispatched(old(self)@, final(self)@, Token::bare(index), outcome),
            old(self).channel_lost() ==> final(self).channel_lost(),
            final(self).sender() == old(self).sender(),
            final(self).status() == old(self).status(),
            outcome != Dispatch::Stale ==> exists|
                ctx: &mut C::Context,
                l: &mut C::Loop,
                scope: &mut Scope<C, M>,
                next: Option<M>,
            |
                {
                    &&& #[trigger] call_ensures(
                        M::shutdown,
                        (old(self)@.slot(index).machine, ctx, l, scope),
                        next,
                    )
                    &&& old(self).hands(*old(eloop), Token::bare(index), *ctx, *l, *scope)
                    &&& final(self).receives(
                        *final(eloop),
                        Token::bare(index),
                        *final(ctx),
                        *final(l),
                        *final(scope),
                        next,
                    )
                    &&& (outcome == Dispatch::Kept <==> next is Some)
                },
    {
        let call = |fsm: M, ctx: &mut C::Context, l: &mut C::Loop, scope: &mut Scope<C, M>| -> (next:
            Option<M>)
            requires
                old(scope).wf(),
            ensures
                final(scope).wf(),
                final(scope).follows(*old(scope)),
                exists|c: &mut C::Context, e: &mut C::Loop, s: &mut Scope<C, M>|
                    {
                        &&& #[trigger] call_ensures(M::shutdown, (fsm, c, e, s), next)
                        &&& *c == *old(ctx)
                        &&& *e == *old(l)
                        &&& *s == *old(scope)
                        &&& *final(c) == *final(ctx)
                        &&& *final(e) == *final(l)
                        &&& *final(s) == *final(scope)
                    },
            {
                let callback = M::shutdown;
                callback(fsm, ctx, l, scope)
            };
        let ghost token = Token::bare(index);
        let outcome = self.with_machine(eloop, Token::from_mio(index), call);
        proof {
            old(self).lemma_wf();
            lemma_dispatched_evolves(old(self)@, self@, token, outcome);
        }
        outcome
    }

    /// A stop is asked for: every machine is offered `shutdown`, in the order
    /// of the slots, and those that return nothing are gone. The driver is
    /// draining from then on, and has stopped once no slot is in use.
    ///
    /// What is done to the registry is a run of one event for each slot, and
    /// each event that finds a machine is the `shutdown` of that machine,
    /// called with a scope that addresses it, with what it returns written
    /// back. A driver that has stopped already does nothing.
    pub fn shutdown(&mut self, eloop: &mut C::Loop)
        requires
            old(self).wf(),
        ensures
            final(self).wf(),
            final(self)@.evolved_from(old(self)@),
            old(self).status() != State::Stopped ==> exists|events: Seq<Event<M>>|
                {
                    &&& #[trigger] run(old(self)@, events)
                    &&& final(self)@ == end_of(old(self)@, events)
                    &&& events.len() == old(self)@.capacity()
                    &&& one_per_slot(events)
                    &&& forall|k: int|
                        0 <= k < events.len() && (#[trigger] events[k]).outcome
                            != Dispatch::Stale ==> exists|
                            ctx: &mut C::Context,
                            l: &mut C::Loop,
                            scope: &mut Scope<C, M>,
                            next: Option<M>,
                        |
                            {
                                &&& #[trigger] call_ensures(
                                    M::shutdown,
                                    (
                                        before_event(old(self)@, events, k).slot(k as usize).machine,
                                        ctx,
                                        l,
                                        scope,
                                    ),
                                    next,
                                )
                                &&& scope.wf()
                                &&& scope@ == before_event(old(self)@, events, k).vacate(k as usize)
                                &&& events[k].after == final(scope)@.written_back(k as usize, next)
                                &&& (events[k].outcome == Dispatch::Kept <==> next is Some)
                            }
                },
            old(self).channel_lost() ==> final(self).channel_lost(),
            final(self).sender() == old(self).sender(),
            final(self).status() == (if old(self).status() == State::Stopped {
                State::Stopped
            } else {
                advance(State::Draining, final(self)@, final(self).channel_lost())
            }),
            old(self).status() == State::Stopped ==> *final(self) == *old(self),
    {
        match self.state {
            State::Stopped => {
                proof {
                    self@.lemma_evolved_refl();
                }
                return ;
            },
            _ => {},
        }
        self.state = State::Draining;
        assert(self@ == old(self)@);
        let capacity = self.scope.slab.capacity();
        let mut index: usize = 0;
        let ghost mut events = Seq::<Event<M>>::empty();
        proof {
            self@.lemma_evolved_refl();
        }
        while index < capacity
            invariant
                self.wf(),
                index <= capacity,
                capacity == self@.capacity(),
                capacity == old(self)@.capacity(),
                self@.evolved_from(old(self)@),
                run(old(self)@, events),
                self@ == end_of(old(self)@, events),
                events.len() == index,
                one_per_slot(events),
                forall|k: int|
                0 <= k < events.len() && (#[trigger] events[k]).outcome
                    != Dispatch::Stale ==> exists|
                    ctx: &mut C::Context,
                    l: &mut C::Loop,
                    scope: &mut Scope<C, M>,
                    next: Option<M>,
                |
                    {
                        &&& #[trigger] call_ensures(
                            M::shutdown,
                            (
                                before_event(old(self)@, events, k).slot(k as usize).machine,
                                ctx,
                                l,
                                scope,
                            ),
                            next,
                        )
                        &&& scope.wf()
                        &&& scope@ == before_event(old(self)@, events, k).vacate(k as usize)
                        &&& events[k].after == final(scope)@.written_back(k as usize, next)
                        &&& (events[k].outcome == Dispatch::Kept <==> next is Some)
                    },
                old(self).channel_lost() ==> self.channel_lost(),
                self.sender() == old(self).sender(),
                self.status() == State::Draining,
            decreases capacity - index,
        {
            let ghost before = self@;
            let ghost earlier = events;
            let outcome = self.offer_shutdown(eloop, index);
            proof {
                self@.lemma_evolved_trans(before, old(self)@);
                let event = Event { token: Token::bare(index), outcome, after: self@ };
                lemma_run_push(old(self)@, events, event);
                events = events.push(event);
                Token::lemma_parts(index, 0);
                assert forall|k: int|
                    0 <= k < events.len() && (#[trigger] events[k]).outcome
                        != Dispatch::Stale implies exists|
                    ctx: &mut C::Context,
                    l: &mut C::Loop,
                    scope: &mut Scope<C, M>,
                    next: Option<M>,
                |
                    {
                        &&& #[trigger] call_ensures(
                            M::shutdown,
                            (
                                before_event(old(self)@, events, k).slot(k as usize).machine,
                                ctx,
                                l,
                                scope,
                            ),
                            next,
                        )
                        &&& scope.wf()
                        &&& scope@ == before_event(old(self)@, events, k).vacate(k as usize)
                        &&& events[k].after == final(scope)@.written_back(k as usize, next)
                        &&& (events[k].outcome == Dispatch::Kept <==> next is Some)
                    } by {
                    lemma_before_push(old(self)@, earlier, event, k);
                    if k < earlier.len() {
                        assert(events[k] == earlier[k]);
                        assert(earlier[k].outcome != Dispatch::Stale);
                    } else {
                        assert(events[k] == event);
                        assert(before_event(old(self)@, events, k) == before);
                        assert(k as usize == index);
                    }
                }
            }
            index = index + 1;
        }
        self.settle();
        assert(run(old(self)@, events) && self@ == end_of(old(self)@, events));
    }
}

} // verus!
