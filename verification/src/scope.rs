//! The scope that the driver lends to each callback, and what travels over
//! the notification channel.

use crate::events::{EventSet, PollOpt};
use crate::machine::Config;
use crate::slots::{Registry, Slots};
use crate::token::Token;
use vstd::prelude::*;

verus! {

/// The sending end of the loop's notification channel.
#[verifier::external_type_specification]
#[verifier::external_body]
#[verifier::reject_recursive_types(M)]
pub struct ExSender<M>(mio::deprecated::Sender<M>);

/// What travels over the notification channel. The kinds are closed: the
/// driver handles each of them.
pub struct Message<C: Config>(pub(crate) MessageInner<C>);

pub(crate) enum MessageInner<C: Config> {
    RegisterMachine(Token),
    Deliver(Token, C::Message),
}

/// The kind of a message.
pub enum MessageKind {
    /// A machine was spawned and its `register` is due.
    Register,
    /// A message for a machine.
    Deliver,
}

impl<C: Config> Message<C> {
    /// The machine that the message is for.
    pub open(crate) spec fn target(self) -> Token {
        match self.0 {
            MessageInner::RegisterMachine(token) => token,
            MessageInner::Deliver(token, _) => token,
        }
    }

    /// The kind of the message.
    pub open(crate) spec fn kind(self) -> MessageKind {
        match self.0 {
            MessageInner::RegisterMachine(_) => MessageKind::Register,
            MessageInner::Deliver(_, _) => MessageKind::Deliver,
        }
    }

    /// The message that asks for the `register` of the machine at `token`.
    pub open(crate) spec fn registering(token: Token) -> Message<C> {
        Message(MessageInner::RegisterMachine(token))
    }

    /// What a message for a machine carries.
    pub open(crate) spec fn payload(self) -> Option<C::Message> {
        match self.0 {
            MessageInner::RegisterMachine(_) => None,
            MessageInner::Deliver(_, payload) => Some(payload),
        }
    }

    /// The message that asks the driver to call `register` on a machine that
    /// was just spawned.
    pub fn register(token: Token) -> (message: Message<C>)
        ensures
            message == Message::<C>::registering(token),
            message.target() == token,
            message.kind() == MessageKind::Register,
            message.payload() == None::<C::Message>,
    {
        Message(MessageInner::RegisterMachine(token))
    }

    /// A message for the machine at `token`, given to its `notify`.
    pub fn deliver(token: Token, payload: C::Message) -> (message: Message<C>)
        ensures
            message.target() == token,
            message.kind() == MessageKind::Deliver,
            message.payload() == Some(payload),
    {
        Message(MessageInner::Deliver(token, payload))
    }
}

/// A timer entry: what a machine attached, and the machine it goes back to.
pub struct Timeout<C: Config> {
    pub(crate) token: Token,
    pub(crate) timeout: C::Timeout,
}

impl<C: Config> Timeout<C> {
    /// The machine that armed the timer.
    pub open(crate) spec fn target(self) -> Token {
        self.token
    }

    /// What the machine attached.
    pub open(crate) spec fn payload(self) -> C::Timeout {
        self.timeout
    }
}

/// An address to register a descriptor under, with the readiness asked for.
pub struct Registration {
    pub token: usize,
    pub interest: EventSet,
    pub opt: PollOpt,
}

/// Why the channel did not take a message.
pub enum Rejected<C: Config> {
    /// The queue is full; the message comes back.
    Full(Message<C>),
    /// The receiving end is gone.
    Closed,
    /// Waking the loop failed.
    Io,
}

/// `mio::deprecated::Sender::send`: queues the message for the loop and wakes
/// it, without blocking.
///
/// Whether the queue takes it depends on what the queue holds, so nothing is
/// said of that. A full queue hands back the message it was given.
#[verifier::external_body]
#[allow(deprecated)]
pub(crate) fn send_message<C: Config>(
    channel: &mio::deprecated::Sender<Message<C>>,
    m: Message<C>,
) -> (sent: Result<(), Rejected<C>>)
    ensures
        sent matches Err(Rejected::Full(back)) ==> back == m,
{
    match channel.send(m) {
        Ok(()) => Ok(()),
        Err(mio::deprecated::NotifyError::Full(back)) => Err(Rejected::Full(back)),
        Err(mio::deprecated::NotifyError::Closed(_)) => Err(Rejected::Closed),
        Err(mio::deprecated::NotifyError::Io(_)) => Err(Rejected::Io),
    }
}

/// Whether `sent` is what the channel behind `sender` may answer to
/// `message`.
pub open(crate) spec fn channel_answers<C: Config>(
    sender: mio::deprecated::Sender<Message<C>>,
    message: Message<C>,
    sent: Result<(), Rejected<C>>,
) -> bool {
    call_ensures(send_message::<C>, (&sender, message), sent)
}

/// What a callback may do to the loop's state: add machines, and address the
/// machine it was called for.
///
/// While a callback runs, the slot of its machine is held: the machine is
/// with the callback, and no machine spawned meanwhile takes its index.
#[verifier::reject_recursive_types(C)]
pub struct Scope<C: Config, M> {
    pub(crate) slab: Registry<M>,
    pub(crate) channel: mio::deprecated::Sender<Message<C>>,
    pub(crate) token: Token,
    pub(crate) closed: bool,
}

impl<C: Config, M> View for Scope<C, M> {
    type V = Slots<M>;

    open(crate) spec fn view(&self) -> Slots<M> {
        self.slab@
    }
}

impl<C: Config, M> Scope<C, M> {
    /// The machine that the running callback was called for.
    pub open(crate) spec fn current(&self) -> Token {
        self.token
    }

    /// Whether the channel was found closed or broken.
    pub open(crate) spec fn channel_lost(&self) -> bool {
        self.closed
    }

    /// The sending end of the channel.
    pub open(crate) spec fn sender(&self) -> mio::deprecated::Sender<Message<C>> {
        self.channel
    }

    /// Whether `sent` is what the channel may answer to `message`.
    pub open spec fn answers(&self, message: Message<C>, sent: Result<(), Rejected<C>>) -> bool {
        channel_answers(self.sender(), message, sent)
    }

    /// The invariant of a scope during a callback: the registry is sound, the
    /// slot of the current machine is held under the generation that the
    /// current token carries, and every other slot in use holds a machine.
    pub open(crate) spec fn wf(&self) -> bool {
        &&& self.slab.wf()
        &&& self@.held(self.token.index())
        &&& self.token.generation() == Some(self@.generations[self.token.index()])
        &&& forall|i: usize| #[trigger]
            self@.in_use(i) && i != self.token.index() ==> self@.occupied(i)
    }

    /// What a scope has become of `before` during a callback: it addresses
    /// the same machine, machines were only added, and a channel found lost
    /// stays lost.
    pub open spec fn follows(self, before: Scope<C, M>) -> bool {
        &&& self.current() == before.current()
        &&& self.sender() == before.sender()
        &&& self@.grown_from(before@)
        &&& before.channel_lost() ==> self.channel_lost()
    }

    /// What `wf` says, in terms of the model.
    pub proof fn lemma_wf(&self)
        requires
            self.wf(),
        ensures
            self@.wf(),
            self@.held(self.current().index()),
            self.current().generation() == Some(self@.generations[self.current().index()]),
            forall|i: usize| #[trigger]
                self@.in_use(i) && i != self.current().index() ==> self@.occupied(i),
    {
        self.slab.lemma_wf();
    }

    /// The token of the machine that the callback was called for, with its
    /// generation.
    pub fn token(&self) -> (token: Token)
        ensures
            token == self.current(),
    {
        self.token
    }

    /// Whether the channel was found closed or broken.
    pub fn is_channel_lost(&self) -> (lost: bool)
        ensures
            lost == self.channel_lost(),
    {
        self.closed
    }

    /// Whether `handle` addresses a machine. The machine that the callback
    /// was called for is away from its slot and is not found.
    pub fn contains(&self, handle: Token) -> (found: bool)
        requires
            self.wf(),
        ensures
            found == self@.matches(handle),
    {
        self.slab.contains(handle)
    }

    /// The invariant of a scope between `reserve` and `complete_spawn`: as
    /// `wf`, but that the slot of `reserved` is reserved, under the generation
    /// that is given out next.
    pub open(crate) spec fn wf_reserving(&self, reserved: Token) -> bool {
        &&& self.slab.reserving(reserved.index())
        &&& self@.held(self.token.index())
        &&& self.token.generation() == Some(self@.generations[self.token.index()])
        &&& reserved.index() != self.token.index()
        &&& self@.held(reserved.index())
        &&& reserved.generation() == Some(self@.counter_next)
        &&& forall|i: usize| #[trigger]
            self@.in_use(i) && i != self.token.index() && i != reserved.index()
                ==> self@.occupied(i)
    }

    /// Takes a free slot for a machine to be spawned and returns the token
    /// that the machine will have. The generation of the token is given out
    /// only when the machine moves in: where the spawn is given up, the token
    /// is void. Returns `None`, and changes nothing, where every slot is in
    /// use or the generations are used up.
    pub fn reserve(&mut self) -> (reserved: Option<Token>)
        requires
            old(self).wf(),
        ensures
            reserved is None <==> old(self)@.full() || old(self)@.counter_next == u64::MAX,
            final(self).current() == old(self).current(),
            final(self).sender() == old(self).sender(),
            final(self).channel_lost() == old(self).channel_lost(),
            match reserved {
                Some(token) => {
                    &&& final(self).wf_reserving(token)
                    &&& !old(self)@.in_use(token.index())
                    &&& token.index() < old(self)@.capacity()
                    &&& token.generation() == Some(old(self)@.counter_next)
                    &&& final(self)@ == old(self)@.reserve(token.index())
                },
                None => *final(self) == *old(self),
            },
    {
        proof {
            self.slab.lemma_wf();
        }
        let reserved = self.slab.reserve();
        proof {
            if let Some(token) = reserved {
                let i = token.index();
                assert(!old(self)@.in_use(i));
                assert(old(self)@.in_use(self.token.index()));
                assert forall|j: usize| #[trigger]
                    self@.in_use(j) && j != self.token.index() && j != i implies self@.occupied(
                    j,
                ) by {
                    assert(old(self)@.in_use(j));
                }
            }
        }
        reserved
    }

    /// Moves `machine` into the reserved slot where the register message was
    /// sent; else undoes the reservation and notes a lost channel.
    pub(crate) fn settle_spawn(
        &mut self,
        reserved: Token,
        machine: M,
        sent: Result<(), Rejected<C>>,
    ) -> (added: Result<Token, M>)
        requires
            old(self).slab.reserving(reserved.index()),
        ensures
            final(self).slab.wf(),
            final(self).token == old(self).token,
            final(self).channel == old(self).channel,
            match sent {
                Ok(_) => {
                    &&& added == Ok::<Token, M>(reserved)
                    &&& final(self)@ == old(self)@.commit(reserved.index(), machine)
                    &&& final(self).closed == old(self).closed
                },
                Err(rejected) => {
                    &&& added == Err::<Token, M>(machine)
                    &&& final(self)@ == old(self)@.release(reserved.index())
                    &&& final(self).closed == (old(self).closed || !(rejected is Full))
                },
            },
    {
        let index = reserved.as_usize();
        match sent {
            Ok(()) => {
                self.slab.settle(index, Some(machine));
                Ok(reserved)
            },
            Err(rejected) => {
                self.slab.settle(index, None);
                match rejected {
                    Rejected::Full(_) => {},
                    Rejected::Closed => {
                        self.closed = true;
                    },
                    Rejected::Io => {
                        self.closed = true;
                    },
                }
                Err(machine)
            },
        }
    }

    /// Ends the spawn begun by `reserve`, given what the channel answered to
    /// the register message for `reserved`.
    ///
    /// Where the message was sent, the machine moves into the reserved slot
    /// and its token is returned. Where it was not, the reservation is undone
    /// and the machine handed back; unless the queue was merely full, the
    /// channel is marked lost.
    pub fn complete_spawn(
        &mut self,
        reserved: Token,
        machine: M,
        sent: Result<(), Rejected<C>>,
    ) -> (added: Result<Token, M>)
        requires
            old(self).wf_reserving(reserved),
        ensures
            final(self).wf(),
            final(self).current() == old(self).current(),
            final(self).sender() == old(self).sender(),
            match sent {
                Ok(_) => {
                    &&& added == Ok::<Token, M>(reserved)
                    &&& final(self)@ == old(self)@.commit(reserved.index(), machine)
                    &&& final(self).channel_lost() == old(self).channel_lost()
                },
                Err(rejected) => {
                    &&& added == Err::<Token, M>(machine)
                    &&& final(self)@ == old(self)@.release(reserved.index())
                    &&& final(self).channel_lost() == (old(self).channel_lost()
                        || !(rejected is Full))
                },
            },
    {
        proof {
            self.slab.lemma_reserving(reserved.index());
        }
        let added = self.settle_spawn(reserved, machine, sent);
        proof {
            assert(self@.in_use(self.token.index()));
            assert forall|j: usize| #[trigger]
                self@.in_use(j) && j != self.token.index() implies self@.occupied(j) by {
                assert(old(self)@.in_use(j));
            }
        }
        added
    }

    /// Spawns a machine: inserts it at once, so that its token can be
    /// returned, and queues a register message, so that the driver calls its
    /// `register` on a later turn of the loop, not inside the running
    /// callback.
    ///
    /// Where no slot is free, or the channel does not take the message, the
    /// machine is handed back and the registry is as it was. Once the channel
    /// was found lost, nothing is spawned any more.
    ///
    /// Whether the machine is added is thus decided by what the channel
    /// answers to the register message for the token that the machine would
    /// get.
    pub fn add_machine(&mut self, machine: M) -> (added: Result<Token, M>)
        requires
            old(self).wf(),
        ensures
            final(self).wf(),
            final(self).follows(*old(self)),
            final(self).channel_lost() ==> added is Err,
            match added {
                Ok(token) => {
                    &&& !old(self)@.in_use(token.index())
                    &&& token.index() < old(self)@.capacity()
                    &&& token.generation() == Some(old(self)@.counter_next)
                    &&& final(self)@ == old(self)@.insert(token.index(), machine)
                    &&& final(self)@.matches(token)
                },
                Err(back) => back == machine && final(self)@ == old(self)@,
            },
            old(self)@.full() || old(self)@.counter_next == u64::MAX || old(self).channel_lost()
                ==> added is Err && *final(self) == *old(self),
            !(old(self)@.full() || old(self)@.counter_next == u64::MAX || old(self).channel_lost())
                ==> exists|token: Token, sent: Result<(), Rejected<C>>|
                {
                    &&& #[trigger] old(self).answers(Message::<C>::registering(token), sent)
                    &&& !old(self)@.in_use(token.index())
                    &&& token.generation() == Some(old(self)@.counter_next)
                    &&& match sent {
                        Ok(_) => {
                            &&& added == Ok::<Token, M>(token)
                            &&& final(self)@ == old(self)@.insert(token.index(), machine)
                            &&& final(self)@.counter_next == old(self)@.counter_next + 1
                            &&& !final(self).channel_lost()
                        },
                        Err(rejected) => {
                            &&& added == Err::<Token, M>(machine)
                            &&& final(self)@ == old(self)@
                            &&& final(self).channel_lost() == !(rejected is Full)
                        },
                    }
                },
    {
        proof {
            self.lemma_wf();
        }
        if self.closed {
            proof {
                self@.lemma_grown_refl();
            }
            return Err(machine);
        }
        match self.reserve() {
            Some(token) => {
                let send = send_message::<C>;
                let sent = send(&self.channel, Message::register(token));
                assert(old(self).answers(Message::<C>::registering(token), sent));
                let added = self.complete_spawn(token, machine, sent);
                proof {
                    let i = token.index();
                    old(self)@.lemma_insert_grows(i, machine);
                    old(self)@.lemma_reserve(i);
                    old(self)@.lemma_grown_refl();
                }
                added
            },
            None => {
                proof {
                    old(self)@.lemma_grown_refl();
                }
                Err(machine)
            },
        }
    }

    /// The timer entry for `timeout`, addressed at the current machine: the
    /// driver gives the payload back to this machine, and to no machine that
    /// may later take its slot.
    pub fn set_timeout(&self, timeout: C::Timeout) -> (entry: Timeout<C>)
        ensures
            entry.target() == self.current(),
            entry.payload() == timeout,
    {
        Timeout { token: self.token, timeout }
    }

    /// What the loop's answer to a cancellation means: `Ok` where the timer
    /// was cleared, `Err` where it had fired or was unknown.
    pub fn clear_timeout(&self, cleared: bool) -> (result: Result<(), ()>)
        ensures
            result is Ok <==> cleared,
    {
        if cleared {
            Ok(())
        } else {
            Err(())
        }
    }

    /// The registration of a descriptor of the current machine: under the
    /// index of its slot, with the given interest and mode.
    pub fn register(&self, interest: EventSet, opt: PollOpt) -> (registration: Registration)
        ensures
            registration.token == self.current().index(),
            registration.interest == interest,
            registration.opt == opt,
    {
        Registration { token: self.token.as_usize(), interest, opt }
    }
}

} // verus!
