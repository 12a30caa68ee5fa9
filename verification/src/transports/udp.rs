//! A datagram socket: datagrams go to the protocol one at a time as they
//! arrive, and those that the protocol sends wait in a queue until the
//! descriptor takes them, in the order in which they were sent.

use crate::handler::{Config, EventSet, PollOpt, Registration, Scope};
use crate::transports::{buf_bytes, IoOutcome};
use crate::PhantomSend;
use netbuf::Buf;
use std::collections::VecDeque;
use vstd::prelude::*;
use vstd::slice::slice_subrange;

verus! {

/// The size of the buffer that datagrams are received into: none is larger.
pub const UDP_MAX_SIZE: usize = 65536;

/// A datagram that has arrived.
pub struct Packet<'a, A> {
    pub source: A,
    pub data: &'a [u8],
}

/// The sending side of a socket, as a protocol sees it.
pub struct Transport<A> {
    send_queue: VecDeque<(A, Buf)>,
}

impl<A> Transport<A> {
    /// The datagrams that wait to be sent, with their targets, oldest first.
    pub closed spec fn queue(&self) -> Seq<(A, Buf)> {
        self.send_queue@
    }

    /// Queues a datagram for `target` behind those that wait already.
    pub fn send(&mut self, target: A, buf: Buf)
        ensures
            final(self).queue() == old(self).queue().push((target, buf)),
    {
        self.send_queue.push_back((target, buf))
    }
}

/// A protocol on datagrams from and to addresses `A`.
pub trait Protocol<A, C: Config>: Sized {
    /// A datagram has been received.
    fn packet_received(
        self,
        packet: Packet<A>,
        transport: &mut Transport<A>,
        ctx: &mut C::Context,
    ) -> Option<Self>;

    /// The socket has failed for good. It ends whatever this does.
    fn error_happened(self, err: std::io::Error, ctx: &mut C::Context) {
    }
}

/// Where a socket stands in the handling of a readiness event.
#[derive(PartialEq, Eq, Clone, Copy, Debug, Structural)]
pub enum Phase {
    /// Between events.
    Idle,
    /// Receiving the datagrams that have arrived.
    Receive,
    /// Sending the datagrams that wait.
    Send,
}

/// What a socket asks for next.
#[derive(PartialEq, Eq, Clone, Copy, Debug, Structural)]
pub enum Next {
    /// Receive a datagram into the scratch buffer and report with `received`.
    Recv,
    /// Send the datagram at the front of the queue and report with `sent`.
    Send,
    /// The event is dealt with. The socket goes on if the flag is set; else
    /// it has ended and is to be dropped.
    Finished(bool),
}

/// The mathematical model of a socket: all that its decisions depend on.
pub struct SocketState<A> {
    pub phase: Phase,
    /// The readiness that the event in hand came with.
    pub events: EventSet,
    /// The protocol is there: the socket has not ended.
    pub alive: bool,
    /// The datagrams that wait to be sent, with their targets, oldest first.
    pub queue: Seq<(A, Buf)>,
}

impl<A> SocketState<A> {
    /// The same state with another queue.
    pub open spec fn with_queue(self, queue: Seq<(A, Buf)>) -> SocketState<A> {
        SocketState { queue, ..self }
    }

    /// The event is dealt with and the socket goes on.
    pub open spec fn rest(self) -> (SocketState<A>, Next) {
        (SocketState { phase: Phase::Idle, ..self }, Next::Finished(true))
    }

    /// The socket has ended.
    pub open spec fn end(self) -> (SocketState<A>, Next) {
        (SocketState { phase: Phase::Idle, alive: false, ..self }, Next::Finished(false))
    }

    /// The front of the queue is sent next, if there is one.
    pub open spec fn send_on(self) -> (SocketState<A>, Next) {
        if self.queue.len() > 0 {
            (SocketState { phase: Phase::Send, ..self }, Next::Send)
        } else {
            self.rest()
        }
    }

    /// The second step of an event: datagrams are sent if the descriptor was
    /// reported writable.
    pub open spec fn send_step(self) -> (SocketState<A>, Next) {
        if self.events.has_writable() {
            self.send_on()
        } else {
            self.rest()
        }
    }

    /// A readiness event comes in: datagrams are received first if the
    /// descriptor was reported readable. A socket that has ended answers that
    /// it has ended.
    pub open spec fn begin(self, events: EventSet) -> (SocketState<A>, Next) {
        if !self.alive {
            (self, Next::Finished(false))
        } else if events.has_readable() {
            (SocketState { phase: Phase::Receive, events, ..self }, Next::Recv)
        } else {
            (SocketState { events, ..self }).send_step()
        }
    }

    /// An attempt to receive has ended without a datagram.
    ///
    /// A dry descriptor ends the receiving, and the sending follows. After an
    /// interruption the attempt is made again. A failure ends the socket.
    pub open spec fn received_nothing<T>(self, outcome: IoOutcome<T>) -> (SocketState<A>, Next)
        recommends
            !(outcome is Done),
    {
        match outcome {
            IoOutcome::WouldBlock => self.send_step(),
            IoOutcome::Interrupted => (self, Next::Recv),
            _ => self.end(),
        }
    }

    /// The protocol has dealt with a datagram: the receiving goes on if it
    /// returned itself, and the socket ends if it returned nothing.
    pub open spec fn resumed(self, kept: bool) -> (SocketState<A>, Next) {
        if kept {
            (SocketState { alive: true, ..self }, Next::Recv)
        } else {
            self.end()
        }
    }

    /// Whether a send that took `n` bytes has sent the front of the queue
    /// whole.
    pub open spec fn sent_whole(self, n: usize) -> bool {
        self.queue.len() > 0 && n >= buf_bytes(self.queue[0].1).len()
    }

    /// An attempt to send the front of the queue has ended with `outcome`.
    ///
    /// A datagram that was sent whole leaves the queue, and the next one
    /// follows. Any other outcome leaves the queue as it is, so that the same
    /// datagram is tried first the next time: at once after an interruption,
    /// at the next writable event after a refusal or after a send that took
    /// only a part of it. A failure ends the socket.
    pub open spec fn sent(self, outcome: IoOutcome<usize>) -> (SocketState<A>, Next) {
        match outcome {
            IoOutcome::Done(n) => if self.sent_whole(n) {
                self.with_queue(self.queue.skip(1)).send_on()
            } else {
                self.rest()
            },
            IoOutcome::WouldBlock => self.rest(),
            IoOutcome::Interrupted => (self, Next::Send),
            IoOutcome::Failed(_) => self.end(),
        }
    }
}

/// A datagram socket on the descriptor `S` that speaks the protocol `P`.
#[verifier::reject_recursive_types(C)]
pub struct Socket<S, A, P, C> {
    sock: S,
    recv_buf: Vec<u8>,
    transport: Transport<A>,
    protocol: Option<P>,
    events: EventSet,
    phase: Phase,
    phantom: PhantomSend<C>,
}

impl<S, A, P, C> View for Socket<S, A, P, C> {
    type V = SocketState<A>;

    closed spec fn view(&self) -> SocketState<A> {
        SocketState {
            phase: self.phase,
            events: self.events,
            alive: self.protocol is Some,
            queue: self.transport.send_queue@,
        }
    }
}

impl<S, A, P: Protocol<A, C>, C: Config> Socket<S, A, P, C> {
    /// The descriptor.
    pub closed spec fn descriptor(self) -> S {
        self.sock
    }

    /// The protocol, while the socket has not ended.
    pub closed spec fn protocol(self) -> Option<P> {
        self.protocol
    }

    /// The bytes of the scratch buffer.
    pub closed spec fn scratch(self) -> Seq<u8> {
        self.recv_buf@
    }

    /// The invariant of a socket: its scratch buffer has its full size.
    pub open spec fn wf(self) -> bool {
        self.scratch().len() == UDP_MAX_SIZE
    }

    /// The socket is alive as long as it has its protocol.
    pub proof fn lemma_alive(self)
        ensures
            self@.alive == (self.protocol() is Some),
    {
    }

    /// The socket on `sock` with `protocol`: between events, with nothing to
    /// send.
    pub fn new(sock: S, protocol: P) -> (socket: Self)
        ensures
            socket.wf(),
            socket.descriptor() == sock,
            socket.protocol() == Some(protocol),
            socket@.phase == Phase::Idle,
            socket@.alive,
            socket@.queue.len() == 0,
    {
        Socket {
            sock,
            recv_buf: vec![0u8; UDP_MAX_SIZE],
            transport: Transport { send_queue: VecDeque::new() },
            protocol: Some(protocol),
            events: EventSet::none(),
            phase: Phase::Idle,
            phantom: PhantomSend::new(),
        }
    }

    /// How the descriptor is registered: for reading and writing,
    /// level-triggered, under the slot of the current machine.
    pub fn register<M>(&self, scope: &Scope<C, M>) -> (registration: Registration)
        ensures
            registration.token == scope.current().index(),
            registration.interest.has_readable(),
            registration.interest.has_writable(),
            registration.opt == PollOpt::Level,
    {
        scope.register(EventSet::all(), PollOpt::level())
    }

    /// The descriptor.
    pub fn socket(&self) -> (sock: &S)
        ensures
            *sock == self.descriptor(),
    {
        &self.sock
    }

    /// The descriptor and the scratch buffer to receive into. The size of
    /// the buffer stays, and nothing else of the socket changes.
    pub fn recv_parts(&mut self) -> (parts: (&S, &mut [u8]))
        requires
            old(self).wf(),
        ensures
            *parts.0 == old(self).descriptor(),
            parts.1@ == old(self).scratch(),
            final(parts.1)@.len() == parts.1@.len() ==> final(self).wf(),
            final(self)@ == old(self)@,
            final(self).descriptor() == old(self).descriptor(),
            final(self).protocol() == old(self).protocol(),
            final(self).scratch() == final(parts.1)@,
    {
        (&self.sock, self.recv_buf.as_mut_slice())
    }

    /// The datagram that is sent next, with its target: the one that has
    /// waited longest.
    pub fn front(&self) -> (front: Option<&(A, Buf)>)
        ensures
            match front {
                Some(datagram) => self@.queue.len() > 0 && *datagram == self@.queue[0],
                None => self@.queue.len() == 0,
            },
    {
        if self.transport.send_queue.len() > 0 {
            Some(&self.transport.send_queue[0])
        } else {
            None
        }
    }

    fn rest(&mut self) -> (next: Next)
        ensures
            (final(self)@, next) == old(self)@.rest(),
            final(self).same_parts(*old(self)),
    {
        self.phase = Phase::Idle;
        Next::Finished(true)
    }

    fn send_on(&mut self) -> (next: Next)
        ensures
            (final(self)@, next) == old(self)@.send_on(),
            final(self).same_parts(*old(self)),
    {
        if self.transport.send_queue.len() > 0 {
            self.phase = Phase::Send;
            Next::Send
        } else {
            self.rest()
        }
    }

    fn send_step(&mut self) -> (next: Next)
        ensures
            (final(self)@, next) == old(self)@.send_step(),
            final(self).same_parts(*old(self)),
    {
        if self.events.is_writable() {
            self.send_on()
        } else {
            self.rest()
        }
    }

    fn fail(&mut self, e: std::io::Error, ctx: &mut C::Context) -> (next: Next)
        ensures
            (final(self)@, next) == old(self)@.end(),
            final(self).descriptor() == old(self).descriptor(),
            final(self).scratch() == old(self).scratch(),
            match old(self).protocol() {
                Some(protocol) => exists|c: &mut C::Context|
                    {
                        &&& #[trigger] call_ensures(P::error_happened, (protocol, e, c), ())
                        &&& *c == *old(ctx)
                        &&& *final(c) == *final(ctx)
                    },
                None => *final(ctx) == *old(ctx),
            },
    {
        match self.protocol.take() {
            Some(protocol) => {
                let tell = P::error_happened;
                tell(protocol, e, ctx);
            },
            None => {},
        }
        self.phase = Phase::Idle;
        Next::Finished(false)
    }

    /// Whether two sockets have the same descriptor, scratch buffer and
    /// protocol.
    pub open spec fn same_parts(self, other: Self) -> bool {
        &&& self.descriptor() == other.descriptor()
        &&& self.scratch() == other.scratch()
        &&& self.protocol() == other.protocol()
    }

    /// A readiness event has come for the descriptor.
    pub fn ready(&mut self, evset: EventSet) -> (next: Next)
        ensures
            (final(self)@, next) == old(self)@.begin(evset),
            final(self).same_parts(*old(self)),
            final(self).wf() == old(self).wf(),
    {
        if self.protocol.is_none() {
            return Next::Finished(false);
        }
        self.events = evset;
        if evset.is_readable() {
            self.phase = Phase::Receive;
            Next::Recv
        } else {
            self.send_step()
        }
    }

    /// The attempt to receive that the socket asked for has ended with
    /// `outcome`: with the length and the source of a datagram that stands in
    /// the scratch buffer, or otherwise.
    ///
    /// The protocol deals with a datagram, and the receiving goes on, so that
    /// one event serves every datagram that has arrived: the socket asks for
    /// `Recv` again unless the protocol has ended it. A failure is told to the
    /// protocol. Any other outcome is dealt with as
    /// `SocketState::received_nothing` says.
    pub fn received(&mut self, outcome: IoOutcome<(usize, A)>, ctx: &mut C::Context) -> (next: Next)
        requires
            old(self).wf(),
            outcome matches IoOutcome::Done(datagram) ==> datagram.0 <= UDP_MAX_SIZE,
        ensures
            final(self).wf(),
            final(self).descriptor() == old(self).descriptor(),
            final(self).scratch() == old(self).scratch(),
            match outcome {
                IoOutcome::Done(datagram) => match old(self).protocol() {
                    Some(protocol) => exists|
                        packet: Packet<A>,
                        t: &mut Transport<A>,
                        c: &mut C::Context,
                        kept: Option<P>,
                    |
                        {
                            &&& #[trigger] call_ensures(
                                P::packet_received,
                                (protocol, packet, t, c),
                                kept,
                            )
                            &&& packet.source == datagram.1
                            &&& packet.data@ == old(self).scratch().subrange(0, datagram.0 as int)
                            &&& t.queue() == old(self)@.queue
                            &&& *c == *old(ctx)
                            &&& *final(c) == *final(ctx)
                            &&& final(self).protocol() == kept
                            &&& (final(self)@, next) == old(self)@.with_queue(
                                final(t).queue(),
                            ).resumed(kept is Some)
                        },
                    None => (final(self)@, next) == old(self)@.end() && *final(ctx) == *old(ctx),
                },
                IoOutcome::Failed(e) => {
                    &&& (final(self)@, next) == old(self)@.end()
                    &&& match old(self).protocol() {
                        Some(protocol) => exists|c: &mut C::Context|
                            {
                                &&& #[trigger] call_ensures(P::error_happened, (protocol, e, c), ())
                                &&& *c == *old(ctx)
                                &&& *final(c) == *final(ctx)
                            },
                        None => *final(ctx) == *old(ctx),
                    }
                },
                _ => {
                    &&& (final(self)@, next) == old(self)@.received_nothing(outcome)
                    &&& final(self).protocol() == old(self).protocol()
                    &&& *final(ctx) == *old(ctx)
                },
            },
    {
        match outcome {
            IoOutcome::Done((len, source)) => {
                match self.protocol.take() {
                    Some(protocol) => {
                        let data = slice_subrange(self.recv_buf.as_slice(), 0, len);
                        let packet = Packet { source, data };
                        let deal = P::packet_received;
                        let kept = deal(protocol, packet, &mut self.transport, ctx);
                        self.resume(kept)
                    },
                    None => self.resume(None),
                }
            },
            IoOutcome::WouldBlock => self.send_step(),
            IoOutcome::Interrupted => Next::Recv,
            IoOutcome::Failed(e) => self.fail(e, ctx),
        }
    }

    /// The protocol has dealt with a datagram and returned `protocol`: with
    /// `Some` the receiving goes on, with `None` the socket ends.
    pub fn resume(&mut self, protocol: Option<P>) -> (next: Next)
        ensures
            (final(self)@, next) == old(self)@.resumed(protocol is Some),
            final(self).wf() == old(self).wf(),
            final(self).protocol() == protocol,
            final(self).descriptor() == old(self).descriptor(),
            final(self).scratch() == old(self).scratch(),
    {
        match protocol {
            Some(protocol) => {
                self.protocol = Some(protocol);
                Next::Recv
            },
            None => {
                self.protocol = None;
                self.phase = Phase::Idle;
                Next::Finished(false)
            },
        }
    }

    /// The attempt to send the front of the queue has ended with `outcome`.
    ///
    /// Where it failed the protocol is told of the error and the socket ends.
    /// Nothing else reaches the protocol.
    pub fn sent(&mut self, outcome: IoOutcome<usize>, ctx: &mut C::Context) -> (next: Next)
        ensures
            (final(self)@, next) == old(self)@.sent(outcome),
            final(self).wf() == old(self).wf(),
            final(self).descriptor() == old(self).descriptor(),
            final(self).scratch() == old(self).scratch(),
            match outcome {
                IoOutcome::Failed(e) => match old(self).protocol() {
                    Some(protocol) => exists|c: &mut C::Context|
                        {
                            &&& #[trigger] call_ensures(P::error_happened, (protocol, e, c), ())
                            &&& *c == *old(ctx)
                            &&& *final(c) == *final(ctx)
                        },
                    None => *final(ctx) == *old(ctx),
                },
                _ => final(self).protocol() == old(self).protocol() && *final(ctx) == *old(ctx),
            },
    {
        match outcome {
            IoOutcome::Done(n) => {
                let whole = self.transport.send_queue.len() > 0
                    && n >= self.transport.send_queue[0].1.len();
                if whole {
                    let _ = self.transport.send_queue.pop_front();
                    assert(self@.queue =~= old(self)@.queue.skip(1));
                    self.send_on()
                } else {
                    self.rest()
                }
            },
            IoOutcome::WouldBlock => self.rest(),
            IoOutcome::Interrupted => Next::Send,
            IoOutcome::Failed(e) => self.fail(e, ctx),
        }
    }
}

} // verus!
