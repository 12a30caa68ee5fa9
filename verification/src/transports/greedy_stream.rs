//! The simplest transport to use: a greedy stream.
//!
//! It reads whatever the descriptor has into the input buffer at once, and
//! writes whatever stands in the output buffer as soon as the descriptor takes
//! it. The protocol is assumed to keep up with the input; it can look at the
//! size of the input buffer and give the connection up.

use crate::handler::{Config, EventSet, PollOpt, Registration, Scope};
use crate::transports::{buf_bytes, IoOutcome};
use netbuf::Buf;
use std::marker::PhantomData;
use vstd::prelude::*;

verus! {

/// The two buffers of a stream, as a protocol sees them.
pub struct Transport<'a> {
    pub input: &'a mut Buf,
    pub output: &'a mut Buf,
}

/// A protocol on a stream of bytes. An implementation has to provide
/// `accepted` and `data_received`; the rest may stay as it is.
pub trait Protocol<T, C: Config>: Sized {
    /// The protocol for a connection that was just accepted, or nothing where
    /// the connection is declined.
    fn accepted(conn: &mut T, ctx: &mut C::Context) -> Option<Self>;

    /// A chunk of data has arrived and stands in the input buffer. Readiness
    /// is edge-triggered, so everything useful has to be taken now; a packet
    /// received by half may stay in the buffer.
    fn data_received(self, transport: &mut Transport, ctx: &mut C::Context) -> Option<Self>;

    /// The peer has closed the connection. The stream ends whatever this does.
    fn eof_received(self, ctx: &mut C::Context) {
    }

    /// The connection has failed for good. The stream ends whatever this does.
    fn error_happened(self, e: std::io::Error, ctx: &mut C::Context) {
    }
}

/// Where a stream stands in the handling of a readiness event.
#[derive(PartialEq, Eq, Clone, Copy, Debug, Structural)]
pub enum Phase {
    /// Between events.
    Idle,
    /// Writing out what was pending when the event came.
    FlushFirst,
    /// Draining the descriptor.
    Receive,
    /// Writing out what the protocol has answered.
    FlushLast,
}

/// What a stream asks for next.
#[derive(PartialEq, Eq, Clone, Copy, Debug, Structural)]
pub enum Next {
    /// Write the output buffer to the descriptor and report with `written`.
    Write,
    /// Read from the descriptor into the input buffer and report with
    /// `received`.
    Read,
    /// The event is dealt with. The stream goes on if the flag is set; else
    /// it has ended and is to be dropped.
    Finished(bool),
}

/// The mathematical model of a stream: all that its decisions depend on.
pub struct StreamState {
    pub phase: Phase,
    /// The readiness that the event in hand came with.
    pub events: EventSet,
    /// The descriptor has not refused a write since it was last reported
    /// writable.
    pub writable: bool,
    /// The descriptor has not run dry since it was last reported readable.
    pub readable: bool,
    /// The protocol is there: the stream has not ended.
    pub alive: bool,
    /// The number of bytes in the output buffer.
    pub pending: nat,
}

impl StreamState {
    /// The same state with another number of bytes pending.
    pub open spec fn with_pending(self, pending: nat) -> StreamState {
        StreamState { pending, ..self }
    }

    /// The event is dealt with and the stream goes on.
    pub open spec fn rest(self) -> (StreamState, Next) {
        (StreamState { phase: Phase::Idle, ..self }, Next::Finished(true))
    }

    /// The stream has ended.
    pub open spec fn end(self) -> (StreamState, Next) {
        (StreamState { phase: Phase::Idle, alive: false, ..self }, Next::Finished(false))
    }

    /// The last step of an event: output is written if any is pending and
    /// the descriptor is taken to be writable.
    pub open spec fn flush_last(self) -> (StreamState, Next) {
        if self.writable && self.pending > 0 {
            (StreamState { phase: Phase::FlushLast, ..self }, Next::Write)
        } else {
            self.rest()
        }
    }

    /// The middle step of an event: the descriptor is drained if it was
    /// reported readable.
    pub open spec fn receive(self) -> (StreamState, Next) {
        if self.events.has_readable() {
            (StreamState { phase: Phase::Receive, readable: true, ..self }, Next::Read)
        } else {
            self.flush_last()
        }
    }

    /// The first step of an event: pending output is written if the
    /// descriptor was reported writable.
    pub open spec fn flush_first(self) -> (StreamState, Next) {
        if self.events.has_writable() && self.pending > 0 {
            (StreamState { phase: Phase::FlushFirst, writable: true, ..self }, Next::Write)
        } else {
            self.receive()
        }
    }

    /// A readiness event comes in. A stream that has ended answers that it
    /// has ended.
    pub open spec fn begin(self, events: EventSet) -> (StreamState, Next) {
        if self.alive {
            (StreamState { events, ..self }).flush_first()
        } else {
            (self, Next::Finished(false))
        }
    }

    /// The step that follows a flush.
    pub open spec fn flushed(self) -> (StreamState, Next) {
        if self.phase == Phase::FlushFirst {
            self.receive()
        } else {
            self.rest()
        }
    }

    /// A write has ended with `outcome`; `self.pending` is what it left in the
    /// output buffer.
    ///
    /// A write of no bytes means that the peer is gone, and a failure is
    /// final: the stream ends. A refusal ends the flush until the descriptor
    /// is reported writable again. Otherwise the flush goes on while output is
    /// pending.
    pub open spec fn written(self, outcome: IoOutcome<usize>) -> (StreamState, Next) {
        match outcome {
            IoOutcome::Done(n) if n == 0 => self.end(),
            IoOutcome::Failed(_) => self.end(),
            IoOutcome::WouldBlock => (StreamState { writable: false, ..self }).flushed(),
            _ => if self.pending > 0 {
                (self, Next::Write)
            } else {
                self.flushed()
            },
        }
    }

    /// A read has ended otherwise than with data.
    ///
    /// A read of no bytes means that the peer is gone, and a failure is final:
    /// the stream ends. A dry descriptor ends the draining, and the answer is
    /// flushed. After an interruption the read is made again.
    pub open spec fn received_nothing(self, outcome: IoOutcome<usize>) -> (StreamState, Next)
        recommends
            !(outcome matches IoOutcome::Done(n) && n > 0),
    {
        match outcome {
            IoOutcome::WouldBlock => (StreamState { readable: false, ..self }).flush_last(),
            IoOutcome::Interrupted => (self, Next::Read),
            _ => self.end(),
        }
    }

    /// The protocol has dealt with a chunk of data: the draining goes on if
    /// it returned itself, and the stream ends if it returned nothing.
    pub open spec fn resumed(self, kept: bool) -> (StreamState, Next) {
        if kept {
            (StreamState { alive: true, ..self }, Next::Read)
        } else {
            self.end()
        }
    }
}

/// A stream on the descriptor `T` that speaks the protocol `P`.
#[verifier::reject_recursive_types(C)]
pub struct Stream<T, P, C> {
    sock: T,
    inbuf: Buf,
    outbuf: Buf,
    writable: bool,
    readable: bool,
    protocol: Option<P>,
    events: EventSet,
    phase: Phase,
    phantom: PhantomData<C>,
}

impl<T, P, C> View for Stream<T, P, C> {
    type V = StreamState;

    closed spec fn view(&self) -> StreamState {
        StreamState {
            phase: self.phase,
            events: self.events,
            writable: self.writable,
            readable: self.readable,
            alive: self.protocol is Some,
            pending: buf_bytes(self.outbuf).len(),
        }
    }
}

impl<T, P: Protocol<T, C>, C: Config> Stream<T, P, C> {
    /// The descriptor.
    pub closed spec fn socket(self) -> T {
        self.sock
    }

    /// The protocol, while the stream has not ended.
    pub closed spec fn protocol(self) -> Option<P> {
        self.protocol
    }

    /// The input buffer.
    pub closed spec fn input(self) -> Buf {
        self.inbuf
    }

    /// The output buffer.
    pub closed spec fn output(self) -> Buf {
        self.outbuf
    }

    /// The stream is alive as long as it has its protocol.
    pub proof fn lemma_alive(self)
        ensures
            self@.alive == (self.protocol() is Some),
    {
    }

    /// Whether two streams have the same descriptor and the same buffers.
    pub open spec fn same_io(self, other: Self) -> bool {
        &&& self.socket() == other.socket()
        &&& self.input() == other.input()
        &&& self.output() == other.output()
    }

    /// The same stream around another descriptor and other buffers.
    pub closed spec fn with_io(self, sock: T, inbuf: Buf, outbuf: Buf) -> Self {
        Stream { sock, inbuf, outbuf, ..self }
    }

    /// The stream for a connection that was just accepted, if the protocol
    /// takes it: between events, with empty buffers, and taken to be writable
    /// at once.
    pub fn accept(conn: T, context: &mut C::Context) -> (stream: Option<Self>)
        ensures
            exists|sock: &mut T, c: &mut C::Context, protocol: Option<P>|
                {
                    &&& #[trigger] call_ensures(P::accepted, (sock, c), protocol)
                    &&& *sock == conn
                    &&& *c == *old(context)
                    &&& *final(c) == *final(context)
                    &&& match stream {
                        Some(s) => {
                            &&& protocol is Some
                            &&& s.protocol() == protocol
                            &&& s.socket() == *final(sock)
                            &&& buf_bytes(s.input()).len() == 0
                            &&& s@ == (StreamState {
                                phase: Phase::Idle,
                                events: s@.events,
                                writable: true,
                                readable: false,
                                alive: true,
                                pending: 0,
                            })
                        },
                        None => protocol is None,
                    }
                },
    {
        let mut conn = conn;
        let accepted = P::accepted;
        match accepted(&mut conn, context) {
            Some(protocol) => Some(
                Stream {
                    sock: conn,
                    inbuf: Buf::new(),
                    outbuf: Buf::new(),
                    readable: false,
                    writable: true,
                    protocol: Some(protocol),
                    events: EventSet::none(),
                    phase: Phase::Idle,
                    phantom: PhantomData,
                },
            ),
            None => None,
        }
    }

    /// How the descriptor is registered: for reading and writing,
    /// edge-triggered, under the slot of the current machine.
    pub fn register<M>(&self, scope: &Scope<C, M>) -> (registration: Registration)
        ensures
            registration.token == scope.current().index(),
            registration.interest.has_readable(),
            registration.interest.has_writable(),
            registration.opt == PollOpt::Edge,
    {
        scope.register(EventSet::all(), PollOpt::edge())
    }

    /// The descriptor and the two buffers, input first, for the operation
    /// that the stream has asked for. Nothing else of the stream changes.
    pub fn io_parts(&mut self) -> (parts: (&mut T, &mut Buf, &mut Buf))
        ensures
            *parts.0 == old(self).socket(),
            *parts.1 == old(self).input(),
            *parts.2 == old(self).output(),
            *final(self) == old(self).with_io(*final(parts.0), *final(parts.1), *final(parts.2)),
    {
        (&mut self.sock, &mut self.inbuf, &mut self.outbuf)
    }

    fn rest(&mut self) -> (next: Next)
        ensures
            (final(self)@, next) == old(self)@.rest(),
            final(self).same_io(*old(self)),
            final(self).protocol() == old(self).protocol(),
    {
        self.phase = Phase::Idle;
        Next::Finished(true)
    }

    fn flush_last(&mut self) -> (next: Next)
        ensures
            (final(self)@, next) == old(self)@.flush_last(),
            final(self).same_io(*old(self)),
            final(self).protocol() == old(self).protocol(),
    {
        if self.writable && self.outbuf.len() > 0 {
            self.phase = Phase::FlushLast;
            Next::Write
        } else {
            self.rest()
        }
    }

    fn receive(&mut self) -> (next: Next)
        ensures
            (final(self)@, next) == old(self)@.receive(),
            final(self).same_io(*old(self)),
            final(self).protocol() == old(self).protocol(),
    {
        if self.events.is_readable() {
            self.readable = true;
            self.phase = Phase::Receive;
            Next::Read
        } else {
            self.flush_last()
        }
    }

    fn flushed(&mut self) -> (next: Next)
        ensures
            (final(self)@, next) == old(self)@.flushed(),
            final(self).same_io(*old(self)),
            final(self).protocol() == old(self).protocol(),
    {
        match self.phase {
            Phase::FlushFirst => self.receive(),
            _ => self.rest(),
        }
    }

    /// A readiness event has come for the descriptor.
    pub fn ready(&mut self, evset: EventSet) -> (next: Next)
        ensures
            (final(self)@, next) == old(self)@.begin(evset),
            final(self).same_io(*old(self)),
            final(self).protocol() == old(self).protocol(),
    {
        if self.protocol.is_none() {
            return Next::Finished(false);
        }
        self.events = evset;
        if evset.is_writable() && self.outbuf.len() > 0 {
            self.writable = true;
            self.phase = Phase::FlushFirst;
            Next::Write
        } else {
            self.receive()
        }
    }

    /// The write that the stream asked for has ended with `outcome`.
    ///
    /// Where it wrote no bytes the protocol is told of the end of the stream,
    /// and where it failed, of the error; either way the stream ends. Nothing
    /// else reaches the protocol.
    pub fn written(&mut self, outcome: IoOutcome<usize>, ctx: &mut C::Context) -> (next: Next)
        ensures
            (final(self)@, next) == old(self)@.written(outcome),
            final(self).same_io(*old(self)),
            match outcome {
                IoOutcome::Done(n) if n == 0 => match old(self).protocol() {
                    Some(protocol) => exists|c: &mut C::Context|
                        {
                            &&& #[trigger] call_ensures(P::eof_received, (protocol, c), ())
                            &&& *c == *old(ctx)
                            &&& *final(c) == *final(ctx)
                        },
                    None => *final(ctx) == *old(ctx),
                },
                IoOutcome::Failed(e) => match old(self).protocol() {
                    Some(protocol) => exists|c: &mut C::Context|
                        {
                            &&& #[trigger] call_ensures(P::error_happened, (protocol, e, c), ())
                            &&& *c == *old(ctx)
                            &&& *final(c) == *final(ctx)
                        },
                    None => *final(ctx) == *old(ctx),
                },
                _ => final(self).protocol() == old(self).protocol() && *final(ctx) == *old(ctx),
            },
    {
        match outcome {
            IoOutcome::Done(0) => {
                self.eof(ctx)
            },
            IoOutcome::Failed(e) => {
                self.fail(e, ctx)
            },
            IoOutcome::WouldBlock => {
                self.writable = false;
                self.flushed()
            },
            _ => {
                if self.outbuf.len() > 0 {
                    Next::Write
                } else {
                    self.flushed()
                }
            },
        }
    }

    /// The read that the stream asked for has ended with `outcome`.
    ///
    /// Where data has arrived the protocol deals with it, over the two
    /// buffers, and the draining goes on, so that one event serves all that
    /// the descriptor holds: the stream asks for `Read` again unless the
    /// protocol has ended it. A read of no bytes and a failure are told to
    /// the protocol as `written` tells them. Any other outcome is dealt with
    /// as `StreamState::received_nothing` says.
    pub fn received(&mut self, outcome: IoOutcome<usize>, ctx: &mut C::Context) -> (next: Next)
        ensures
            final(self).socket() == old(self).socket(),
            match outcome {
                IoOutcome::Done(n) if n > 0 => match old(self).protocol() {
                    Some(protocol) => exists|t: &mut Transport, c: &mut C::Context, kept: Option<P>|
                        {
                            &&& #[trigger] call_ensures(P::data_received, (protocol, t, c), kept)
                            &&& *t.input == old(self).input()
                            &&& *t.output == old(self).output()
                            &&& *c == *old(ctx)
                            &&& *final(c) == *final(ctx)
                            &&& final(self).input() == *final(t.input)
                            &&& final(self).output() == *final(t.output)
                            &&& final(self).protocol() == kept
                            &&& (final(self)@, next) == old(self)@.with_pending(
                                final(self)@.pending,
                            ).resumed(kept is Some)
                        },
                    None => {
                        &&& (final(self)@, next) == old(self)@.end()
                        &&& final(self).same_io(*old(self))
                        &&& *final(ctx) == *old(ctx)
                    },
                },
                _ => {
                    &&& (final(self)@, next) == old(self)@.received_nothing(outcome)
                    &&& final(self).same_io(*old(self))
                },
            },
            match outcome {
                IoOutcome::Done(n) if n == 0 => match old(self).protocol() {
                    Some(protocol) => exists|c: &mut C::Context|
                        {
                            &&& #[trigger] call_ensures(P::eof_received, (protocol, c), ())
                            &&& *c == *old(ctx)
                            &&& *final(c) == *final(ctx)
                        },
                    None => *final(ctx) == *old(ctx),
                },
                IoOutcome::Failed(e) => match old(self).protocol() {
                    Some(protocol) => exists|c: &mut C::Context|
                        {
                            &&& #[trigger] call_ensures(P::error_happened, (protocol, e, c), ())
                            &&& *c == *old(ctx)
                            &&& *final(c) == *final(ctx)
                        },
                    None => *final(ctx) == *old(ctx),
                },
                IoOutcome::Done(_) => true,
                _ => final(self).protocol() == old(self).protocol() && *final(ctx) == *old(ctx),
            },
    {
        match outcome {
            IoOutcome::Done(0) => self.eof(ctx),
            IoOutcome::Done(_) => {
                match self.protocol.take() {
                    Some(protocol) => {
                        let mut transport = Transport {
                            input: &mut self.inbuf,
                            output: &mut self.outbuf,
                        };
                        let deal = P::data_received;
                        let kept = deal(protocol, &mut transport, ctx);
                        self.resume(kept)
                    },
                    None => self.resume(None),
                }
            },
            IoOutcome::WouldBlock => {
                self.readable = false;
                self.flush_last()
            },
            IoOutcome::Interrupted => Next::Read,
            IoOutcome::Failed(e) => self.fail(e, ctx),
        }
    }

    /// The protocol has dealt with a chunk of data and returned `protocol`:
    /// with `Some` the draining goes on, with `None` the stream ends.
    pub fn resume(&mut self, protocol: Option<P>) -> (next: Next)
        ensures
            (final(self)@, next) == old(self)@.resumed(protocol is Some),
            final(self).protocol() == protocol,
            final(self).same_io(*old(self)),
    {
        match protocol {
            Some(protocol) => {
                self.protocol = Some(protocol);
                Next::Read
            },
            None => {
                self.protocol = None;
                self.phase = Phase::Idle;
                Next::Finished(false)
            },
        }
    }

    fn eof(&mut self, ctx: &mut C::Context) -> (next: Next)
        ensures
            (final(self)@, next) == old(self)@.end(),
            final(self).same_io(*old(self)),
            match old(self).protocol() {
                Some(protocol) => exists|c: &mut C::Context|
                    {
                        &&& #[trigger] call_ensures(P::eof_received, (protocol, c), ())
                        &&& *c == *old(ctx)
                        &&& *final(c) == *final(ctx)
                    },
                None => *final(ctx) == *old(ctx),
            },
    {
        match self.protocol.take() {
            Some(protocol) => {
                let tell = P::eof_received;
                tell(protocol, ctx);
            },
            None => {},
        }
        self.phase = Phase::Idle;
        Next::Finished(false)
    }

    fn fail(&mut self, e: std::io::Error, ctx: &mut C::Context) -> (next: Next)
        ensures
            (final(self)@, next) == old(self)@.end(),
            final(self).same_io(*old(self)),
            match old(self).protocol() {
                Some(protocol) => exists|c: &mut C::Context|
                    {
                        &&& #[trigger] call_ensures(P::error_happened, (protocol, e, c), ())
                        &&& *c == *old(ctx)
                        &&& *final(c) == *final(ctx)
                    },
                None => *final(ctx) == *old(ctx),
            },
    {
        match self.protocol.take() {
            Some(protocol) => {
                let tell = P::error_happened;
                tell(protocol, e, ctx);
            },
            None => {},
        }
        self.phase = Phase::Idle;
        Next::Finished(false)
    }
}

} // verus!
