use netbuf::Buf;
use rotor::handler::{Config, EventSet};
use rotor::transports::udp::{Next, Packet, Protocol, Socket, Transport, UDP_MAX_SIZE};
use rotor::transports::{try_outcome, IoOutcome};
use std::io::{Error, ErrorKind};

struct Cfg;

#[derive(Default)]
struct Ctx {
    packets: Vec<(u16, Vec<u8>)>,
    errors: Vec<String>,
}

impl Config for Cfg {
    type Context = Ctx;
    type Message = ();
    type Timeout = ();
    type Loop = ();
}

struct Relay {
    limit: usize,
    answers: Vec<(u16, &'static [u8])>,
}

impl Protocol<u16, Cfg> for Relay {
    fn packet_received(mut self, packet: Packet<u16>, transport: &mut Transport<u16>, ctx: &mut Ctx) -> Option<Relay> {
        ctx.packets.push((packet.source, packet.data.to_vec()));
        for (target, bytes) in self.answers.drain(..) {
            let mut buf = Buf::new();
            buf.extend(bytes);
            transport.send(target, buf);
        }
        if ctx.packets.len() >= self.limit {
            None
        } else {
            Some(self)
        }
    }

    fn error_happened(self, err: Error, ctx: &mut Ctx) {
        ctx.errors.push(err.to_string());
    }
}

enum Wire {
    Datagram(u16, &'static [u8]),
    Takes,
    Part(usize),
    Blocks,
    Fails(ErrorKind),
}

#[derive(Default)]
struct Net {
    incoming: Vec<Wire>,
    outgoing: Vec<Wire>,
    sent: Vec<(u16, Vec<u8>)>,
    attempts: Vec<(u16, Vec<u8>)>,
}

fn recv(net: &mut Net, scratch: &mut [u8]) -> Result<Option<(usize, u16)>, Error> {
    if net.incoming.is_empty() {
        return Ok(None);
    }
    match net.incoming.remove(0) {
        Wire::Datagram(source, bytes) => {
            scratch[..bytes.len()].copy_from_slice(bytes);
            Ok(Some((bytes.len(), source)))
        }
        Wire::Fails(kind) => Err(Error::new(kind, "recv failed")),
        _ => Ok(None),
    }
}

fn send(net: &mut Net, target: u16, bytes: &[u8]) -> Result<Option<usize>, Error> {
    net.attempts.push((target, bytes.to_vec()));
    if net.outgoing.is_empty() {
        net.sent.push((target, bytes.to_vec()));
        return Ok(Some(bytes.len()));
    }
    match net.outgoing.remove(0) {
        Wire::Blocks => Ok(None),
        Wire::Part(n) => Ok(Some(n)),
        Wire::Fails(kind) => Err(Error::new(kind, "send failed")),
        _ => {
            net.sent.push((target, bytes.to_vec()));
            Ok(Some(bytes.len()))
        }
    }
}

fn run(socket: &mut Socket<(), u16, Relay, Cfg>, net: &mut Net, events: EventSet, ctx: &mut Ctx) -> (bool, Vec<Next>) {
    let mut asked = Vec::new();
    let mut next = socket.ready(events);
    loop {
        asked.push(next);
        match next {
            Next::Recv => {
                let result = {
                    let (_sock, scratch) = socket.recv_parts();
                    assert_eq!(scratch.len(), UDP_MAX_SIZE);
                    recv(net, scratch)
                };
                next = socket.received(try_outcome(result), ctx);
            }
            Next::Send => {
                let result = {
                    let (target, buf) = socket.front().unwrap();
                    send(net, *target, &buf[..])
                };
                next = socket.sent(try_outcome(result), ctx);
            }
            Next::Finished(keep) => return (keep, asked),
        }
    }
}

fn relay(answers: Vec<(u16, &'static [u8])>) -> Socket<(), u16, Relay, Cfg> {
    Socket::new((), Relay { limit: usize::MAX, answers })
}

#[test]
fn blocked_datagram_is_tried_first_at_the_next_writable_event() {
    let mut ctx = Ctx::default();
    let mut net = Net::default();
    let mut socket = relay(vec![(9, b"first"), (9, b"second")]);
    net.incoming.push(Wire::Datagram(1, b"go"));
    net.outgoing.push(Wire::Blocks);

    let (keep, asked) = run(&mut socket, &mut net, EventSet::all(), &mut ctx);
    assert!(keep);
    assert_eq!(asked, vec![Next::Recv, Next::Recv, Next::Send, Next::Finished(true)]);
    assert_eq!(net.attempts, vec![(9, b"first".to_vec())]);
    assert!(net.sent.is_empty());
    assert_eq!(socket.front().map(|d| d.1[..].to_vec()), Some(b"first".to_vec()));

    let (keep, asked) = run(&mut socket, &mut net, EventSet::writable(), &mut ctx);
    assert!(keep);
    assert_eq!(asked, vec![Next::Send, Next::Send, Next::Finished(true)]);
    assert_eq!(
        net.attempts,
        vec![(9, b"first".to_vec()), (9, b"first".to_vec()), (9, b"second".to_vec())]
    );
    assert_eq!(net.sent, vec![(9, b"first".to_vec()), (9, b"second".to_vec())]);
    assert!(socket.front().is_none());
}

#[test]
fn datagrams_leave_in_the_order_in_which_they_were_sent() {
    let mut ctx = Ctx::default();
    let mut net = Net::default();
    let mut socket = relay(vec![(1, b"a"), (2, b"b"), (1, b"c"), (3, b"d")]);
    net.incoming.push(Wire::Datagram(7, b"go"));
    let (keep, _asked) = run(&mut socket, &mut net, EventSet::all(), &mut ctx);
    assert!(keep);
    assert_eq!(
        net.sent,
        vec![(1, b"a".to_vec()), (2, b"b".to_vec()), (1, b"c".to_vec()), (3, b"d".to_vec())]
    );
}

#[test]
fn one_readable_event_receives_every_datagram() {
    let mut ctx = Ctx::default();
    let mut net = Net::default();
    let mut socket = relay(vec![]);
    net.incoming.push(Wire::Datagram(1, b"one"));
    net.incoming.push(Wire::Datagram(2, b"two"));
    net.incoming.push(Wire::Datagram(1, b""));
    let (keep, asked) = run(&mut socket, &mut net, EventSet::readable(), &mut ctx);
    assert!(keep);
    assert_eq!(asked, vec![Next::Recv, Next::Recv, Next::Recv, Next::Recv, Next::Finished(true)]);
    assert_eq!(ctx.packets, vec![(1, b"one".to_vec()), (2, b"two".to_vec()), (1, Vec::new())]);
}

#[test]
fn queued_datagrams_wait_for_a_writable_event() {
    let mut ctx = Ctx::default();
    let mut net = Net::default();
    let mut socket = relay(vec![(9, b"later")]);
    net.incoming.push(Wire::Datagram(1, b"go"));
    let (keep, asked) = run(&mut socket, &mut net, EventSet::readable(), &mut ctx);
    assert!(keep);
    assert_eq!(asked, vec![Next::Recv, Next::Recv, Next::Finished(true)]);
    assert!(net.attempts.is_empty());
    assert!(socket.front().is_some());

    let (keep, asked) = run(&mut socket, &mut net, EventSet::writable(), &mut ctx);
    assert!(keep);
    assert_eq!(asked, vec![Next::Send, Next::Finished(true)]);
    assert_eq!(net.sent, vec![(9, b"later".to_vec())]);
}

#[test]
fn interrupted_send_is_made_again_at_once() {
    let mut ctx = Ctx::default();
    let mut net = Net::default();
    let mut socket = relay(vec![(9, b"first"), (9, b"second")]);
    net.incoming.push(Wire::Datagram(1, b"go"));
    net.outgoing.push(Wire::Fails(ErrorKind::Interrupted));
    let (keep, asked) = run(&mut socket, &mut net, EventSet::all(), &mut ctx);
    assert!(keep);
    assert_eq!(
        asked,
        vec![Next::Recv, Next::Recv, Next::Send, Next::Send, Next::Send, Next::Finished(true)]
    );
    assert_eq!(net.sent, vec![(9, b"first".to_vec()), (9, b"second".to_vec())]);
    assert_eq!(net.attempts.len(), 3);
}

#[test]
fn interrupted_receive_is_made_again() {
    let mut ctx = Ctx::default();
    let mut net = Net::default();
    let mut socket = relay(vec![]);
    net.incoming.push(Wire::Fails(ErrorKind::Interrupted));
    net.incoming.push(Wire::Datagram(4, b"late"));
    let (keep, _asked) = run(&mut socket, &mut net, EventSet::readable(), &mut ctx);
    assert!(keep);
    assert_eq!(ctx.packets, vec![(4, b"late".to_vec())]);
}

#[test]
fn failed_send_is_reported_and_ends_the_socket() {
    let mut ctx = Ctx::default();
    let mut net = Net::default();
    let mut socket = relay(vec![(9, b"first")]);
    net.incoming.push(Wire::Datagram(1, b"go"));
    net.outgoing.push(Wire::Fails(ErrorKind::PermissionDenied));
    let (keep, asked) = run(&mut socket, &mut net, EventSet::all(), &mut ctx);
    assert!(!keep);
    assert_eq!(asked, vec![Next::Recv, Next::Recv, Next::Send, Next::Finished(false)]);
    assert_eq!(ctx.errors, vec!["send failed".to_string()]);
    assert!(socket.front().is_some());
    assert_eq!(socket.ready(EventSet::all()), Next::Finished(false));
}

#[test]
fn failed_receive_is_reported_and_ends_the_socket() {
    let mut ctx = Ctx::default();
    let mut net = Net::default();
    let mut socket = relay(vec![]);
    net.incoming.push(Wire::Fails(ErrorKind::ConnectionRefused));
    let (keep, asked) = run(&mut socket, &mut net, EventSet::all(), &mut ctx);
    assert!(!keep);
    assert_eq!(asked, vec![Next::Recv, Next::Finished(false)]);
    assert_eq!(ctx.errors, vec!["recv failed".to_string()]);
}

#[test]
fn protocol_that_returns_nothing_ends_the_socket() {
    let mut ctx = Ctx::default();
    let mut net = Net::default();
    let mut socket: Socket<(), u16, Relay, Cfg> = Socket::new((), Relay { limit: 1, answers: vec![] });
    net.incoming.push(Wire::Datagram(1, b"one"));
    net.incoming.push(Wire::Datagram(2, b"two"));
    let (keep, asked) = run(&mut socket, &mut net, EventSet::readable(), &mut ctx);
    assert!(!keep);
    assert_eq!(asked, vec![Next::Recv, Next::Finished(false)]);
    assert_eq!(ctx.packets, vec![(1, b"one".to_vec())]);
    assert!(ctx.errors.is_empty());
}

#[test]
fn datagram_of_full_size_fits_the_scratch_buffer() {
    let mut ctx = Ctx::default();
    let mut socket = relay(vec![]);
    assert_eq!(UDP_MAX_SIZE, 64 * 1024);
    assert_eq!(socket.ready(EventSet::readable()), Next::Recv);
    {
        let (_sock, scratch) = socket.recv_parts();
        assert_eq!(scratch.len(), UDP_MAX_SIZE);
        scratch[UDP_MAX_SIZE - 1] = 7;
    }
    let next = socket.received(IoOutcome::Done((UDP_MAX_SIZE, 5)), &mut ctx);
    assert_eq!(next, Next::Recv);
    assert_eq!(ctx.packets.len(), 1);
    assert_eq!(ctx.packets[0].0, 5);
    assert_eq!(ctx.packets[0].1.len(), UDP_MAX_SIZE);
    assert_eq!(ctx.packets[0].1[UDP_MAX_SIZE - 1], 7);
}

#[test]
fn idle_socket_has_nothing_to_do() {
    let mut ctx = Ctx::default();
    let mut net = Net::default();
    let mut socket = relay(vec![]);
    let (keep, asked) = run(&mut socket, &mut net, EventSet::writable(), &mut ctx);
    assert!(keep);
    assert_eq!(asked, vec![Next::Finished(true)]);
    let (keep, asked) = run(&mut socket, &mut net, EventSet::none(), &mut ctx);
    assert!(keep);
    assert_eq!(asked, vec![Next::Finished(true)]);
}

#[test]
fn datagram_sent_in_part_is_tried_again_before_the_next() {
    let mut ctx = Ctx::default();
    let mut net = Net::default();
    let mut socket = relay(vec![(9, b"first"), (9, b"second")]);
    net.incoming.push(Wire::Datagram(1, b"go"));
    net.outgoing.push(Wire::Part(2));

    let (keep, asked) = run(&mut socket, &mut net, EventSet::all(), &mut ctx);
    assert!(keep);
    assert_eq!(asked, vec![Next::Recv, Next::Recv, Next::Send, Next::Finished(true)]);
    assert_eq!(net.attempts, vec![(9, b"first".to_vec())]);
    assert_eq!(socket.front().map(|d| d.1[..].to_vec()), Some(b"first".to_vec()));

    let (keep, asked) = run(&mut socket, &mut net, EventSet::writable(), &mut ctx);
    assert!(keep);
    assert_eq!(asked, vec![Next::Send, Next::Send, Next::Finished(true)]);
    assert_eq!(
        net.attempts,
        vec![(9, b"first".to_vec()), (9, b"first".to_vec()), (9, b"second".to_vec())]
    );
    assert_eq!(net.sent, vec![(9, b"first".to_vec()), (9, b"second".to_vec())]);
    assert!(socket.front().is_none());
}

#[test]
fn datagram_without_bytes_leaves_when_it_is_sent() {
    let mut ctx = Ctx::default();
    let mut net = Net::default();
    let mut socket = relay(vec![(9, b""), (9, b"second")]);
    net.incoming.push(Wire::Datagram(1, b"go"));
    let (keep, asked) = run(&mut socket, &mut net, EventSet::all(), &mut ctx);
    assert!(keep);
    assert_eq!(
        asked,
        vec![Next::Recv, Next::Recv, Next::Send, Next::Send, Next::Finished(true)]
    );
    assert_eq!(net.sent, vec![(9, Vec::new()), (9, b"second".to_vec())]);
}

#[test]
fn send_that_takes_the_whole_datagram_lets_it_leave() {
    let mut ctx = Ctx::default();
    let mut net = Net::default();
    let mut socket = relay(vec![(9, b"first")]);
    net.incoming.push(Wire::Datagram(1, b"go"));
    net.outgoing.push(Wire::Part(5));
    let (keep, asked) = run(&mut socket, &mut net, EventSet::all(), &mut ctx);
    assert!(keep);
    assert_eq!(asked, vec![Next::Recv, Next::Recv, Next::Send, Next::Finished(true)]);
    assert!(socket.front().is_none());
}
