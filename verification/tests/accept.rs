#![allow(deprecated)]

use mio::deprecated::{EventLoop, EventLoopBuilder};
use rotor::handler::{
    Abort, Config, Dispatch, EventMachine, EventSet, Handler, Message, PollOpt, Scope,
};
use rotor::token::Token;
use rotor::transports::accept::{Accepting, Init, Serve};
use rotor::transports::{try_outcome, IoOutcome};
use std::collections::VecDeque;
use std::io::{Error, ErrorKind};

struct Cfg;

#[derive(Default)]
struct Ctx {
    accepted: Vec<u32>,
    declined: Vec<u32>,
    aborted: Vec<(u32, Abort)>,
    accepts: usize,
    spawned: Vec<Option<Token>>,
}

impl Config for Cfg {
    type Context = Ctx;
    type Message = ();
    type Timeout = ();
    type Loop = ();
}

struct Listener {
    pending: VecDeque<Result<Option<u32>, Error>>,
}

impl Listener {
    fn accept(&mut self) -> Result<Option<u32>, Error> {
        self.pending.pop_front().unwrap_or(Ok(None))
    }
}

enum Fsm {
    Server(Serve<Listener, Fsm, Cfg>, Listener),
    Direct(Serve<(), Fsm, Cfg>, Vec<Option<u32>>),
    Connection(u32),
}

impl Init<u32, Cfg> for Fsm {
    fn accept(conn: u32, ctx: &mut Ctx, _eloop: &mut (), _scope: &mut Scope<Cfg, Fsm>) -> Option<Fsm> {
        if conn % 2 == 1 {
            ctx.accepted.push(conn);
            Some(Fsm::Connection(conn))
        } else {
            ctx.declined.push(conn);
            None
        }
    }
}

impl EventMachine<Cfg> for Fsm {
    fn ready(self, events: EventSet, ctx: &mut Ctx, eloop: &mut (), scope: &mut Scope<Cfg, Fsm>) -> Option<Fsm> {
        match self {
            Fsm::Server(serve, mut listener) => {
                let mut next = serve.ready(events);
                while next == Accepting::Again {
                    ctx.accepts += 1;
                    let outcome = try_outcome(listener.accept());
                    let (then, spawned) = serve.accepted(outcome, ctx, eloop, scope);
                    if let Some(token) = spawned {
                        assert!(scope.contains(token));
                    }
                    next = then;
                }
                Some(Fsm::Server(serve, listener))
            }
            Fsm::Direct(serve, children) => {
                for child in children {
                    let spawned = serve.spawn(child.map(Fsm::Connection), ctx, eloop, scope);
                    ctx.spawned.push(spawned);
                }
                Some(Fsm::Direct(serve, Vec::new()))
            }
            Fsm::Connection(id) => Some(Fsm::Connection(id)),
        }
    }

    fn register(&mut self, _eloop: &mut (), scope: &mut Scope<Cfg, Fsm>) -> Result<(), Error> {
        if let Fsm::Server(serve, _) = self {
            let registration = serve.register(scope);
            assert_eq!(registration.token, scope.token().as_usize());
            assert!(registration.interest.is_readable());
            assert!(!registration.interest.is_writable());
            assert_eq!(registration.opt, PollOpt::Level);
        }
        Ok(())
    }

    fn abort(self, reason: Abort, ctx: &mut Ctx, _eloop: &mut (), _scope: &mut Scope<Cfg, Fsm>) {
        if let Fsm::Connection(id) = self {
            ctx.aborted.push((id, reason));
        }
    }
}

struct Pump;

impl mio::deprecated::Handler for Pump {
    type Timeout = ();
    type Message = Message<Cfg>;
}

fn driver(slots: usize, queue: usize) -> (EventLoop<Pump>, Handler<Cfg, Fsm>) {
    let mut builder = EventLoopBuilder::new();
    builder.notify_capacity(queue);
    let eloop: EventLoop<Pump> = builder.build().unwrap();
    let sender = eloop.channel();
    (eloop, Handler::with_capacity(Ctx::default(), sender, slots))
}

fn server(pending: Vec<Result<Option<u32>, Error>>) -> Fsm {
    Fsm::Server(Serve::new(Listener { pending: VecDeque::new() }), Listener { pending: pending.into() })
}

fn connections(handler: &Handler<Cfg, Fsm>, slots: usize) -> Vec<u32> {
    let mut found = Vec::new();
    for index in 0..slots {
        if let Some(Fsm::Connection(id)) = handler.get_for_dispatch(Token::from_mio(index)) {
            found.push(*id);
        }
    }
    found.sort();
    found
}

#[test]
fn one_readable_event_serves_every_pending_connection() {
    let (_eloop, mut handler) = driver(8, 16);
    let listener = handler.add_machine(server(vec![Ok(Some(1)), Ok(Some(3)), Ok(Some(5))])).ok().unwrap();
    assert_eq!(handler.ready(&mut (), listener.as_usize(), EventSet::readable()), Dispatch::Kept);
    assert_eq!(handler.context_ref().accepted, vec![1, 3, 5]);
    assert_eq!(handler.context_ref().accepts, 4);
    assert_eq!(handler.count(), 4);
    assert_eq!(connections(&handler, 8), vec![1, 3, 5]);
    assert!(handler.context_ref().aborted.is_empty());
}

#[test]
fn event_that_is_not_readable_accepts_nothing() {
    let (_eloop, mut handler) = driver(8, 16);
    let listener = handler.add_machine(server(vec![Ok(Some(1))])).ok().unwrap();
    assert_eq!(handler.ready(&mut (), listener.as_usize(), EventSet::writable()), Dispatch::Kept);
    assert_eq!(handler.context_ref().accepts, 0);
    assert_eq!(handler.count(), 1);
}

#[test]
fn declined_connection_spawns_nothing_and_the_loop_goes_on() {
    let (_eloop, mut handler) = driver(8, 16);
    let listener = handler.add_machine(server(vec![Ok(Some(2)), Ok(Some(3)), Ok(Some(4))])).ok().unwrap();
    handler.ready(&mut (), listener.as_usize(), EventSet::readable());
    assert_eq!(handler.context_ref().declined, vec![2, 4]);
    assert_eq!(handler.context_ref().accepted, vec![3]);
    assert_eq!(connections(&handler, 8), vec![3]);
    assert_eq!(handler.count(), 2);
}

#[test]
fn child_that_finds_no_slot_is_aborted() {
    let (_eloop, mut handler) = driver(3, 16);
    let listener = handler
        .add_machine(server(vec![Ok(Some(1)), Ok(Some(3)), Ok(Some(5)), Ok(Some(7))]))
        .ok()
        .unwrap();
    handler.ready(&mut (), listener.as_usize(), EventSet::readable());
    assert_eq!(connections(&handler, 3), vec![1, 3]);
    assert_eq!(
        handler.context_ref().aborted,
        vec![(5, Abort::MachineAddError), (7, Abort::MachineAddError)]
    );
    assert_eq!(handler.count(), 3);
    assert!(handler.contains(listener));
}

#[test]
fn child_that_finds_the_channel_full_is_aborted() {
    let (_eloop, mut handler) = driver(8, 2);
    let listener = handler.add_machine(server(vec![Ok(Some(1)), Ok(Some(3)), Ok(Some(5))])).ok().unwrap();
    handler.ready(&mut (), listener.as_usize(), EventSet::readable());
    assert_eq!(connections(&handler, 8), vec![1]);
    assert_eq!(
        handler.context_ref().aborted,
        vec![(3, Abort::MachineAddError), (5, Abort::MachineAddError)]
    );
    assert_eq!(handler.count(), 2);
    assert_eq!(handler.counter_next(), 2);
}

#[test]
fn failed_accept_ends_the_loop_until_the_next_event() {
    let (_eloop, mut handler) = driver(8, 16);
    let listener = handler
        .add_machine(server(vec![
            Ok(Some(1)),
            Err(Error::new(ErrorKind::Other, "too many descriptors")),
            Ok(Some(3)),
        ]))
        .ok()
        .unwrap();
    handler.ready(&mut (), listener.as_usize(), EventSet::readable());
    assert_eq!(connections(&handler, 8), vec![1]);
    assert_eq!(handler.context_ref().accepts, 2);
    handler.ready(&mut (), listener.as_usize(), EventSet::readable());
    assert_eq!(connections(&handler, 8), vec![1, 3]);
}

#[test]
fn interrupted_accept_is_made_again() {
    let (_eloop, mut handler) = driver(8, 16);
    let listener = handler
        .add_machine(server(vec![
            Err(Error::new(ErrorKind::Interrupted, "signal")),
            Ok(Some(1)),
            Err(Error::new(ErrorKind::WouldBlock, "dry")),
            Ok(Some(3)),
        ]))
        .ok()
        .unwrap();
    handler.ready(&mut (), listener.as_usize(), EventSet::readable());
    assert_eq!(connections(&handler, 8), vec![1]);
    assert_eq!(handler.context_ref().accepts, 3);
}

#[test]
fn serve_keeps_its_listener() {
    let serve: Serve<u8, Fsm, Cfg> = Serve::new(9);
    assert_eq!(*serve.socket(), 9);
    assert_eq!(serve.ready(EventSet::readable()), Accepting::Again);
    assert_eq!(serve.ready(EventSet::all()), Accepting::Again);
    assert_eq!(serve.ready(EventSet::writable()), Accepting::Done);
    assert_eq!(serve.ready(EventSet::none()), Accepting::Done);
}

#[test]
fn outcome_of_an_attempt_tells_blocked_from_done() {
    assert!(matches!(try_outcome(Ok(Some(7u32))), IoOutcome::Done(7)));
    assert!(matches!(try_outcome::<u32>(Ok(None)), IoOutcome::WouldBlock));
    assert!(matches!(
        try_outcome::<u32>(Err(Error::new(ErrorKind::WouldBlock, "dry"))),
        IoOutcome::WouldBlock
    ));
    assert!(matches!(
        try_outcome::<u32>(Err(Error::new(ErrorKind::Interrupted, "signal"))),
        IoOutcome::Interrupted
    ));
    match try_outcome::<u32>(Err(Error::new(ErrorKind::ConnectionReset, "reset"))) {
        IoOutcome::Failed(e) => {
            assert_eq!(e.kind(), ErrorKind::ConnectionReset);
            assert_eq!(e.to_string(), "reset");
        }
        _ => panic!("a reset is a failure"),
    }
}

#[test]
fn spawn_returns_the_token_of_the_child() {
    let (_eloop, mut handler) = driver(3, 16);
    let parent = handler
        .add_machine(Fsm::Direct(Serve::new(()), vec![Some(1), None, Some(3), Some(5)]))
        .ok()
        .unwrap();
    assert_eq!(handler.ready(&mut (), parent.as_usize(), EventSet::readable()), Dispatch::Kept);
    let spawned = handler.context_ref().spawned.clone();
    assert_eq!(spawned.len(), 4);
    let first = spawned[0].unwrap();
    let third = spawned[2].unwrap();
    assert_eq!(spawned[1], None);
    assert_eq!(spawned[3], None);
    assert_eq!(first.counter(), Some(1));
    assert_eq!(third.counter(), Some(2));
    assert!(matches!(handler.get_for_dispatch(first), Some(Fsm::Connection(1))));
    assert!(matches!(handler.get_for_dispatch(third), Some(Fsm::Connection(3))));
    assert_eq!(handler.context_ref().aborted, vec![(5, Abort::MachineAddError)]);
    assert_eq!(handler.count(), 3);
}
