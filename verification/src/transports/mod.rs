//! Transports built on the machine contract: an accept loop, a buffered
//! stream and a datagram socket.
//!
//! None of them touches a descriptor. Each says which operation is due next,
//! and is told how the operation ended.

use vstd::prelude::*;

pub mod accept;
pub mod greedy_stream;
pub mod udp;

verus! {

/// A growable byte buffer.
#[verifier::external_type_specification]
#[verifier::external_body]
pub struct ExBuf(netbuf::Buf);

/// What a buffer holds: its useful bytes, oldest first.
pub uninterp spec fn buf_bytes(buf: netbuf::Buf) -> Seq<u8>;

/// `netbuf::Buf::new` makes a buffer without bytes.
pub assume_specification[ netbuf::Buf::new ]() -> (buf: netbuf::Buf)
    ensures
        buf_bytes(buf).len() == 0,
;

/// `netbuf::Buf::len` is the number of useful bytes in the buffer.
pub assume_specification[ netbuf::Buf::len ](buf: &netbuf::Buf) -> (len: usize)
    ensures
        len == buf_bytes(*buf).len(),
;

/// How a non-blocking operation ended.
pub enum IoOutcome<T> {
    /// It was carried out, with this result.
    Done(T),
    /// It would have blocked: nothing more can be done until the next
    /// readiness event.
    WouldBlock,
    /// It was interrupted before anything happened.
    Interrupted,
    /// It failed for good.
    Failed(std::io::Error),
}

/// What an I/O error means to a transport.
#[derive(PartialEq, Eq, Clone, Copy, Debug, Structural)]
pub enum Failure {
    /// The operation would have blocked.
    WouldBlock,
    /// The operation was interrupted before anything happened.
    Interrupted,
    /// Anything else: the descriptor has failed for good.
    Fatal,
}

/// What an error means, by its kind.
pub uninterp spec fn failure_of(e: std::io::Error) -> Failure;

/// `std::io::Error::kind`, told apart three ways: would block, interrupted,
/// anything else.
#[verifier::external_body]
fn failure(e: &std::io::Error) -> (failure: Failure)
    ensures
        failure == failure_of(*e),
{
    match e.kind() {
        std::io::ErrorKind::WouldBlock => Failure::WouldBlock,
        std::io::ErrorKind::Interrupted => Failure::Interrupted,
        _ => Failure::Fatal,
    }
}

/// The outcome of an operation that has ended with the error `e`. A fatal
/// error is kept with the outcome.
pub open spec fn failed<T>(e: std::io::Error) -> IoOutcome<T> {
    match failure_of(e) {
        Failure::WouldBlock => IoOutcome::WouldBlock,
        Failure::Interrupted => IoOutcome::Interrupted,
        Failure::Fatal => IoOutcome::Failed(e),
    }
}

/// The outcome of an operation on a stream that has returned `result`.
pub open spec fn stream_outcome_of(result: Result<usize, std::io::Error>) -> IoOutcome<usize> {
    match result {
        Ok(n) => IoOutcome::Done(n),
        Err(e) => failed(e),
    }
}

/// The outcome of an operation that reports a blocked descriptor as `None`
/// and has returned `result`.
pub open spec fn try_outcome_of<T>(result: Result<Option<T>, std::io::Error>) -> IoOutcome<T> {
    match result {
        Ok(Some(value)) => IoOutcome::Done(value),
        Ok(None) => IoOutcome::WouldBlock,
        Err(e) => failed(e),
    }
}

/// The outcome of an operation that has ended with the error `e`.
fn fail<T>(e: std::io::Error) -> (outcome: IoOutcome<T>)
    ensures
        outcome == failed::<T>(e),
{
    match failure(&e) {
        Failure::WouldBlock => IoOutcome::WouldBlock,
        Failure::Interrupted => IoOutcome::Interrupted,
        Failure::Fatal => IoOutcome::Failed(e),
    }
}

/// The outcome of an operation on a stream, from what `read` or `write`
/// returned: done with the number of bytes, or failed as the kind of the
/// error says.
pub fn stream_outcome(result: Result<usize, std::io::Error>) -> (outcome: IoOutcome<usize>)
    ensures
        outcome == stream_outcome_of(result),
{
    match result {
        Ok(n) => IoOutcome::Done(n),
        Err(e) => fail(e),
    }
}

/// The outcome of an operation that reports a blocked descriptor as `None`,
/// as the poller's sockets do.
pub fn try_outcome<T>(result: Result<Option<T>, std::io::Error>) -> (outcome: IoOutcome<T>)
    ensures
        outcome == try_outcome_of(result),
{
    match result {
        Ok(Some(value)) => IoOutcome::Done(value),
        Ok(None) => IoOutcome::WouldBlock,
        Err(e) => fail(e),
    }
}

} // verus!
