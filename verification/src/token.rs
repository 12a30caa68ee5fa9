//! Addresses of machines: a slot index and the generation the slot was
//! stamped with when the machine was inserted.

use vstd::prelude::*;

verus! {

/// The address of a machine: the index of its slot and, where known, the
/// generation of the slot.
///
/// A token without a generation addresses whatever machine occupies the slot.
/// A token with a generation addresses that one insertion only: once the slot
/// is freed the token is stale, also after the index has been reused.
#[derive(Clone, Copy, Debug, PartialEq, Eq, Structural)]
pub struct Token {
    mio_token: usize,
    counter: Option<u64>,
}

impl Token {
    /// The slot index that the token addresses.
    pub closed spec fn index(self) -> usize {
        self.mio_token
    }

    /// The generation that the token carries, if any.
    pub closed spec fn generation(self) -> Option<u64> {
        self.counter
    }

    /// The token of the bare index `i`, without a generation.
    pub closed spec fn bare(i: usize) -> Token {
        Token { mio_token: i, counter: None }
    }

    /// The token of index `i` with generation `g`.
    pub closed spec fn stamped(i: usize, g: u64) -> Token {
        Token { mio_token: i, counter: Some(g) }
    }

    /// What `bare` and `stamped` hold.
    pub proof fn lemma_parts(i: usize, g: u64)
        ensures
            Token::stamped(i, g).index() == i,
            Token::stamped(i, g).generation() == Some(g),
            Token::bare(i).index() == i,
            Token::bare(i).generation() == None::<u64>,
    {
    }

    /// Whether the token accepts a slot stamped with `generation`.
    pub open spec fn accepts(self, generation: u64) -> bool {
        match self.generation() {
            Some(counter) => counter == generation,
            None => true,
        }
    }

    /// The token of slot `mio_token` as stamped with `counter`.
    pub fn new(mio_token: usize, counter: u64) -> (token: Token)
        ensures
            token == Token::stamped(mio_token, counter),
            token.index() == mio_token,
            token.generation() == Some(counter),
    {
        Token { mio_token, counter: Some(counter) }
    }

    /// The token of a bare index, as the poller hands it back: it carries no
    /// generation and accepts any.
    pub fn from_mio(mio_token: usize) -> (token: Token)
        ensures
            token == Token::bare(mio_token),
            token.index() == mio_token,
            token.generation() == None::<u64>,
    {
        Token { mio_token, counter: None }
    }

    /// Same as `from_mio`: the token of a bare slot index.
    pub fn from_usize(i: usize) -> (token: Token)
        ensures
            token == Token::bare(i),
            token.index() == i,
            token.generation() == None::<u64>,
    {
        Token::from_mio(i)
    }

    /// The slot index, to register with the poller.
    pub fn as_usize(&self) -> (i: usize)
        ensures
            i == self.index(),
    {
        self.mio_token
    }

    /// The generation carried, if any.
    pub fn counter(&self) -> (counter: Option<u64>)
        ensures
            counter == self.generation(),
    {
        self.counter
    }

    /// The same index, stamped with `counter`.
    pub fn set_counter(self, counter: u64) -> (token: Token)
        ensures
            token == Token::stamped(self.index(), counter),
            token.index() == self.index(),
            token.generation() == Some(counter),
    {
        Token { mio_token: self.mio_token, counter: Some(counter) }
    }

    /// Whether the token accepts a slot stamped with `other_counter`: a token
    /// without a generation accepts every slot, one with a generation only
    /// the slot of that generation.
    pub fn counter_eq(&self, other_counter: u64) -> (eq: bool)
        ensures
            eq == self.accepts(other_counter),
    {
        match self.counter {
            Some(counter) => counter == other_counter,
            None => true,
        }
    }
}

} // verus!
