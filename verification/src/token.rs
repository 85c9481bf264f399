//! Tokens, which tell connections apart, and readiness.

use vstd::prelude::*;

verus! {

/// Identifies one source of readiness events.
#[derive(Clone, Copy, Debug, PartialEq, Eq, Hash, Structural)]
pub struct Token(pub usize);

/// The number of the listening socket's token.  Clients have the tokens above it.
pub const SERVER: usize = 0;

impl Token {
    /// The token of the listening socket.
    pub open spec fn is_server(self) -> bool {
        self.0 == SERVER
    }
}

/// Hands out `current` and advances it, so that no two calls on the same
/// counter return the same token.
///
/// The counter must not be exhausted.
pub fn next(current: &mut Token) -> (token: Token)
    requires
        old(current).0 < usize::MAX,
    ensures
        token == *old(current),
        final(current).0 == old(current).0 + 1,
{
    let next: usize = current.0;
    current.0 = current.0 + 1;
    Token(next)
}

/// The kinds of readiness that a connection is registered for.
#[derive(Clone, Copy, Debug, PartialEq, Eq, Structural)]
pub enum Interest {
    Readable,
    ReadableAndWritable,
}

/// Readiness reported by a poll.
#[derive(Clone, Copy, Debug, PartialEq, Eq, Structural)]
pub struct Event {
    pub token: Token,
    pub readable: bool,
    pub writable: bool,
}

/// The part of an input or output error that decides what is done about it.
#[derive(Clone, Copy, Debug, PartialEq, Eq, Structural)]
pub enum ErrorClass {
    /// The operation would have had to wait.
    WouldBlock,
    /// The operation was interrupted before it did anything.
    Interrupted,
    /// Any other error.
    Other,
}

} // verus!
