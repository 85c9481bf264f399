//! What is done about a readiness event of one client.
//!
//! A [`ConnectionHandler`] works through one event.  It says which operation it
//! wants performed on the client's connection, is told the outcome, and goes on
//! until it reaches a verdict.
//!
//! A client speaks in messages of two bytes.  A whole message is passed on to the
//! client's peer; a message that is not complete when the connection runs dry is
//! lost.

use vstd::prelude::*;

use crate::token::{ErrorClass, Event, Interest, Token};

verus! {

/// The number of bytes in a message.
pub const MESSAGE_LEN: usize = 2;

/// What becomes of a connection after an event.
#[derive(Clone, Copy, Debug, PartialEq, Eq, Structural)]
pub enum Verdict {
    /// The connection stays.
    Keep,
    /// The client has closed the connection.
    Close,
    /// The connection failed.
    Fail,
}

impl Verdict {
    /// Whether the connection is over.
    pub open spec fn ends(self) -> bool {
        self != Verdict::Keep
    }

    /// Tells whether the connection is over.
    pub fn is_over(&self) -> (over: bool)
        ensures
            over == self.ends(),
            over == (self == Verdict::Close || self == Verdict::Fail),
    {
        match self {
            Verdict::Keep => false,
            Verdict::Close => true,
            Verdict::Fail => true,
        }
    }
}

/// The operation whose outcome a handler waits for.
#[derive(Clone, Copy, Debug, PartialEq, Eq, Structural)]
pub enum Phase {
    /// An empty write to the client.
    Probing,
    /// A registration of the client for reading alone.
    Rearming,
    /// A read from the client.
    Reading,
    /// A write of the received message to the peer.
    Forwarding,
    /// None: the verdict is reached.
    Finished(Verdict),
}

/// An operation that a handler wants performed.
#[derive(Clone, Copy, Debug, PartialEq, Eq)]
pub enum Request {
    /// Write nothing to the connection of `token`.
    Probe { token: Token },
    /// Register the connection of `token` again, for `interest`.
    Rearm { token: Token, interest: Interest },
    /// Read at most `room` bytes from the connection of `token`.
    Read { token: Token, room: usize },
    /// Write `message` to the connection of `to`.
    Forward { to: Token, message: [u8; 2] },
    /// Nothing: the event has been dealt with.
    Finish { verdict: Verdict },
}

/// The outcome of an operation, in mathematical terms.
pub enum Reply {
    Probed(Result<(), ErrorClass>),
    Rearmed(Result<(), ErrorClass>),
    /// The bytes that were read; none when the client has closed the connection.
    Received(Result<Seq<u8>, ErrorClass>),
    /// A message was handed to the peer's connection, successfully or not.
    Forwarded,
}

/// The mathematical state of a handler.
#[verifier::ext_equal]
pub struct HandlerView {
    /// The client whose event it is.
    pub token: Token,
    /// The client that a message is passed on to.
    pub peer: Option<Token>,
    /// Whether the event says that the connection can be read.
    pub readable: bool,
    pub phase: Phase,
    /// The bytes read so far.
    pub received: Seq<u8>,
}

impl HandlerView {
    /// The handler of an event as it begins.
    pub open spec fn begin(event: Event, peer: Option<Token>) -> HandlerView {
        HandlerView {
            token: event.token,
            peer,
            readable: event.readable,
            phase: if event.writable {
                Phase::Probing
            } else if event.readable {
                Phase::Reading
            } else {
                Phase::Finished(Verdict::Keep)
            },
            received: Seq::empty(),
        }
    }

    /// What every handler satisfies at every moment.
    pub open spec fn wf(self) -> bool {
        match self.phase {
            Phase::Probing => self.received.len() == 0,
            Phase::Rearming => self.received.len() == 0,
            Phase::Reading => self.readable && self.received.len() < MESSAGE_LEN,
            Phase::Forwarding => self.received.len() == MESSAGE_LEN && self.peer is Some,
            Phase::Finished(_) => self.received.len() <= MESSAGE_LEN,
        }
    }

    /// Whether `reply` is an outcome of the operation that the handler waits for.
    pub open spec fn awaits(self, reply: Reply) -> bool {
        match reply {
            Reply::Probed(_) => self.phase == Phase::Probing,
            Reply::Rearmed(_) => self.phase == Phase::Rearming,
            Reply::Received(Ok(bytes)) => self.phase == Phase::Reading && self.received.len()
                + bytes.len() <= MESSAGE_LEN,
            Reply::Received(Err(_)) => self.phase == Phase::Reading,
            Reply::Forwarded => self.phase == Phase::Forwarding,
        }
    }

    /// The handler as it waits for another operation.
    pub open spec fn in_phase(self, phase: Phase) -> HandlerView {
        HandlerView { phase, ..self }
    }

    /// The handler once the writing half of the event has been dealt with.
    pub open spec fn turn_to_reading(self) -> HandlerView {
        if self.readable {
            self.in_phase(Phase::Reading)
        } else {
            self.in_phase(Phase::Finished(Verdict::Keep))
        }
    }

    /// The handler once it has read `bytes` more.
    pub open spec fn take_in(self, bytes: Seq<u8>) -> HandlerView {
        let more = HandlerView { received: self.received + bytes, ..self };
        if more.received.len() < MESSAGE_LEN {
            more
        } else if more.peer is Some {
            more.in_phase(Phase::Forwarding)
        } else {
            more.in_phase(Phase::Finished(Verdict::Keep))
        }
    }

    /// The handler once it has been told `reply`.
    pub open spec fn after(self, reply: Reply) -> HandlerView {
        match reply {
            Reply::Probed(Ok(_)) => self.in_phase(Phase::Rearming),
            Reply::Probed(Err(ErrorClass::WouldBlock)) => self.turn_to_reading(),
            // The event is begun anew, but without the peer.
            Reply::Probed(Err(ErrorClass::Interrupted)) => HandlerView { peer: None, ..self },
            Reply::Probed(Err(ErrorClass::Other)) => self.in_phase(Phase::Finished(Verdict::Fail)),
            Reply::Rearmed(Ok(_)) => self.turn_to_reading(),
            Reply::Rearmed(Err(_)) => self.in_phase(Phase::Finished(Verdict::Fail)),
            Reply::Received(Ok(bytes)) => if bytes.len() == 0 {
                self.in_phase(Phase::Finished(Verdict::Close))
            } else {
                self.take_in(bytes)
            },
            Reply::Received(Err(ErrorClass::Other)) => self.in_phase(
                Phase::Finished(Verdict::Fail),
            ),
            Reply::Received(Err(_)) => self.in_phase(Phase::Finished(Verdict::Keep)),
            Reply::Forwarded => self.in_phase(Phase::Finished(Verdict::Keep)),
        }
    }
}

/// Works through one readiness event of one client.
pub struct ConnectionHandler {
    token: Token,
    peer: Option<Token>,
    readable: bool,
    phase: Phase,
    buffer: [u8; 2],
    bytes_read: usize,
}

impl View for ConnectionHandler {
    type V = HandlerView;

    closed spec fn view(&self) -> HandlerView {
        HandlerView {
            token: self.token,
            peer: self.peer,
            readable: self.readable,
            phase: self.phase,
            received: self.buffer@.take(self.bytes_read as int),
        }
    }
}

/// Takes up `event`.  Whole messages go to `peer`, if there is one.
pub fn handle_connection_event(event: Event, peer: Option<Token>) -> (handler: ConnectionHandler)
    ensures
        handler@ == HandlerView::begin(event, peer),
        handler.wf(),
        handler@.token == event.token,
        handler@.peer == peer,
        handler@.readable == event.readable,
        handler@.received == Seq::<u8>::empty(),
        event.writable ==> handler@.phase == Phase::Probing,
        event.readable && !event.writable ==> handler@.phase == Phase::Reading,
        !event.readable && !event.writable ==> handler@.phase == Phase::Finished(Verdict::Keep),
{
    let phase = if event.writable {
        Phase::Probing
    } else if event.readable {
        Phase::Reading
    } else {
        Phase::Finished(Verdict::Keep)
    };
    ConnectionHandler {
        token: event.token,
        peer,
        readable: event.readable,
        phase,
        buffer: [0, 0],
        bytes_read: 0,
    }
}

impl ConnectionHandler {
    /// The buffer holds as many bytes as are counted.
    pub closed spec fn buffer_wf(&self) -> bool {
        self.bytes_read <= MESSAGE_LEN
    }

    /// What every handler satisfies at every moment.
    pub open spec fn wf(&self) -> bool {
        self.buffer_wf() && self@.wf()
    }

    /// The operation that the handler waits for.
    pub fn phase(&self) -> (phase: Phase)
        ensures
            phase == self@.phase,
    {
        self.phase
    }

    /// The operation to perform next, with what it is performed on.
    pub fn request(&self) -> (request: Request)
        requires
            self.wf(),
        ensures
            match self@.phase {
                Phase::Probing => request == (Request::Probe { token: self@.token }),
                Phase::Rearming => request == (Request::Rearm {
                    token: self@.token,
                    interest: Interest::Readable,
                }),
                Phase::Reading => request == (Request::Read {
                    token: self@.token,
                    room: (MESSAGE_LEN - self@.received.len()) as usize,
                }) && self@.received.len() < MESSAGE_LEN,
                Phase::Forwarding => request matches Request::Forward { to, message } && self@.peer
                    == Some(to) && message@ == self@.received,
                Phase::Finished(verdict) => request == (Request::Finish { verdict }),
            },
    {
        match self.phase {
            Phase::Probing => Request::Probe { token: self.token },
            Phase::Rearming => Request::Rearm { token: self.token, interest: Interest::Readable },
            Phase::Reading => Request::Read {
                token: self.token,
                room: MESSAGE_LEN - self.bytes_read,
            },
            Phase::Forwarding => match self.peer {
                Some(to) => Request::Forward { to, message: self.buffer },
                None => Request::Finish { verdict: Verdict::Keep },
            },
            Phase::Finished(verdict) => Request::Finish { verdict },
        }
    }

    /// Tells the outcome of the empty write.
    pub fn probed(&mut self, result: Result<(), ErrorClass>)
        requires
            old(self).wf(),
            old(self)@.awaits(Reply::Probed(result)),
        ensures
            final(self).wf(),
            final(self)@ == old(self)@.after(Reply::Probed(result)),
            final(self)@ == (HandlerView {
                peer: if result == Err::<(), _>(ErrorClass::Interrupted) {
                    None
                } else {
                    old(self)@.peer
                },
                phase: match result {
                    Ok(_) => Phase::Rearming,
                    Err(ErrorClass::Interrupted) => Phase::Probing,
                    Err(ErrorClass::Other) => Phase::Finished(Verdict::Fail),
                    Err(ErrorClass::WouldBlock) => if old(self)@.readable {
                        Phase::Reading
                    } else {
                        Phase::Finished(Verdict::Keep)
                    },
                },
                ..old(self)@
            }),
    {
        match result {
            Ok(_) => {
                self.phase = Phase::Rearming;
            },
            Err(ErrorClass::WouldBlock) => {
                self.turn_to_reading();
            },
            Err(ErrorClass::Interrupted) => {
                self.peer = None;
            },
            Err(ErrorClass::Other) => {
                self.phase = Phase::Finished(Verdict::Fail);
            },
        }
    }

    /// Tells the outcome of the registration.
    pub fn rearmed(&mut self, result: Result<(), ErrorClass>)
        requires
            old(self).wf(),
            old(self)@.awaits(Reply::Rearmed(result)),
        ensures
            final(self).wf(),
            final(self)@ == old(self)@.after(Reply::Rearmed(result)),
            final(self)@ == (HandlerView {
                phase: match result {
                    Err(_) => Phase::Finished(Verdict::Fail),
                    Ok(_) => if old(self)@.readable {
                        Phase::Reading
                    } else {
                        Phase::Finished(Verdict::Keep)
                    },
                },
                ..old(self)@
            }),
    {
        match result {
            Ok(_) => {
                self.turn_to_reading();
            },
            Err(_) => {
                self.phase = Phase::Finished(Verdict::Fail);
            },
        }
    }

    fn turn_to_reading(&mut self)
        requires
            old(self).wf(),
            old(self)@.received.len() == 0,
        ensures
            final(self).wf(),
            final(self)@ == old(self)@.turn_to_reading(),
    {
        if self.readable {
            self.phase = Phase::Reading;
        } else {
            self.phase = Phase::Finished(Verdict::Keep);
        }
    }

    /// Tells the outcome of a read: the bytes that came, or the error.
    pub fn received(&mut self, result: Result<&[u8], ErrorClass>)
        requires
            old(self).wf(),
            old(self)@.awaits(Reply::Received(bytes_of(result))),
        ensures
            final(self).wf(),
            final(self)@ == old(self)@.after(Reply::Received(bytes_of(result))),
            final(self)@.token == old(self)@.token,
            final(self)@.peer == old(self)@.peer,
            final(self)@.readable == old(self)@.readable,
            match result {
                Ok(bytes) => {
                    &&& final(self)@.received == old(self)@.received + bytes@
                    &&& final(self)@.phase == if bytes@.len() == 0 {
                        Phase::Finished(Verdict::Close)
                    } else if final(self)@.received.len() < MESSAGE_LEN {
                        Phase::Reading
                    } else if old(self)@.peer is Some {
                        Phase::Forwarding
                    } else {
                        Phase::Finished(Verdict::Keep)
                    }
                },
                Err(error) => {
                    &&& final(self)@.received == old(self)@.received
                    &&& final(self)@.phase == if error == ErrorClass::Other {
                        Phase::Finished(Verdict::Fail)
                    } else {
                        Phase::Finished(Verdict::Keep)
                    }
                },
            },
    {
        match result {
            Ok(bytes) => {
                if bytes.len() == 0 {
                    self.phase = Phase::Finished(Verdict::Close);
                } else {
                    self.take_in(bytes);
                }
            },
            Err(ErrorClass::Other) => {
                self.phase = Phase::Finished(Verdict::Fail);
            },
            Err(_) => {
                self.phase = Phase::Finished(Verdict::Keep);
            },
        }
    }

    fn take_in(&mut self, bytes: &[u8])
        requires
            old(self).wf(),
            old(self)@.awaits(Reply::Received(Ok(bytes@))),
        ensures
            final(self).wf(),
            final(self)@ == old(self)@.take_in(bytes@),
    {
        let mut i: usize = 0;
        while i < bytes.len()
            invariant
                0 <= i <= bytes.len(),
                old(self)@.received.len() + bytes.len() <= MESSAGE_LEN,
                self.bytes_read == old(self)@.received.len() + i,
                self@ == (HandlerView {
                    received: old(self)@.received + bytes@.take(i as int),
                    ..old(self)@
                }),
            decreases bytes.len() - i,
        {
            let ghost before = self@.received;
            self.buffer[self.bytes_read] = bytes[i];
            self.bytes_read = self.bytes_read + 1;
            i = i + 1;
            assert(self@.received =~= before.push(bytes@[i - 1]));
            assert(bytes@.take(i as int) =~= bytes@.take(i - 1).push(bytes@[i - 1]));
        }
        assert(bytes@.take(i as int) =~= bytes@);
        if self.bytes_read >= MESSAGE_LEN {
            self.phase = match self.peer {
                Some(_) => Phase::Forwarding,
                None => Phase::Finished(Verdict::Keep),
            };
        }
    }

    /// Tells that the message has been handed to the peer's connection.  Whether
    /// the write succeeded makes no difference.
    pub fn forwarded(&mut self)
        requires
            old(self).wf(),
            old(self)@.awaits(Reply::Forwarded),
        ensures
            final(self).wf(),
            final(self)@ == old(self)@.after(Reply::Forwarded),
            final(self)@ == (HandlerView {
                phase: Phase::Finished(Verdict::Keep),
                ..old(self)@
            }),
    {
        self.phase = Phase::Finished(Verdict::Keep);
    }
}

/// What a read brought, in mathematical terms.
pub open spec fn bytes_of(result: Result<&[u8], ErrorClass>) -> Result<Seq<u8>, ErrorClass> {
    match result {
        Ok(bytes) => Ok(bytes@),
        Err(error) => Err(error),
    }
}

} // verus!
