//! The server's reaction to what happens on its sockets.
//!
//! The program polls for events and hands each to [`Server::on_ready`].
//!
//! If the listening socket is ready, connections are accepted until none is left:
//! the result of each attempt goes to [`Server::on_accept`], and the result of
//! registering an accepted connection goes to [`Server::on_registered`].
//!
//! If a client is ready, a [`ConnectionHandler`] works through the event, and its
//! verdict goes to [`Server::on_verdict`].

use rand::rngs::ThreadRng;
use vstd::prelude::*;

use crate::game::{announce_at_random, drawn, Pairing, STARTING_PLAYER_PACKET};
use crate::handler::{handle_connection_event, ConnectionHandler, HandlerView, Phase, Reply, Verdict};
use crate::handler_laws::{forwards_exactly_what_was_read, payload};
use crate::lobby::{ConnectionEntry, Lobby, LobbyView};
use crate::token::{ErrorClass, Event, Interest, Token, SERVER};

verus! {

/// What is to be done about an event.
pub enum Dispatch {
    /// Accept connections until none is left.
    Accept,
    /// Work through the event with a handler.
    Handle(ConnectionHandler),
    /// Nothing: the client is gone.
    Ignore,
}

/// What follows an attempt to accept a connection.
#[derive(Clone, Copy, Debug, PartialEq, Eq, Structural)]
pub enum AcceptAction {
    /// Register the accepted connection.
    Register { token: Token, interest: Interest },
    /// Go on to the next event: no connection is left.
    Drained,
    /// Stop the server.
    Abort,
}

/// What follows the registration of a connection.
#[derive(Clone, Copy, Debug, PartialEq, Eq)]
pub enum RegisterAction {
    /// Keep the connection: the client waits for a partner.
    Wait { token: Token },
    /// Keep the connection, and tell both players that the game begins.
    Begin { pairing: Pairing },
    /// Stop the server.
    Abort,
}

/// The state of the server.
pub struct Server {
    pub lobby: Lobby,
}

impl Server {
    /// Makes a server without clients.
    pub fn new() -> (server: Server)
        ensures
            server.lobby@ == LobbyView::empty(),
            server.lobby@.wf(),
            server.lobby@.unique_token.0 == SERVER + 1,
            server.lobby@.joining is None,
            server.lobby@.connections == Map::<usize, ConnectionEntry>::empty(),
            server.lobby@.unpaired == Seq::<Token>::empty(),
    {
        Server { lobby: Lobby::new() }
    }

    /// Decides what an event calls for.
    pub fn on_ready(&self, event: Event) -> (dispatch: Dispatch)
        ensures
            match dispatch {
                Dispatch::Accept => event.token.is_server(),
                Dispatch::Handle(handler) => {
                    &&& !event.token.is_server()
                    &&& self.lobby@.connected(event.token)
                    &&& handler@ == HandlerView::begin(event, self.lobby@.peer(event.token))
                    &&& handler.wf()
                },
                Dispatch::Ignore => !event.token.is_server() && !self.lobby@.connected(event.token),
            },
            dispatch is Accept <==> event.token.0 == SERVER,
            dispatch is Handle <==> event.token.0 != SERVER
                && self.lobby@.connections.contains_key(event.token.0),
            dispatch matches Dispatch::Handle(handler) ==> {
                &&& handler@.token == event.token
                &&& handler@.readable == event.readable
                &&& handler@.received == Seq::<u8>::empty()
                &&& handler@.phase == Phase::Probing <==> event.writable
                &&& handler@.phase == Phase::Reading <==> event.readable && !event.writable
                &&& handler@.phase == Phase::Finished(Verdict::Keep) <==> !event.readable
                    && !event.writable
                &&& forall|other: Token|
                    handler@.peer == Some(other) <==> {
                        &&& self.lobby@.connections[event.token.0].assoc_token == Some(other)
                        &&& #[trigger] self.lobby@.connections.contains_key(other.0)
                    }
            },
    {
        if event.token.0 == SERVER {
            Dispatch::Accept
        } else if self.lobby.is_connected(event.token) {
            let peer = self.lobby.peer(event.token);
            Dispatch::Handle(handle_connection_event(event, peer))
        } else {
            Dispatch::Ignore
        }
    }

    /// Takes in the result of an attempt to accept a connection.  An accepted
    /// connection gets the next token.
    pub fn on_accept(&mut self, result: Result<(), ErrorClass>) -> (action: AcceptAction)
        requires
            old(self).lobby@.wf(),
            result is Ok ==> old(self).lobby@.unique_token.0 < usize::MAX,
        ensures
            final(self).lobby@.wf(),
            match result {
                Ok(_) => {
                    &&& action == (AcceptAction::Register {
                        token: old(self).lobby@.unique_token,
                        interest: Interest::ReadableAndWritable,
                    })
                    &&& final(self).lobby@ == old(self).lobby@.after_welcome()
                    &&& final(self).lobby@.joining == Some(old(self).lobby@.unique_token)
                    &&& final(self).lobby@.unique_token.0 == old(self).lobby@.unique_token.0 + 1
                    &&& final(self).lobby@.connections == old(self).lobby@.connections
                    &&& final(self).lobby@.unpaired == old(self).lobby@.unpaired
                },
                Err(error) => {
                    &&& action == if error == ErrorClass::WouldBlock {
                        AcceptAction::Drained
                    } else {
                        AcceptAction::Abort
                    }
                    &&& final(self).lobby@ == old(self).lobby@
                },
            },
            // The client that joins is the one that is to be registered.
            action matches AcceptAction::Register { token, .. } ==> final(self).lobby@.joining
                == Some(token),
    {
        match result {
            Ok(_) => {
                let token = self.lobby.welcome();
                AcceptAction::Register { token, interest: Interest::ReadableAndWritable }
            },
            Err(ErrorClass::WouldBlock) => AcceptAction::Drained,
            Err(_) => AcceptAction::Abort,
        }
    }

    /// Takes in the result of registering the connection that was last accepted.  Its
    /// client is paired with the client that has waited longest, or else waits.
    pub fn on_registered(
        &mut self,
        result: Result<(), ErrorClass>,
        rng: &mut ThreadRng,
    ) -> (action: RegisterAction)
        requires
            old(self).lobby@.wf(),
            old(self).lobby@.joining is Some,
        ensures
            final(self).lobby@.wf(),
            match result {
                Ok(_) => {
                    let token = old(self).lobby@.joining->0;
                    &&& final(self).lobby@ == old(self).lobby@.after_seat(token)
                    &&& match old(self).lobby@.first_waiting() {
                        Some(partner) => action matches RegisterAction::Begin { pairing }
                            && pairing.is_random_start(token, partner),
                        None => action == (RegisterAction::Wait { token }),
                    }
                    &&& final(self).lobby@.joining is None
                    &&& final(self).lobby@.unique_token == old(self).lobby@.unique_token
                    &&& final(self).lobby@.connections.contains_key(token.0)
                },
                Err(_) => {
                    &&& action == RegisterAction::Abort
                    &&& final(self).lobby@ == old(self).lobby@
                },
            },
            action is Abort <==> result is Err,
            // Two clients are brought together: the one that joins and the first in the
            // queue that is not gone.  Chance decides which of them starts.
            action matches RegisterAction::Begin { pairing } ==> {
                &&& Some(pairing.player1) == old(self).lobby@.joining
                &&& old(self).lobby@.connections.contains_key(pairing.player2.0)
                &&& final(self).lobby@.connections == old(self).lobby@.connections.insert(
                    pairing.player2.0,
                    ConnectionEntry { assoc_token: Some(pairing.player1) },
                ).insert(
                    pairing.player1.0,
                    ConnectionEntry { assoc_token: Some(pairing.player2) },
                )
                &&& exists|i: int|
                    {
                        &&& 0 <= i < old(self).lobby@.unpaired.len()
                        &&& #[trigger] old(self).lobby@.unpaired[i] == pairing.player2
                        &&& final(self).lobby@.unpaired == old(self).lobby@.unpaired.skip(i + 1)
                        &&& forall|j: int|
                            0 <= j < i ==> !old(self).lobby@.connections.contains_key(
                                (#[trigger] old(self).lobby@.unpaired[j]).0,
                            )
                    }
                &&& exists|byte: u8|
                    {
                        &&& #[trigger] drawn(*old(rng), byte)
                        &&& pairing.packet1@ == seq![STARTING_PLAYER_PACKET, (1 + byte % 2) as u8]
                        &&& pairing.packet2@ == seq![STARTING_PLAYER_PACKET, (2 - byte % 2) as u8]
                    }
            },
            // A client waits, and is the only one that does.
            action matches RegisterAction::Wait { token } ==> {
                &&& Some(token) == old(self).lobby@.joining
                &&& final(self).lobby@.connections == old(self).lobby@.connections.insert(
                    token.0,
                    ConnectionEntry { assoc_token: None },
                )
                &&& final(self).lobby@.unpaired == seq![token]
                &&& forall|j: int|
                    0 <= j < old(self).lobby@.unpaired.len()
                        ==> !old(self).lobby@.connections.contains_key(
                        (#[trigger] old(self).lobby@.unpaired[j]).0,
                    )
            },
    {
        match result {
            Ok(_) => {
                let seating = self.lobby.seat();
                match seating.partner {
                    Some(partner) => RegisterAction::Begin {
                        pairing: announce_at_random(seating.token, partner, rng),
                    },
                    None => RegisterAction::Wait { token: seating.token },
                }
            },
            Err(_) => RegisterAction::Abort,
        }
    }

    /// Takes in the verdict on a client and tells whether its connection is to be
    /// dropped.  A client whose connection is over leaves the lobby.
    pub fn on_verdict(&mut self, token: Token, verdict: Verdict) -> (done: bool)
        requires
            old(self).lobby@.wf(),
            verdict.ends() ==> old(self).lobby@.connected(token),
        ensures
            final(self).lobby@.wf(),
            done == verdict.ends(),
            final(self).lobby@ == if verdict.ends() {
                old(self).lobby@.after_leave(token)
            } else {
                old(self).lobby@
            },
            done == (verdict == Verdict::Close || verdict == Verdict::Fail),
            final(self).lobby@.unique_token == old(self).lobby@.unique_token,
            final(self).lobby@.joining == old(self).lobby@.joining,
            done ==> {
                &&& final(self).lobby@.connections == old(self).lobby@.connections.remove(token.0)
                &&& match old(self).lobby@.connections[token.0].assoc_token {
                    Some(assoc) => final(self).lobby@.unpaired == old(self).lobby@.unpaired.push(
                        assoc,
                    ),
                    None => final(self).lobby@.unpaired == old(self).lobby@.unpaired,
                }
            },
            !done ==> final(self).lobby@ == old(self).lobby@,
    {
        let done: bool = verdict.is_over();
        if done {
            self.lobby.leave(token);
        }
        done
    }
}

/// The listening socket is never taken for a client, nor a client for it.
pub proof fn clients_are_not_the_listener(lobby: LobbyView, token: Token)
    requires
        lobby.wf(),
        lobby.connected(token) || lobby.joining == Some(token),
    ensures
        !token.is_server(),
{
}

/// A message that a client sends goes to the client that it plays with, whole and
/// unchanged, and a message from there goes back to it.
pub proof fn messages_go_between_peers(lobby: LobbyView, event: Event, replies: Seq<Reply>)
    requires
        lobby.wf(),
        lobby.connected(event.token),
        HandlerView::begin(event, lobby.peer(event.token)).can_be_told(replies),
        HandlerView::begin(event, lobby.peer(event.token)).run(replies).phase == Phase::Forwarding,
    ensures
        ({
            let handler = HandlerView::begin(event, lobby.peer(event.token)).run(replies);
            &&& handler.peer matches Some(peer)
            &&& lobby.connected(peer)
            &&& peer != event.token
            &&& lobby.peer(event.token) == Some(peer)
            &&& lobby.peer(peer) == Some(event.token)
            &&& handler.received == payload(replies)
        }),
{
    forwards_exactly_what_was_read(event, lobby.peer(event.token), replies);
}

} // verus!
