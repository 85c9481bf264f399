use uttt_matchmaking::handler::{Request, Verdict};
use uttt_matchmaking::server::{AcceptAction, Dispatch, RegisterAction, Server};
use uttt_matchmaking::token::{ErrorClass, Event, Interest, Token};

fn accept(server: &mut Server) -> (Token, RegisterAction) {
    let token = match server.on_accept(Ok(())) {
        AcceptAction::Register { token, interest } => {
            assert_eq!(interest, Interest::ReadableAndWritable);
            token
        }
        other => panic!("not to be registered: {:?}", other),
    };
    let action = server.on_registered(Ok(()), &mut rand::thread_rng());
    (token, action)
}

/// Has `token` send `bytes` and returns the operations that follow the read.
fn send(server: &mut Server, token: Token, bytes: &[u8]) -> Option<(Token, [u8; 2])> {
    let event = Event { token, readable: true, writable: false };
    match server.on_ready(event) {
        Dispatch::Handle(mut handler) => {
            assert_eq!(handler.request(), Request::Read { token, room: 2 });
            handler.received(Ok(bytes));
            let forwarded = match handler.request() {
                Request::Forward { to, message } => {
                    handler.forwarded();
                    Some((to, message))
                }
                _ => None,
            };
            match handler.request() {
                Request::Finish { verdict } => {
                    server.on_verdict(token, verdict);
                }
                other => panic!("the event is not over: {:?}", other),
            }
            forwarded
        }
        Dispatch::Accept => panic!("taken for the listener"),
        Dispatch::Ignore => panic!("not connected"),
    }
}

#[test]
fn listener_events_accept_connections() {
    let server = Server::new();
    let event = Event { token: Token(0), readable: true, writable: false };
    assert!(matches!(server.on_ready(event), Dispatch::Accept));
    let stranger = Event { token: Token(1), readable: true, writable: true };
    assert!(matches!(server.on_ready(stranger), Dispatch::Ignore));
}

#[test]
fn accepting_stops_when_drained_and_fails_otherwise() {
    let mut server = Server::new();
    assert_eq!(server.on_accept(Err(ErrorClass::WouldBlock)), AcceptAction::Drained);
    assert_eq!(server.on_accept(Err(ErrorClass::Interrupted)), AcceptAction::Abort);
    assert_eq!(server.on_accept(Err(ErrorClass::Other)), AcceptAction::Abort);
    assert_eq!(
        server.on_accept(Ok(())),
        AcceptAction::Register { token: Token(1), interest: Interest::ReadableAndWritable }
    );
}

#[test]
fn failed_registration_stops_the_server() {
    let mut server = Server::new();
    server.on_accept(Ok(()));
    let action = server.on_registered(Err(ErrorClass::Other), &mut rand::thread_rng());
    assert_eq!(action, RegisterAction::Abort);
    assert!(!server.lobby.is_connected(Token(1)));
}

#[test]
fn two_clients_begin_a_game_and_exchange_moves() {
    let mut server = Server::new();
    let (one, action) = accept(&mut server);
    assert_eq!(action, RegisterAction::Wait { token: one });
    let (two, action) = accept(&mut server);
    match action {
        RegisterAction::Begin { pairing } => {
            assert_eq!(pairing.player1, two);
            assert_eq!(pairing.player2, one);
            assert_eq!(pairing.packet1[0], 3);
            assert_eq!(pairing.packet2[0], 3);
            assert_eq!(pairing.packet1[1] + pairing.packet2[1], 3);
            assert!(pairing.packet1[1] == 1 || pairing.packet1[1] == 2);
        }
        other => panic!("no game: {:?}", other),
    }
    assert_eq!(send(&mut server, one, &[1, 44]), Some((two, [1, 44])));
    assert_eq!(send(&mut server, two, &[1, 80]), Some((one, [1, 80])));
}

#[test]
fn lost_partner_is_replaced() {
    let mut server = Server::new();
    let (one, _) = accept(&mut server);
    let (two, _) = accept(&mut server);
    // The first client closes its connection.
    assert_eq!(send(&mut server, one, &[]), None);
    assert!(!server.lobby.is_connected(one));
    // Meanwhile the second plays with nobody.
    assert_eq!(send(&mut server, two, &[1, 44]), None);
    let (three, action) = accept(&mut server);
    assert!(matches!(action, RegisterAction::Begin { .. }));
    assert_eq!(send(&mut server, two, &[1, 44]), Some((three, [1, 44])));
    assert_eq!(send(&mut server, three, &[1, 45]), Some((two, [1, 45])));
}

#[test]
fn verdicts_decide_who_stays() {
    let mut server = Server::new();
    let (one, _) = accept(&mut server);
    assert!(!server.on_verdict(one, Verdict::Keep));
    assert!(server.lobby.is_connected(one));
    assert!(server.on_verdict(one, Verdict::Fail));
    assert!(!server.lobby.is_connected(one));
    let (two, action) = accept(&mut server);
    assert_eq!(action, RegisterAction::Wait { token: two });
    assert!(server.on_verdict(two, Verdict::Close));
    assert!(!server.lobby.is_connected(two));
}
