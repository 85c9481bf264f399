use uttt_matchmaking::handler::{handle_connection_event, ConnectionHandler, Phase, Request, Verdict};
use uttt_matchmaking::token::{ErrorClass, Event, Interest, Token};

const CLIENT: Token = Token(4);
const PEER: Token = Token(9);

fn handler(readable: bool, writable: bool, peer: Option<Token>) -> ConnectionHandler {
    handle_connection_event(Event { token: CLIENT, readable, writable }, peer)
}

fn verdict(handler: &ConnectionHandler) -> Verdict {
    match handler.request() {
        Request::Finish { verdict } => verdict,
        other => panic!("the event is not over: {:?}", other),
    }
}

#[test]
fn event_without_readiness_is_over_at_once() {
    assert_eq!(verdict(&handler(false, false, Some(PEER))), Verdict::Keep);
}

#[test]
fn writable_connection_is_probed_and_rearmed() {
    let mut h = handler(false, true, None);
    assert_eq!(h.phase(), Phase::Probing);
    assert_eq!(h.request(), Request::Probe { token: CLIENT });
    h.probed(Ok(()));
    assert_eq!(h.request(), Request::Rearm { token: CLIENT, interest: Interest::Readable });
    h.rearmed(Ok(()));
    assert_eq!(verdict(&h), Verdict::Keep);
}

#[test]
fn probe_that_would_block_is_not_rearmed() {
    let mut h = handler(true, true, Some(PEER));
    h.probed(Err(ErrorClass::WouldBlock));
    assert_eq!(h.request(), Request::Read { token: CLIENT, room: 2 });
}

#[test]
fn failed_probe_ends_the_connection() {
    let mut h = handler(true, true, Some(PEER));
    h.probed(Err(ErrorClass::Other));
    assert_eq!(verdict(&h), Verdict::Fail);
}

#[test]
fn failed_registration_ends_the_connection() {
    for error in [ErrorClass::WouldBlock, ErrorClass::Interrupted, ErrorClass::Other] {
        let mut h = handler(true, true, Some(PEER));
        h.probed(Ok(()));
        h.rearmed(Err(error));
        assert_eq!(verdict(&h), Verdict::Fail);
    }
}

#[test]
fn whole_message_is_forwarded() {
    let mut h = handler(true, false, Some(PEER));
    assert_eq!(h.request(), Request::Read { token: CLIENT, room: 2 });
    h.received(Ok(&[7, 80]));
    assert_eq!(h.request(), Request::Forward { to: PEER, message: [7, 80] });
    h.forwarded();
    assert_eq!(verdict(&h), Verdict::Keep);
}

#[test]
fn message_in_two_pieces_is_forwarded() {
    let mut h = handler(true, true, Some(PEER));
    h.probed(Ok(()));
    h.rearmed(Ok(()));
    h.received(Ok(&[1]));
    assert_eq!(h.request(), Request::Read { token: CLIENT, room: 1 });
    h.received(Ok(&[0]));
    assert_eq!(h.request(), Request::Forward { to: PEER, message: [1, 0] });
    h.forwarded();
    assert_eq!(verdict(&h), Verdict::Keep);
}

#[test]
fn message_without_a_peer_is_dropped() {
    let mut h = handler(true, false, None);
    h.received(Ok(&[7, 80]));
    assert_eq!(verdict(&h), Verdict::Keep);
}

#[test]
fn half_a_message_is_dropped() {
    for error in [ErrorClass::WouldBlock, ErrorClass::Interrupted] {
        let mut h = handler(true, false, Some(PEER));
        h.received(Ok(&[7]));
        h.received(Err(error));
        assert_eq!(verdict(&h), Verdict::Keep);
    }
}

#[test]
fn end_of_stream_closes_the_connection() {
    let mut h = handler(true, false, Some(PEER));
    h.received(Ok(&[]));
    assert_eq!(verdict(&h), Verdict::Close);
    assert!(verdict(&h).is_over());

    let mut h = handler(true, false, Some(PEER));
    h.received(Ok(&[7]));
    h.received(Ok(&[]));
    assert_eq!(verdict(&h), Verdict::Close);
}

#[test]
fn failed_read_ends_the_connection() {
    let mut h = handler(true, false, Some(PEER));
    h.received(Ok(&[7]));
    h.received(Err(ErrorClass::Other));
    assert_eq!(verdict(&h), Verdict::Fail);
    assert!(verdict(&h).is_over());
    assert!(!Verdict::Keep.is_over());
}

#[test]
fn interrupted_probe_loses_the_peer() {
    let mut h = handler(true, true, Some(PEER));
    for _ in 0..3 {
        h.probed(Err(ErrorClass::Interrupted));
        assert_eq!(h.request(), Request::Probe { token: CLIENT });
    }
    h.probed(Ok(()));
    h.rearmed(Ok(()));
    h.received(Ok(&[7, 80]));
    assert_eq!(verdict(&h), Verdict::Keep);
}
