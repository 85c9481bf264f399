use uttt_matchmaking::lobby::{Lobby, Seating};
use uttt_matchmaking::token::{next, Token, SERVER};

fn join(lobby: &mut Lobby) -> Seating {
    let token = lobby.welcome();
    assert_eq!(lobby.joining(), Some(token));
    assert!(!lobby.is_connected(token));
    let seating = lobby.seat();
    assert_eq!(seating.token, token);
    assert_eq!(lobby.joining(), None);
    assert!(lobby.is_connected(token));
    seating
}

#[test]
fn tokens_count_up_from_the_listener() {
    let mut current = Token(SERVER + 1);
    assert_eq!(next(&mut current), Token(1));
    assert_eq!(next(&mut current), Token(2));
    assert_eq!(current, Token(3));
    let mut last = Token(usize::MAX - 1);
    assert_eq!(next(&mut last), Token(usize::MAX - 1));
    assert_eq!(last, Token(usize::MAX));
}

#[test]
fn first_client_waits_and_second_plays() {
    let mut lobby = Lobby::new();
    assert!(lobby.has_tokens());
    assert_eq!(join(&mut lobby), Seating { token: Token(1), partner: None });
    assert_eq!(lobby.peer(Token(1)), None);
    assert_eq!(join(&mut lobby), Seating { token: Token(2), partner: Some(Token(1)) });
    assert_eq!(lobby.peer(Token(1)), Some(Token(2)));
    assert_eq!(lobby.peer(Token(2)), Some(Token(1)));
    assert_eq!(join(&mut lobby).partner, None);
    assert_eq!(join(&mut lobby).partner, Some(Token(3)));
}

#[test]
fn clients_that_are_gone_are_passed_over() {
    let mut lobby = Lobby::new();
    join(&mut lobby);
    lobby.leave(Token(1));
    assert!(!lobby.is_connected(Token(1)));
    assert_eq!(join(&mut lobby), Seating { token: Token(2), partner: None });
    assert_eq!(join(&mut lobby), Seating { token: Token(3), partner: Some(Token(2)) });
}

#[test]
fn abandoned_clients_are_paired_in_order() {
    let mut lobby = Lobby::new();
    for _ in 0..4 {
        join(&mut lobby);
    }
    lobby.leave(Token(3));
    lobby.leave(Token(1));
    assert_eq!(lobby.peer(Token(4)), None);
    assert_eq!(lobby.peer(Token(2)), None);
    assert_eq!(join(&mut lobby), Seating { token: Token(5), partner: Some(Token(4)) });
    assert_eq!(join(&mut lobby), Seating { token: Token(6), partner: Some(Token(2)) });
    assert_eq!(lobby.peer(Token(4)), Some(Token(5)));
    assert_eq!(lobby.peer(Token(2)), Some(Token(6)));
    assert_eq!(join(&mut lobby).partner, None);
}

#[test]
fn both_players_may_leave() {
    let mut lobby = Lobby::new();
    join(&mut lobby);
    join(&mut lobby);
    lobby.leave(Token(1));
    lobby.leave(Token(2));
    assert_eq!(lobby.peer(Token(1)), None);
    assert_eq!(lobby.peer(Token(2)), None);
    assert_eq!(join(&mut lobby), Seating { token: Token(3), partner: None });
    assert_eq!(join(&mut lobby), Seating { token: Token(4), partner: Some(Token(3)) });
}

#[test]
fn leaving_at_once_leaves_the_partner_waiting() {
    let mut lobby = Lobby::new();
    join(&mut lobby);
    join(&mut lobby);
    lobby.leave(Token(2));
    assert!(lobby.is_connected(Token(1)));
    assert_eq!(lobby.peer(Token(1)), None);
    assert_eq!(join(&mut lobby), Seating { token: Token(3), partner: Some(Token(1)) });
}
