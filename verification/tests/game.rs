use uttt_matchmaking::game::{announce, announce_at_random, opponent, starting_player};
use uttt_matchmaking::token::Token;

#[test]
fn last_bit_decides_who_starts() {
    assert_eq!(starting_player(0), 1);
    assert_eq!(starting_player(1), 2);
    assert_eq!(starting_player(254), 1);
    assert_eq!(starting_player(255), 2);
}

#[test]
fn opponents_have_the_other_number() {
    assert_eq!(opponent(1), 2);
    assert_eq!(opponent(2), 1);
}

#[test]
fn players_are_told_different_numbers() {
    let even = announce(Token(2), Token(1), 6);
    assert_eq!(even.player1, Token(2));
    assert_eq!(even.player2, Token(1));
    assert_eq!(even.packet1, [3, 1]);
    assert_eq!(even.packet2, [3, 2]);
    let odd = announce(Token(2), Token(1), 7);
    assert_eq!(odd.packet1, [3, 2]);
    assert_eq!(odd.packet2, [3, 1]);
}

#[test]
fn chance_lets_either_player_start() {
    let mut rng = rand::thread_rng();
    let mut seen = [false, false];
    for _ in 0..256 {
        let pairing = announce_at_random(Token(8), Token(5), &mut rng);
        let first = pairing.packet1[1];
        assert!(first == 1 || first == 2);
        assert_eq!(pairing.packet1, [3, first]);
        assert_eq!(pairing.packet2, [3, 3 - first]);
        seen[first as usize - 1] = true;
    }
    assert_eq!(seen, [true, true]);
}
