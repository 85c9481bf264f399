//! How a game begins: who starts, and how the two players are told.

use rand::rngs::ThreadRng;
use rand::Rng;
use vstd::prelude::*;

use crate::token::Token;

verus! {

/// The first byte of the packet that tells a player who starts.
pub const STARTING_PLAYER_PACKET: u8 = 3;

/// The random number generator of the `rand` crate, opaque here.
#[verifier::external_type_specification]
#[verifier::external_body]
pub struct ExThreadRng(ThreadRng);

/// Draws a byte with `Rng::gen` of the `rand` crate.
///
/// Nothing is claimed of the byte, which is left to chance, nor of the generator
/// afterwards.
#[verifier::external_body]
fn random_byte(rng: &mut ThreadRng) -> (byte: u8) {
    rng.gen::<u8>()
}

/// Whether `byte` is what the generator gives when it is asked for a byte: an outcome
/// of the very call that draws it.
pub closed spec fn drawn(rng: ThreadRng, byte: u8) -> bool {
    exists|generator: &mut ThreadRng|
        *generator == rng && #[trigger] call_ensures(random_byte, (generator,), byte)
}

/// A byte counts as drawn only if a call that draws one gave it.
proof fn only_a_draw_is_drawn(rng: ThreadRng, byte: u8)
    requires
        drawn(rng, byte),
    ensures
        exists|generator: &mut ThreadRng|
            *generator == rng && #[trigger] call_ensures(random_byte, (generator,), byte),
{
}

/// The number of the player who starts, as the first player is told it.
pub open spec fn starter(random: u8) -> u8 {
    if random % 2 == 0 {
        1
    } else {
        2
    }
}

/// The other of the two player numbers.
pub open spec fn other_player(player: u8) -> u8 {
    (3 - player) as u8
}

/// Picks the player who starts by the last bit of `random`.
pub fn starting_player(random: u8) -> (player: u8)
    ensures
        player == starter(random),
        player == 1 || player == 2,
        player == 1 + random % 2,
{
    assert(random & 1 == random % 2) by (bit_vector);
    (random & 1) + 1
}

/// Swaps the player numbers 1 and 2.
pub fn opponent(player: u8) -> (other: u8)
    requires
        player == 1 || player == 2,
    ensures
        other == other_player(player),
        other != player,
        other == 1 || other == 2,
{
    assert(1u8 ^ 3u8 == 2u8) by (bit_vector);
    assert(2u8 ^ 3u8 == 1u8) by (bit_vector);
    player ^ 3
}

/// Two clients that have been brought together, with what each is to be told.
#[derive(Clone, Copy, Debug, PartialEq, Eq)]
pub struct Pairing {
    /// The client that has just come.
    pub player1: Token,
    /// The client that was waiting.
    pub player2: Token,
    /// The packet for `player1`, which is sent first.
    pub packet1: [u8; 2],
    /// The packet for `player2`.
    pub packet2: [u8; 2],
}

impl Pairing {
    /// The pairing brings `player1` and `player2` together and has `starting` start,
    /// counted from the view of `player1`.
    pub open spec fn announces(self, player1: Token, player2: Token, starting: u8) -> bool {
        &&& self.player1 == player1
        &&& self.player2 == player2
        &&& self.packet1@ == seq![STARTING_PLAYER_PACKET, starting]
        &&& self.packet2@ == seq![STARTING_PLAYER_PACKET, other_player(starting)]
    }

    /// The pairing is one that some random byte leads to.
    pub open spec fn is_random_start(self, player1: Token, player2: Token) -> bool {
        exists|random: u8| #[trigger] self.announces(player1, player2, starter(random))
    }
}

/// Makes the announcements for a new pair from a random byte.
pub fn announce(player1: Token, player2: Token, random: u8) -> (pairing: Pairing)
    ensures
        pairing.announces(player1, player2, starter(random)),
        pairing.player1 == player1,
        pairing.player2 == player2,
        pairing.packet1@ == seq![STARTING_PLAYER_PACKET, (1 + random % 2) as u8],
        pairing.packet2@ == seq![STARTING_PLAYER_PACKET, (2 - random % 2) as u8],
{
    let starting: u8 = starting_player(random);
    let other: u8 = opponent(starting);
    let pairing = Pairing {
        player1,
        player2,
        packet1: [STARTING_PLAYER_PACKET, starting],
        packet2: [STARTING_PLAYER_PACKET, other],
    };
    assert(pairing.packet1@ =~= seq![STARTING_PLAYER_PACKET, starting]);
    assert(pairing.packet2@ =~= seq![STARTING_PLAYER_PACKET, other]);
    pairing
}

/// Makes the announcements for a new pair, leaving to chance who starts: they are
/// those for the byte that the generator gives.
pub fn announce_at_random(player1: Token, player2: Token, rng: &mut ThreadRng) -> (pairing: Pairing)
    ensures
        pairing.is_random_start(player1, player2),
        pairing.player1 == player1,
        pairing.player2 == player2,
        exists|byte: u8|
            {
                &&& #[trigger] drawn(*old(rng), byte)
                &&& pairing.announces(player1, player2, starter(byte))
                &&& pairing.packet1@ == seq![STARTING_PLAYER_PACKET, (1 + byte % 2) as u8]
                &&& pairing.packet2@ == seq![STARTING_PLAYER_PACKET, (2 - byte % 2) as u8]
            },
{
    let random: u8 = random_byte(rng);
    assert(drawn(*old(rng), random));
    announce(player1, player2, random)
}

/// Whatever chance decides, one player is told 1 and the other is told 2, so that
/// exactly one of them starts.
pub proof fn exactly_one_player_starts(pairing: Pairing, player1: Token, player2: Token)
    requires
        pairing.is_random_start(player1, player2),
    ensures
        pairing.packet1@.len() == 2,
        pairing.packet2@.len() == 2,
        pairing.packet1@[0] == STARTING_PLAYER_PACKET,
        pairing.packet2@[0] == STARTING_PLAYER_PACKET,
        (pairing.packet1@[1] == 1 && pairing.packet2@[1] == 2) || (pairing.packet1@[1] == 2
            && pairing.packet2@[1] == 1),
{
}

/// The random byte alone decides who starts: two announcements say the same exactly if
/// their bytes agree in the last bit, whoever the players are.  In particular, no player
/// starts more readily for having come early or late.
pub proof fn only_the_byte_decides_who_starts(
    one: Pairing,
    random_one: u8,
    two: Pairing,
    random_two: u8,
)
    requires
        one.announces(one.player1, one.player2, starter(random_one)),
        two.announces(two.player1, two.player2, starter(random_two)),
    ensures
        one.packet1@ == two.packet1@ <==> random_one % 2 == random_two % 2,
        one.packet2@ == two.packet2@ <==> random_one % 2 == random_two % 2,
        one.packet1@ != one.packet2@,
{
    assert(one.packet1@[1] == starter(random_one) && two.packet1@[1] == starter(random_two));
    assert(one.packet2@[1] == other_player(starter(random_one)));
    assert(two.packet2@[1] == other_player(starter(random_two)));
}

/// The first player is told 1 more than the last bit of the random byte, and the two
/// numbers that are told add up to 3.
pub proof fn numbers_told_come_from_the_byte(pairing: Pairing, random: u8)
    requires
        pairing.announces(pairing.player1, pairing.player2, starter(random)),
    ensures
        pairing.packet1@.len() == 2,
        pairing.packet2@.len() == 2,
        pairing.packet1@[0] == STARTING_PLAYER_PACKET,
        pairing.packet2@[0] == STARTING_PLAYER_PACKET,
        pairing.packet1@[1] == 1 + random % 2,
        pairing.packet1@[1] + pairing.packet2@[1] == 3,
{
}

/// Each player starts for half of the bytes: flipping the last bit of the random
/// byte has the other player start.
pub proof fn either_player_may_start(random: u8)
    ensures
        starter(random ^ 1) == other_player(starter(random)),
        starter(random ^ 1) != starter(random),
{
    assert((random ^ 1) % 2 != random % 2) by (bit_vector);
}

} // verus!
