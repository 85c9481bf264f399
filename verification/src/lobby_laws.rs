//! Laws on pairing and parting, for a single change and for whole histories.

use vstd::prelude::*;

use crate::lobby::{
    leave_keeps_wf, seat_keeps_wf, stale_prefix, stale_prefix_is_least, welcome_keeps_wf, LobbyView,
};
use crate::token::{Token, SERVER};

verus! {

/// A newcomer has to wait exactly if nobody else waits.  Otherwise it is paired with
/// the client that comes before all others that wait.
pub proof fn longest_waiting_client_is_next(lobby: LobbyView)
    requires
        lobby.wf(),
    ensures
        lobby.first_waiting() is None <==> forall|other: Token| !#[trigger] lobby.waiting(other),
        lobby.first_waiting() matches Some(partner) ==> {
            &&& lobby.waiting(partner)
            &&& forall|i: int, j: int|
                0 <= i < lobby.unpaired.len() && 0 <= j < lobby.unpaired.len()
                    && #[trigger] lobby.unpaired[i] == partner && lobby.waiting(
                    #[trigger] lobby.unpaired[j],
                ) ==> i <= j
        },
{
    stale_prefix_is_least(lobby.unpaired, lobby.connections);
    let stale = stale_prefix(lobby.unpaired, lobby.connections) as int;
    match lobby.first_waiting() {
        Some(partner) => {
            assert(lobby.unpaired[stale] == partner);
            assert(lobby.waiting(partner));
        },
        None => {
            assert forall|other: Token| !#[trigger] lobby.waiting(other) by {}
        },
    }
}

/// An empty lobby has nobody in it, and its first client gets the token that follows the
/// listening socket's.
pub proof fn empty_lobby_has_nobody(other: Token)
    ensures
        !LobbyView::empty().connected(other),
        !LobbyView::empty().waiting(other),
        LobbyView::empty().peer(other) is None,
        LobbyView::empty().joining is None,
        LobbyView::empty().unpaired.len() == 0,
        LobbyView::empty().unique_token.0 == SERVER + 1,
{
}

/// Giving a newcomer a token changes nothing for anybody: the same clients are connected,
/// with the same peers, the same clients wait, and the queue is as it was.
pub proof fn welcome_leaves_everybody_alone(lobby: LobbyView, other: Token)
    requires
        lobby.wf(),
        lobby.unique_token.0 < usize::MAX,
    ensures
        lobby.after_welcome().connected(other) == lobby.connected(other),
        lobby.after_welcome().peer(other) == lobby.peer(other),
        lobby.after_welcome().waiting(other) == lobby.waiting(other),
        lobby.after_welcome().unpaired == lobby.unpaired,
        lobby.after_welcome().connections == lobby.connections,
        lobby.after_welcome().first_waiting() == lobby.first_waiting(),
{
}

/// The client that joins is the one that the token was handed out to.  It is connected
/// under that token, and plays under it with the client that had waited longest.
pub proof fn newcomer_is_known_by_its_token(lobby: LobbyView)
    requires
        lobby.wf(),
        lobby.unique_token.0 < usize::MAX,
    ensures
        ({
            let token = lobby.unique_token;
            let welcomed = lobby.after_welcome();
            let seated = welcomed.after_seat(token);
            &&& !lobby.connected(token)
            &&& welcomed.joining == Some(token)
            &&& welcomed.unique_token.0 == token.0 + 1
            &&& seated.connected(token)
            &&& seated.joining is None
            &&& seated.unique_token == welcomed.unique_token
            &&& seated.peer(token) == lobby.first_waiting()
            &&& lobby.first_waiting() matches Some(partner) ==> seated.peer(partner) == Some(token)
        }),
{
    welcome_keeps_wf(lobby);
    welcome_leaves_everybody_alone(lobby, lobby.unique_token);
    newcomer_plays_or_waits(lobby.after_welcome(), lobby.unique_token);
}

/// A newcomer and the client that it is paired with play with each other.  A newcomer
/// that is paired with nobody waits.
pub proof fn newcomer_plays_or_waits(lobby: LobbyView, token: Token)
    requires
        lobby.wf(),
        lobby.joining == Some(token),
    ensures
        lobby.after_seat(token).connected(token),
        lobby.after_seat(token).peer(token) == lobby.first_waiting(),
        match lobby.first_waiting() {
            Some(partner) => lobby.after_seat(token).peer(partner) == Some(token),
            None => lobby.after_seat(token).waiting(token),
        },
{
    seat_keeps_wf(lobby, token);
    stale_prefix_is_least(lobby.unpaired, lobby.connections);
    let after = lobby.after_seat(token);
    if lobby.first_waiting() is None {
        assert(after.unpaired[0] == token);
        assert(after.unpaired.contains(token));
    }
}

/// A newcomer changes nothing for anybody but the client that it is paired with.
pub proof fn newcomer_leaves_others_alone(lobby: LobbyView, token: Token, other: Token)
    requires
        lobby.wf(),
        lobby.joining == Some(token),
        other != token,
        lobby.first_waiting() != Some(other),
    ensures
        lobby.after_seat(token).connected(other) == lobby.connected(other),
        lobby.after_seat(token).peer(other) == lobby.peer(other),
        lobby.after_seat(token).waiting(other) == lobby.waiting(other),
{
    seat_keeps_wf(lobby, token);
    stale_prefix_is_least(lobby.unpaired, lobby.connections);
    let after = lobby.after_seat(token);
    if lobby.connected(other) {
        assert(lobby.assoc(other) != Some(token));
        match lobby.first_waiting() {
            Some(partner) => {
                let stale = stale_prefix(lobby.unpaired, lobby.connections) as int;
                assert(lobby.unpaired[stale] == partner);
                assert(lobby.waiting(partner));
                if lobby.assoc(other) == Some(partner) {
                    assert(lobby.peer(other) == Some(partner));
                    assert(lobby.peer(partner) == Some(other));
                    assert(false);
                }
            },
            None => {},
        }
        assert(after.peer(other) == lobby.peer(other));
        assert(after.connected(other));
    }
}

/// When a client leaves, the one that it played with waits, behind everybody else.
pub proof fn abandoned_client_waits_last(lobby: LobbyView, token: Token, peer: Token)
    requires
        lobby.wf(),
        lobby.peer(token) == Some(peer),
    ensures
        lobby.after_leave(token).waiting(peer),
        lobby.after_leave(token).peer(peer) is None,
        lobby.after_leave(token).unpaired == lobby.unpaired.push(peer),
{
    leave_keeps_wf(lobby, token);
    let after = lobby.after_leave(token);
    assert(after.unpaired[lobby.unpaired.len() as int] == peer);
    assert(lobby.peer(peer) == Some(token));
}

/// When a client leaves, it is gone, and nothing changes for anybody but the client
/// that it played with.
pub proof fn leaver_leaves_others_alone(lobby: LobbyView, token: Token, other: Token)
    requires
        lobby.wf(),
        lobby.connected(token),
        other != token,
        lobby.peer(token) != Some(other),
    ensures
        !lobby.after_leave(token).connected(token),
        lobby.after_leave(token).connected(other) == lobby.connected(other),
        lobby.after_leave(token).peer(other) == lobby.peer(other),
        lobby.after_leave(token).waiting(other) == lobby.waiting(other),
{
    leave_keeps_wf(lobby, token);
    let after = lobby.after_leave(token);
    assert(lobby.peer(other) != Some(token));
    assert(after.peer(other) == lobby.peer(other));
    if lobby.connected(other) {
        assert(after.connected(other));
    }
}

/// A client that leaves as soon as it has been connected leaves everybody else as
/// they were: the same clients are connected, with the same peers, and the same
/// clients wait.
pub proof fn leaving_undoes_joining(lobby: LobbyView, token: Token, other: Token)
    requires
        lobby.wf(),
        lobby.joining == Some(token),
    ensures
        lobby.after_seat(token).after_leave(token).connected(other) == lobby.connected(other),
        lobby.after_seat(token).after_leave(token).peer(other) == lobby.peer(other),
        lobby.after_seat(token).after_leave(token).waiting(other) == lobby.waiting(other),
{
    let seated = lobby.after_seat(token);
    let after = seated.after_leave(token);
    seat_keeps_wf(lobby, token);
    newcomer_plays_or_waits(lobby, token);
    leave_keeps_wf(seated, token);
    longest_waiting_client_is_next(lobby);
    assert(!lobby.connected(token));
    if other != token {
        if lobby.first_waiting() == Some(other) {
            assert(lobby.waiting(other));
            assert(lobby.peer(other) is None);
            abandoned_client_waits_last(seated, token, other);
        } else {
            newcomer_leaves_others_alone(lobby, token, other);
            leaver_leaves_others_alone(seated, token, other);
        }
    }
}

/// Every connected client either waits, once, or plays with one other client, which
/// plays with it.
pub proof fn every_client_waits_or_plays(lobby: LobbyView, token: Token)
    requires
        lobby.wf(),
        lobby.connected(token),
    ensures
        match lobby.peer(token) {
            Some(peer) => {
                &&& peer != token
                &&& lobby.connected(peer)
                &&& lobby.peer(peer) == Some(token)
                &&& !lobby.waiting(token)
            },
            None => {
                &&& lobby.waiting(token)
                &&& forall|i: int, j: int|
                    0 <= i < lobby.unpaired.len() && 0 <= j < lobby.unpaired.len()
                        && #[trigger] lobby.unpaired[i] == token && #[trigger] lobby.unpaired[j]
                        == token ==> i == j
            },
        },
{
}

/// No two clients play with the same one.
pub proof fn peers_are_not_shared(lobby: LobbyView, one: Token, two: Token, peer: Token)
    requires
        lobby.wf(),
        lobby.peer(one) == Some(peer),
        lobby.peer(two) == Some(peer),
    ensures
        one == two,
{
    assert(lobby.peer(peer) == Some(one));
    assert(lobby.peer(peer) == Some(two));
}

/// A change to a lobby.
pub enum Change {
    /// A client came and was given a token.
    Welcome,
    /// The client that had been given a token was connected.
    Seat,
    /// A client left.
    Leave(Token),
}

impl LobbyView {
    /// Whether the change can happen to the lobby.
    pub open spec fn admits(self, change: Change) -> bool {
        match change {
            Change::Welcome => self.unique_token.0 < usize::MAX,
            Change::Seat => self.joining is Some,
            Change::Leave(token) => self.connected(token),
        }
    }

    /// The lobby after the change.
    pub open spec fn changed(self, change: Change) -> LobbyView {
        match change {
            Change::Welcome => self.after_welcome(),
            Change::Seat => self.after_seat(self.joining->0),
            Change::Leave(token) => self.after_leave(token),
        }
    }

    /// Whether the changes can happen to the lobby, one after the other.
    pub open spec fn admits_all(self, changes: Seq<Change>) -> bool
        decreases changes.len(),
    {
        changes.len() == 0 || {
            &&& self.admits_all(changes.drop_last())
            &&& self.changed_by_all(changes.drop_last()).admits(changes.last())
        }
    }

    /// The lobby after the changes.
    pub open spec fn changed_by_all(self, changes: Seq<Change>) -> LobbyView
        decreases changes.len(),
    {
        if changes.len() == 0 {
            self
        } else {
            self.changed_by_all(changes.drop_last()).changed(changes.last())
        }
    }
}

/// Whether both clients wait, and `one` comes before `two`.
pub open spec fn waits_ahead(lobby: LobbyView, one: Token, two: Token) -> bool {
    &&& lobby.waiting(one)
    &&& lobby.waiting(two)
    &&& exists|i: int, j: int|
        0 <= i < j < lobby.unpaired.len() && #[trigger] lobby.unpaired[i] == one
            && #[trigger] lobby.unpaired[j] == two
}

/// Of two clients that go on waiting, the one that was ahead stays ahead, whatever
/// happens to the lobby.
pub proof fn nobody_overtakes(lobby: LobbyView, change: Change, one: Token, two: Token)
    requires
        lobby.wf(),
        lobby.admits(change),
        waits_ahead(lobby, one, two),
        lobby.changed(change).waiting(one),
        lobby.changed(change).waiting(two),
    ensures
        waits_ahead(lobby.changed(change), one, two),
{
    let after = lobby.changed(change);
    let (i, j) = choose|i: int, j: int|
        0 <= i < j < lobby.unpaired.len() && #[trigger] lobby.unpaired[i] == one
            && #[trigger] lobby.unpaired[j] == two;
    stale_prefix_is_least(lobby.unpaired, lobby.connections);
    match change {
        Change::Welcome => {
            assert(after.unpaired[i] == one && after.unpaired[j] == two);
        },
        Change::Seat => {
            let token = lobby.joining->0;
            let stale = stale_prefix(lobby.unpaired, lobby.connections) as int;
            seat_keeps_wf(lobby, token);
            newcomer_plays_or_waits(lobby, token);
            assert(i >= stale);
            assert(lobby.first_waiting() is Some);
            assert(lobby.first_waiting() != Some(one)) by {
                if lobby.first_waiting() == Some(one) {
                    assert(after.peer(one) == Some(token));
                    assert(after.connected(one));
                    assert(false);
                }
            }
            assert(i > stale);
            assert(after.unpaired[i - stale - 1] == one);
            assert(after.unpaired[j - stale - 1] == two);
        },
        Change::Leave(_) => {
            assert(after.unpaired[i] == one && after.unpaired[j] == two);
        },
    }
}

/// The number of clients that were connected.
pub open spec fn arrivals(changes: Seq<Change>) -> nat
    decreases changes.len(),
{
    if changes.len() == 0 {
        0
    } else {
        arrivals(changes.drop_last()) + if changes.last() is Seat {
            1nat
        } else {
            0nat
        }
    }
}

/// The number of clients that left.
pub open spec fn departures(changes: Seq<Change>) -> nat
    decreases changes.len(),
{
    if changes.len() == 0 {
        0
    } else {
        departures(changes.drop_last()) + if changes.last() is Leave {
            1nat
        } else {
            0nat
        }
    }
}

/// The number of clients that were given a token.
pub open spec fn welcomes(changes: Seq<Change>) -> nat
    decreases changes.len(),
{
    if changes.len() == 0 {
        0
    } else {
        welcomes(changes.drop_last()) + if changes.last() is Welcome {
            1nat
        } else {
            0nat
        }
    }
}

/// A client becomes connected only by being the one that joins, and only by leaving does
/// it cease to be.
pub proof fn clients_come_and_go_one_by_one(lobby: LobbyView, change: Change, other: Token)
    requires
        lobby.wf(),
        lobby.admits(change),
    ensures
        !lobby.connected(other) && lobby.changed(change).connected(other) <==> change is Seat
            && lobby.joining == Some(other),
        lobby.connected(other) && !lobby.changed(change).connected(other) <==> change
            == Change::Leave(other),
{
    stale_prefix_is_least(lobby.unpaired, lobby.connections);
}

/// Which client is joining changes only when one is given a token or is connected.
pub proof fn joining_ends_with_a_seat(lobby: LobbyView, change: Change)
    requires
        lobby.wf(),
        lobby.admits(change),
    ensures
        change is Welcome ==> lobby.changed(change).joining == Some(lobby.unique_token),
        change is Seat ==> lobby.changed(change).joining is None,
        change is Leave ==> lobby.changed(change).joining == lobby.joining,
{
}

/// A client that waits goes on waiting until it leaves or is paired with the newcomer.
pub proof fn waits_until_paired_or_gone(lobby: LobbyView, change: Change, other: Token)
    requires
        lobby.wf(),
        lobby.admits(change),
        lobby.waiting(other),
        change != Change::Leave(other),
    ensures
        ({
            let after = lobby.changed(change);
            if change is Seat && lobby.first_waiting() == Some(other) {
                &&& !after.waiting(other)
                &&& after.peer(other) == lobby.joining
            } else {
                &&& after.waiting(other)
                &&& after.peer(other) is None
            }
        }),
{
    match change {
        Change::Welcome => {
            welcome_leaves_everybody_alone(lobby, other);
        },
        Change::Seat => {
            let token = lobby.joining->0;
            seat_keeps_wf(lobby, token);
            newcomer_plays_or_waits(lobby, token);
            assert(other != token);
            if lobby.first_waiting() == Some(other) {
                assert(lobby.after_seat(token).peer(other) == Some(token));
                assert(lobby.after_seat(token).connected(other));
            } else {
                newcomer_leaves_others_alone(lobby, token, other);
            }
        },
        Change::Leave(token) => {
            assert(lobby.peer(token) != Some(other)) by {
                if lobby.peer(token) == Some(other) {
                    assert(lobby.peer(other) == Some(token));
                    assert(lobby.connected(other));
                    assert(false);
                }
            }
            leaver_leaves_others_alone(lobby, token, other);
        },
    }
}

/// Two clients that play with each other go on doing so until one of them leaves, whatever
/// else happens.
pub proof fn pairs_stay_together(lobby: LobbyView, changes: Seq<Change>, one: Token, two: Token)
    requires
        lobby.wf(),
        lobby.admits_all(changes),
        lobby.peer(one) == Some(two),
        !changes.contains(Change::Leave(one)),
        !changes.contains(Change::Leave(two)),
    ensures
        lobby.changed_by_all(changes).peer(one) == Some(two),
        lobby.changed_by_all(changes).peer(two) == Some(one),
    decreases changes.len(),
{
    assert(lobby.peer(two) == Some(one));
    if changes.len() > 0 {
        let earlier = changes.drop_last();
        let before = lobby.changed_by_all(earlier);
        assert forall|change: Change| earlier.contains(change) implies changes.contains(change) by {
            let k = choose|k: int| 0 <= k < earlier.len() && earlier[k] == change;
            assert(changes[k] == change);
        }
        pairs_stay_together(lobby, earlier, one, two);
        invariant_holds_always(lobby, earlier);
        assert(changes[changes.len() - 1] == changes.last());
        match changes.last() {
            Change::Welcome => {
                welcome_leaves_everybody_alone(before, one);
                welcome_leaves_everybody_alone(before, two);
            },
            Change::Seat => {
                longest_waiting_client_is_next(before);
                assert(before.connected(one) && before.connected(two));
                assert(!before.waiting(one) && !before.waiting(two));
                newcomer_leaves_others_alone(before, before.joining->0, one);
                newcomer_leaves_others_alone(before, before.joining->0, two);
            },
            Change::Leave(token) => {
                assert(token != one && token != two);
                leaver_leaves_others_alone(before, token, one);
                leaver_leaves_others_alone(before, token, two);
            },
        }
    }
}

/// Every client that comes takes one token, and nothing else does.
pub proof fn each_client_takes_one_token(lobby: LobbyView, changes: Seq<Change>)
    requires
        lobby.wf(),
        lobby.admits_all(changes),
    ensures
        lobby.changed_by_all(changes).unique_token.0 == lobby.unique_token.0 + welcomes(changes),
    decreases changes.len(),
{
    if changes.len() > 0 {
        each_client_takes_one_token(lobby, changes.drop_last());
    }
}

/// The invariant holds in every state that a lobby can come to.
pub proof fn invariant_holds_always(lobby: LobbyView, changes: Seq<Change>)
    requires
        lobby.wf(),
        lobby.admits_all(changes),
    ensures
        lobby.changed_by_all(changes).wf(),
    decreases changes.len(),
{
    if changes.len() > 0 {
        let before = lobby.changed_by_all(changes.drop_last());
        invariant_holds_always(lobby, changes.drop_last());
        match changes.last() {
            Change::Welcome => welcome_keeps_wf(before),
            Change::Seat => seat_keeps_wf(before, before.joining->0),
            Change::Leave(token) => leave_keeps_wf(before, token),
        }
    }
}

/// The empty lobby satisfies the invariant.
pub proof fn empty_lobby_is_wf()
    ensures
        LobbyView::empty().wf(),
{
}

/// Tokens are handed out in increasing order, so that no two clients ever get the
/// same one, and none gets the token of the listening socket.
pub proof fn tokens_are_never_reused(lobby: LobbyView, changes: Seq<Change>)
    requires
        lobby.wf(),
        lobby.admits_all(changes),
    ensures
        lobby.changed_by_all(changes).unique_token.0 >= lobby.unique_token.0,
        changes.contains(Change::Welcome) ==> lobby.changed_by_all(changes).unique_token.0
            > lobby.unique_token.0,
        lobby.unique_token.0 > SERVER,
    decreases changes.len(),
{
    if changes.len() > 0 {
        tokens_are_never_reused(lobby, changes.drop_last());
        if changes.contains(Change::Welcome) && changes.last() != Change::Welcome {
            let k = choose|k: int| 0 <= k < changes.len() && changes[k] == Change::Welcome;
            assert(changes.drop_last()[k] == Change::Welcome);
        }
    }
}

/// A client that is gone never comes back, under its token.
pub proof fn gone_clients_stay_gone(lobby: LobbyView, changes: Seq<Change>, token: Token)
    requires
        lobby.wf(),
        lobby.admits_all(changes),
        lobby.issued(token),
        !lobby.connected(token),
        lobby.joining != Some(token),
    ensures
        !lobby.changed_by_all(changes).connected(token),
        lobby.changed_by_all(changes).joining != Some(token),
    decreases changes.len(),
{
    if changes.len() > 0 {
        let before = lobby.changed_by_all(changes.drop_last());
        gone_clients_stay_gone(lobby, changes.drop_last(), token);
        tokens_are_never_reused(lobby, changes.drop_last());
        invariant_holds_always(lobby, changes.drop_last());
        stale_prefix_is_least(before.unpaired, before.connections);
    }
}

/// As many clients are connected as have come and not left.
pub proof fn connected_clients_are_counted(changes: Seq<Change>)
    requires
        LobbyView::empty().admits_all(changes),
    ensures
        LobbyView::empty().changed_by_all(changes).connections.dom().finite(),
        LobbyView::empty().changed_by_all(changes).connections.dom().len() + departures(changes)
            == arrivals(changes),
    decreases changes.len(),
{
    if changes.len() > 0 {
        let before = LobbyView::empty().changed_by_all(changes.drop_last());
        connected_clients_are_counted(changes.drop_last());
        empty_lobby_is_wf();
        invariant_holds_always(LobbyView::empty(), changes.drop_last());
        stale_prefix_is_least(before.unpaired, before.connections);
        if changes.last() is Seat {
            let token = before.joining->0;
            assert(!before.connected(token));
            assert(before.after_seat(token).connections.dom() =~= before.connections.dom().insert(
                token.0,
            ));
        }
    }
}

} // verus!
