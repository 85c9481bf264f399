//! Who is connected, who plays with whom, and who waits for a partner.

use std::collections::{HashMap, VecDeque};

use vstd::prelude::*;
use vstd::std_specs::hash::*;

use crate::token::{next, Token, SERVER};

verus! {

broadcast use group_hash_axioms;

/// What is kept of one connection.
#[derive(Clone, Copy, Debug, PartialEq, Eq, Structural)]
pub struct ConnectionEntry {
    /// The client that this one was last paired with, which may be gone.
    pub assoc_token: Option<Token>,
}

/// The number of tokens at the head of `unpaired` whose clients are gone.
pub open spec fn stale_prefix(
    unpaired: Seq<Token>,
    connections: Map<usize, ConnectionEntry>,
) -> nat
    decreases unpaired.len(),
{
    if unpaired.len() == 0 || connections.contains_key(unpaired[0].0) {
        0
    } else {
        1 + stale_prefix(unpaired.drop_first(), connections)
    }
}

/// The mathematical state of a lobby.
#[verifier::ext_equal]
pub struct LobbyView {
    /// The token that the next client gets.
    pub unique_token: Token,
    /// The client that has a token but is not connected yet.
    pub joining: Option<Token>,
    /// The connected clients, by the numbers of their tokens.
    pub connections: Map<usize, ConnectionEntry>,
    /// The clients to be paired, in order; some of them may be gone.
    pub unpaired: Seq<Token>,
}

impl LobbyView {
    /// The lobby before anybody has come.
    pub open spec fn empty() -> LobbyView {
        LobbyView {
            unique_token: Token((SERVER + 1) as usize),
            joining: None,
            connections: Map::empty(),
            unpaired: Seq::empty(),
        }
    }

    pub open spec fn connected(self, token: Token) -> bool {
        self.connections.contains_key(token.0)
    }

    /// The client that a connected client was last paired with.
    pub open spec fn assoc(self, token: Token) -> Option<Token> {
        self.connections[token.0].assoc_token
    }

    /// The client that a connected client plays with.
    pub open spec fn peer(self, token: Token) -> Option<Token> {
        if self.connected(token) {
            match self.assoc(token) {
                Some(peer) => if self.connected(peer) {
                    Some(peer)
                } else {
                    None
                },
                None => None,
            }
        } else {
            None
        }
    }

    /// A connected client that waits for a partner.
    pub open spec fn waiting(self, token: Token) -> bool {
        self.connected(token) && self.unpaired.contains(token)
    }

    /// A token that some client has or had.
    pub open spec fn issued(self, token: Token) -> bool {
        SERVER < token.0 < self.unique_token.0
    }

    /// A token that nothing refers to.
    pub open spec fn unused(self, token: Token) -> bool {
        &&& !self.connected(token)
        &&& !self.unpaired.contains(token)
        &&& forall|other: Token| #[trigger]
            self.connected(other) ==> self.assoc(other) != Some(token)
    }

    /// Every token in the lobby has been handed out to a client.
    pub open spec fn tokens_are_issued(self) -> bool {
        &&& SERVER < self.unique_token.0
        &&& forall|token: Token| #[trigger] self.connected(token) ==> self.issued(token)
        &&& forall|token: Token| #[trigger]
            self.connected(token) ==> (self.assoc(token) matches Some(assoc) ==> self.issued(assoc))
        &&& forall|i: int|
            0 <= i < self.unpaired.len() ==> self.issued(#[trigger] self.unpaired[i])
    }

    /// Clients play with each other, and never with themselves.
    pub open spec fn peers_are_mutual(self) -> bool {
        forall|token: Token| #[trigger]
            self.peer(token) matches Some(peer) ==> peer != token && self.peer(peer) == Some(token)
    }

    /// A connected client stands in the queue once or not at all.
    pub open spec fn queued_once(self) -> bool {
        forall|i: int, j: int|
            0 <= i < j < self.unpaired.len() && #[trigger] self.unpaired[i] == #[trigger] self.unpaired[j]
                ==> !self.connected(self.unpaired[i])
    }

    /// A connected client waits exactly if it plays with nobody.
    pub open spec fn waits_or_plays(self) -> bool {
        forall|token: Token| #[trigger]
            self.connected(token) ==> (self.waiting(token) <==> self.peer(token) is None)
    }

    /// What every lobby satisfies at every moment.
    pub open spec fn wf(self) -> bool {
        &&& self.tokens_are_issued()
        &&& self.peers_are_mutual()
        &&& self.queued_once()
        &&& self.waits_or_plays()
        &&& self.joining matches Some(token) ==> self.issued(token) && self.unused(token)
    }

    /// The lobby once a client has come and been given a token.
    pub open spec fn after_welcome(self) -> LobbyView {
        LobbyView {
            unique_token: Token((self.unique_token.0 + 1) as usize),
            joining: Some(self.unique_token),
            ..self
        }
    }

    /// The client that has waited longest, if anybody waits.
    pub open spec fn first_waiting(self) -> Option<Token> {
        let stale = stale_prefix(self.unpaired, self.connections);
        if stale < self.unpaired.len() {
            Some(self.unpaired[stale as int])
        } else {
            None
        }
    }

    /// The lobby once the client `token` has been connected: paired with the client
    /// that has waited longest, or else waiting itself.
    pub open spec fn after_seat(self, token: Token) -> LobbyView {
        match self.first_waiting() {
            Some(partner) => LobbyView {
                joining: None,
                connections: self.connections.insert(
                    partner.0,
                    ConnectionEntry { assoc_token: Some(token) },
                ).insert(token.0, ConnectionEntry { assoc_token: Some(partner) }),
                unpaired: self.unpaired.skip(
                    stale_prefix(self.unpaired, self.connections) as int + 1,
                ),
                ..self
            },
            None => LobbyView {
                joining: None,
                connections: self.connections.insert(
                    token.0,
                    ConnectionEntry { assoc_token: None },
                ),
                unpaired: seq![token],
                ..self
            },
        }
    }

    /// The lobby once the client `token` is gone.
    pub open spec fn after_leave(self, token: Token) -> LobbyView {
        LobbyView {
            connections: self.connections.remove(token.0),
            unpaired: match self.assoc(token) {
                Some(assoc) => self.unpaired.push(assoc),
                None => self.unpaired,
            },
            ..self
        }
    }
}

/// The clients before the stale prefix's end are gone, and the one there is not.
pub proof fn stale_prefix_is_least(unpaired: Seq<Token>, connections: Map<usize, ConnectionEntry>)
    ensures
        stale_prefix(unpaired, connections) <= unpaired.len(),
        forall|i: int|
            0 <= i < stale_prefix(unpaired, connections) ==> !connections.contains_key(
                #[trigger] unpaired[i].0,
            ),
        stale_prefix(unpaired, connections) < unpaired.len() ==> connections.contains_key(
            unpaired[stale_prefix(unpaired, connections) as int].0,
        ),
    decreases unpaired.len(),
{
    if unpaired.len() > 0 && !connections.contains_key(unpaired[0].0) {
        let rest = unpaired.drop_first();
        stale_prefix_is_least(rest, connections);
        assert forall|i: int| 0 <= i < stale_prefix(unpaired, connections) implies
            !connections.contains_key(#[trigger] unpaired[i].0) by {
            if i > 0 {
                assert(unpaired[i] == rest[i - 1]);
            }
        }
    }
}

/// Giving a client a token keeps the invariant.
pub proof fn welcome_keeps_wf(lobby: LobbyView)
    requires
        lobby.wf(),
        lobby.unique_token.0 < usize::MAX,
    ensures
        lobby.after_welcome().wf(),
{
    let after = lobby.after_welcome();
    let token = lobby.unique_token;
    assert forall|t: Token| #[trigger] after.peer(t) == lobby.peer(t) by {}
    assert forall|t: Token| #[trigger] after.connected(t) implies (after.waiting(t) <==> after.peer(
        t,
    ) is None) by {
        assert(lobby.connected(t));
    }
    assert(!lobby.connected(token));
    assert forall|t: Token| #[trigger] after.connected(t) implies after.issued(t) && (after.assoc(t)
        matches Some(assoc) ==> after.issued(assoc) && assoc != token) by {
        assert(lobby.connected(t));
    }
}

/// Connecting a client keeps the invariant.
pub proof fn seat_keeps_wf(lobby: LobbyView, token: Token)
    requires
        lobby.wf(),
        lobby.joining == Some(token),
    ensures
        lobby.after_seat(token).wf(),
{
    let after = lobby.after_seat(token);
    stale_prefix_is_least(lobby.unpaired, lobby.connections);
    let stale = stale_prefix(lobby.unpaired, lobby.connections) as int;
    assert(!lobby.connected(token));
    match lobby.first_waiting() {
        Some(partner) => {
            assert(lobby.unpaired[stale] == partner);
            assert(lobby.unpaired.contains(partner));
            assert(lobby.waiting(partner));
            assert(lobby.peer(partner) is None);
            assert(partner != token);
            assert(after.peer(token) == Some(partner));
            assert(after.peer(partner) == Some(token));
            // Everybody else is as before.
            assert forall|t: Token| t != token && t != partner implies #[trigger] after.peer(t)
                == lobby.peer(t) by {
                if lobby.connected(t) {
                    assert(lobby.assoc(t) != Some(token));
                    if lobby.assoc(t) == Some(partner) {
                        assert(lobby.peer(t) == Some(partner));
                        assert(false);
                    }
                }
            }
            assert forall|i: int| 0 <= i < after.unpaired.len() implies #[trigger] after.unpaired[i]
                == lobby.unpaired[i + stale + 1] by {}
            assert forall|t: Token| #[trigger] after.connected(t) implies (after.waiting(t)
                <==> after.peer(t) is None) by {
                if t == token {
                    assert(!lobby.unpaired.contains(t));
                    assert(!after.unpaired.contains(t));
                } else if t == partner {
                    assert(!after.unpaired.contains(t));
                } else {
                    assert(lobby.connected(t));
                    if lobby.unpaired.contains(t) {
                        let k = choose|k: int|
                            0 <= k < lobby.unpaired.len() && lobby.unpaired[k] == t;
                        assert(k > stale);
                        assert(after.unpaired[k - stale - 1] == t);
                        assert(after.unpaired.contains(t));
                    }
                }
            }
            assert forall|t: Token| #[trigger] after.connected(t) implies after.issued(t) && (
            after.assoc(t) matches Some(assoc) ==> after.issued(assoc)) by {
                assert(lobby.connected(t) || t == token);
            }
        },
        None => {
            assert forall|t: Token| #[trigger] lobby.connected(t) implies !lobby.waiting(t) by {}
            assert forall|t: Token| t != token implies #[trigger] after.peer(t) == lobby.peer(t) by {
                if lobby.connected(t) {
                    assert(lobby.assoc(t) != Some(token));
                }
            }
            assert(after.unpaired[0] == token);
            assert(after.unpaired.contains(token));
            assert forall|t: Token| #[trigger] after.connected(t) implies after.issued(t) && (
            after.assoc(t) matches Some(assoc) ==> after.issued(assoc)) by {
                assert(lobby.connected(t) || t == token);
            }
            assert forall|t: Token| #[trigger] after.connected(t) implies (after.waiting(t)
                <==> after.peer(t) is None) by {
                if t != token {
                    assert(lobby.connected(t));
                    assert(!lobby.waiting(t));
                    assert(!after.unpaired.contains(t));
                }
            }
        },
    }
}

/// A client's leaving keeps the invariant.
pub proof fn leave_keeps_wf(lobby: LobbyView, token: Token)
    requires
        lobby.wf(),
        lobby.connected(token),
    ensures
        lobby.after_leave(token).wf(),
{
    let after = lobby.after_leave(token);
    assert forall|t: Token| #[trigger] after.connected(t) == (lobby.connected(t) && t != token) by {}
    assert forall|t: Token| #[trigger] after.connected(t) implies after.peer(t) == (if lobby.peer(t)
        == Some(token) {
        None
    } else {
        lobby.peer(t)
    }) by {}
    assert forall|t: Token| #[trigger] after.connected(t) implies (lobby.peer(t) == Some(token)
        <==> lobby.assoc(token) == Some(t)) by {
        assert(lobby.peer(t) == Some(token) ==> lobby.peer(token) == Some(t));
        assert(lobby.assoc(token) == Some(t) ==> lobby.peer(token) == Some(t));
    }
    assert forall|i: int| 0 <= i < lobby.unpaired.len() implies #[trigger] after.unpaired[i]
        == lobby.unpaired[i] by {}
    assert forall|t: Token| #[trigger] after.connected(t) implies (after.unpaired.contains(t) <==> (
    lobby.unpaired.contains(t) || lobby.assoc(token) == Some(t))) by {
        if lobby.unpaired.contains(t) {
            let k = choose|k: int| 0 <= k < lobby.unpaired.len() && lobby.unpaired[k] == t;
            assert(after.unpaired[k] == t);
        }
        if lobby.assoc(token) == Some(t) {
            assert(after.unpaired[lobby.unpaired.len() as int] == t);
        }
    }
    assert forall|t: Token| #[trigger] after.connected(t) implies (after.waiting(t) <==> after.peer(
        t,
    ) is None) by {
        assert(lobby.connected(t));
    }
    assert(after.queued_once()) by {
        assert forall|i: int, j: int|
            0 <= i < j < after.unpaired.len() && #[trigger] after.unpaired[i]
                == #[trigger] after.unpaired[j] implies !after.connected(after.unpaired[i]) by {
            if j == lobby.unpaired.len() {
                let t = after.unpaired[j];
                if after.connected(t) {
                    assert(lobby.unpaired[i] == t);
                    assert(lobby.connected(t));
                    assert(lobby.waiting(t));
                    assert(lobby.peer(t) == Some(token));
                    assert(false);
                }
            } else {
                assert(lobby.unpaired[i] == lobby.unpaired[j]);
            }
        }
    }
}

/// The clients of the server.
pub struct Lobby {
    unique_token: Token,
    joining: Option<Token>,
    connections: HashMap<usize, ConnectionEntry>,
    unpaired: VecDeque<Token>,
}

impl View for Lobby {
    type V = LobbyView;

    closed spec fn view(&self) -> LobbyView {
        LobbyView {
            unique_token: self.unique_token,
            joining: self.joining,
            connections: self.connections@,
            unpaired: self.unpaired@,
        }
    }
}

/// A client that has been connected.
#[derive(Clone, Copy, Debug, PartialEq, Eq, Structural)]
pub struct Seating {
    pub token: Token,
    /// The client that it now plays with; nobody if it has to wait.
    pub partner: Option<Token>,
}

impl Lobby {
    /// Opens a lobby that nobody has come to yet.
    pub fn new() -> (lobby: Lobby)
        ensures
            lobby@ == LobbyView::empty(),
            lobby@.wf(),
            lobby@.unique_token.0 == SERVER + 1,
            lobby@.joining is None,
            lobby@.connections == Map::<usize, ConnectionEntry>::empty(),
            lobby@.unpaired == Seq::<Token>::empty(),
    {
        Lobby {
            unique_token: Token(SERVER + 1),
            joining: None,
            connections: HashMap::new(),
            unpaired: VecDeque::new(),
        }
    }

    /// Tells whether there is a token left for another client.
    pub fn has_tokens(&self) -> (left: bool)
        ensures
            left == (self@.unique_token.0 < usize::MAX),
    {
        self.unique_token.0 < usize::MAX
    }

    /// Tells which client has a token but is not connected yet.
    pub fn joining(&self) -> (joining: Option<Token>)
        ensures
            joining == self@.joining,
    {
        self.joining
    }

    /// Tells whether a client is connected.
    pub fn is_connected(&self, token: Token) -> (connected: bool)
        ensures
            connected == self@.connected(token),
            connected == self@.connections.contains_key(token.0),
    {
        self.connections.contains_key(&token.0)
    }

    /// Finds the client that another one plays with.
    pub fn peer(&self, token: Token) -> (peer: Option<Token>)
        ensures
            peer == self@.peer(token),
            forall|other: Token|
                peer == Some(other) <==> {
                    &&& self@.connections.contains_key(token.0)
                    &&& self@.connections[token.0].assoc_token == Some(other)
                    &&& #[trigger] self@.connections.contains_key(other.0)
                },
    {
        match self.connections.get(&token.0) {
            Some(entry) => match entry.assoc_token {
                Some(assoc) => if self.connections.contains_key(&assoc.0) {
                    Some(assoc)
                } else {
                    None
                },
                None => None,
            },
            None => None,
        }
    }

    /// Gives a token to a client that has come.
    pub fn welcome(&mut self) -> (token: Token)
        requires
            old(self)@.wf(),
            old(self)@.unique_token.0 < usize::MAX,
        ensures
            final(self)@.wf(),
            final(self)@ == old(self)@.after_welcome(),
            token == old(self)@.unique_token,
            final(self)@.unique_token.0 == token.0 + 1,
            final(self)@.joining == Some(token),
            final(self)@.connections == old(self)@.connections,
            final(self)@.unpaired == old(self)@.unpaired,
            !final(self)@.connected(token),
    {
        proof {
            welcome_keeps_wf(self@);
        }
        let token = next(&mut self.unique_token);
        self.joining = Some(token);
        token
    }

    /// Removes and returns the client that has waited longest, with those before it
    /// in the queue that are gone.
    fn call_first_waiting(&mut self) -> (partner: Option<Token>)
        ensures
            partner == old(self)@.first_waiting(),
            final(self)@ == (LobbyView {
                unpaired: match partner {
                    Some(_) => old(self)@.unpaired.skip(
                        stale_prefix(old(self)@.unpaired, old(self)@.connections) as int + 1,
                    ),
                    None => Seq::empty(),
                },
                ..old(self)@
            }),
    {
        let ghost connections = self.connections@;
        let ghost unpaired = self.unpaired@;
        let ghost mut popped: int = 0;
        assert(unpaired.skip(0) =~= unpaired);
        while self.unpaired.len() > 0
            invariant
                0 <= popped <= unpaired.len(),
                self@ == (LobbyView { unpaired: unpaired.skip(popped), ..old(self)@ }),
                old(self)@.connections == connections,
                old(self)@.unpaired == unpaired,
                stale_prefix(unpaired, connections) == popped + stale_prefix(
                    unpaired.skip(popped),
                    connections,
                ),
            decreases self.unpaired@.len(),
        {
            let ghost before = self.unpaired@;
            match self.unpaired.pop_front() {
                Some(token) => {
                    proof {
                        assert(before.drop_first() =~= unpaired.skip(popped + 1));
                        popped = popped + 1;
                    }
                    assert(self.unpaired@ =~= unpaired.skip(popped));
                    if self.connections.contains_key(&token.0) {
                        return Some(token);
                    }
                },
                None => {},
            }
        }
        assert(unpaired.skip(popped) =~= Seq::empty());
        None
    }

    /// Connects the client that has been given a token.  It is paired with the client
    /// that has waited longest; if nobody waits, it waits.
    pub fn seat(&mut self) -> (seating: Seating)
        requires
            old(self)@.wf(),
            old(self)@.joining is Some,
        ensures
            final(self)@.wf(),
            Some(seating.token) == old(self)@.joining,
            seating.partner == old(self)@.first_waiting(),
            final(self)@ == old(self)@.after_seat(seating.token),
            final(self)@.unique_token == old(self)@.unique_token,
            final(self)@.joining is None,
            match seating.partner {
                Some(partner) => {
                    &&& final(self)@.connections == old(self)@.connections.insert(
                        partner.0,
                        ConnectionEntry { assoc_token: Some(seating.token) },
                    ).insert(seating.token.0, ConnectionEntry { assoc_token: Some(partner) })
                    &&& old(self)@.connections.contains_key(partner.0)
                    &&& exists|i: int|
                        {
                            &&& 0 <= i < old(self)@.unpaired.len()
                            &&& #[trigger] old(self)@.unpaired[i] == partner
                            &&& final(self)@.unpaired == old(self)@.unpaired.skip(i + 1)
                            &&& forall|j: int|
                                0 <= j < i ==> !old(self)@.connections.contains_key(
                                    (#[trigger] old(self)@.unpaired[j]).0,
                                )
                        }
                },
                None => {
                    &&& final(self)@.connections == old(self)@.connections.insert(
                        seating.token.0,
                        ConnectionEntry { assoc_token: None },
                    )
                    &&& final(self)@.unpaired == seq![seating.token]
                    &&& forall|j: int|
                        0 <= j < old(self)@.unpaired.len()
                            ==> !old(self)@.connections.contains_key(
                            (#[trigger] old(self)@.unpaired[j]).0,
                        )
                },
            },
    {
        let token = match self.joining {
            Some(token) => token,
            None => self.unique_token,
        };
        proof {
            seat_keeps_wf(self@, token);
            stale_prefix_is_least(self@.unpaired, self@.connections);
        }
        let partner = self.call_first_waiting();
        match partner {
            Some(assoc) => {
                self.connections.insert(assoc.0, ConnectionEntry { assoc_token: Some(token) });
            },
            None => {
                self.unpaired.push_back(token);
            },
        }
        self.connections.insert(token.0, ConnectionEntry { assoc_token: partner });
        self.joining = None;
        assert(self@ =~= old(self)@.after_seat(token));
        Seating { token, partner }
    }

    /// Forgets a client whose connection is over.  The client that it was last paired
    /// with goes to the end of the queue.
    pub fn leave(&mut self, token: Token)
        requires
            old(self)@.wf(),
            old(self)@.connected(token),
        ensures
            final(self)@.wf(),
            final(self)@ == old(self)@.after_leave(token),
            final(self)@.unique_token == old(self)@.unique_token,
            final(self)@.joining == old(self)@.joining,
            final(self)@.connections == old(self)@.connections.remove(token.0),
            match old(self)@.connections[token.0].assoc_token {
                Some(assoc) => final(self)@.unpaired == old(self)@.unpaired.push(assoc),
                None => final(self)@.unpaired == old(self)@.unpaired,
            },
    {
        proof {
            leave_keeps_wf(self@, token);
        }
        match self.connections.get(&token.0) {
            Some(entry) => match entry.assoc_token {
                Some(assoc) => {
                    self.unpaired.push_back(assoc);
                },
                None => {},
            },
            None => {},
        }
        self.connections.remove(&token.0);
        assert(self@ =~= old(self)@.after_leave(token));
    }
}

} // verus!
