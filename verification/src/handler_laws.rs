//! Laws on whole events: what a [`ConnectionHandler`] does from the moment it
//! takes an event up, whatever the outcomes of its operations are.
//!
//! [`ConnectionHandler`]: crate::handler::ConnectionHandler

use vstd::prelude::*;

use crate::handler::{HandlerView, Phase, Reply, Verdict, MESSAGE_LEN};
use crate::token::{ErrorClass, Event, Token};

verus! {

impl HandlerView {
    /// The handler once it has been told `replies`, one after the other.
    pub open spec fn run(self, replies: Seq<Reply>) -> HandlerView
        decreases replies.len(),
    {
        if replies.len() == 0 {
            self
        } else {
            self.run(replies.drop_last()).after(replies.last())
        }
    }

    /// Whether each of `replies` is an outcome of the operation that the handler
    /// waits for when it is told.
    pub open spec fn can_be_told(self, replies: Seq<Reply>) -> bool
        decreases replies.len(),
    {
        replies.len() == 0 || {
            &&& self.can_be_told(replies.drop_last())
            &&& self.run(replies.drop_last()).awaits(replies.last())
        }
    }
}

/// Everything that was read.
pub open spec fn payload(replies: Seq<Reply>) -> Seq<u8>
    decreases replies.len(),
{
    if replies.len() == 0 {
        Seq::empty()
    } else {
        match replies.last() {
            Reply::Received(Ok(bytes)) => payload(replies.drop_last()) + bytes,
            _ => payload(replies.drop_last()),
        }
    }
}

pub open spec fn is_interruption(reply: Reply) -> bool {
    reply == Reply::Probed(Err(ErrorClass::Interrupted))
}

/// How often an empty write was interrupted.
pub open spec fn interruptions(replies: Seq<Reply>) -> nat
    decreases replies.len(),
{
    if replies.len() == 0 {
        0
    } else {
        interruptions(replies.drop_last()) + if is_interruption(replies.last()) {
            1nat
        } else {
            0nat
        }
    }
}

/// How many messages were handed to the peer's connection.
pub open spec fn deliveries(replies: Seq<Reply>) -> nat
    decreases replies.len(),
{
    if replies.len() == 0 {
        0
    } else {
        deliveries(replies.drop_last()) + if replies.last() == Reply::Forwarded {
            1nat
        } else {
            0nat
        }
    }
}

/// Whether `reply` is an error that a connection does not survive.
pub open spec fn is_fatal(reply: Reply) -> bool {
    match reply {
        Reply::Probed(Err(error)) => error == ErrorClass::Other,
        Reply::Rearmed(Err(_)) => true,
        Reply::Received(Err(error)) => error == ErrorClass::Other,
        _ => false,
    }
}

/// Whether `reply` says that the client has closed the connection.
pub open spec fn is_end_of_stream(reply: Reply) -> bool {
    reply matches Reply::Received(Ok(bytes)) && bytes.len() == 0
}

/// How far a handler has come.
spec fn progress(phase: Phase, received: Seq<u8>) -> nat {
    match phase {
        Phase::Probing => 0,
        Phase::Rearming => 1,
        Phase::Reading => 2 + received.len(),
        Phase::Forwarding => 4,
        Phase::Finished(_) => 5,
    }
}

/// What holds after every beginning of an event.
proof fn lemma_run(event: Event, peer: Option<Token>, replies: Seq<Reply>)
    requires
        HandlerView::begin(event, peer).can_be_told(replies),
    ensures
        ({
            let start = HandlerView::begin(event, peer);
            let handler = start.run(replies);
            &&& handler.wf()
            &&& handler.token == event.token
            &&& handler.readable == event.readable
            &&& handler.peer == if interruptions(replies) > 0 {
                None
            } else {
                peer
            }
            &&& handler.received == payload(replies)
            &&& deliveries(replies) <= 1
            &&& deliveries(replies) == 1 ==> {
                &&& handler.phase == Phase::Finished(Verdict::Keep)
                &&& handler.peer is Some
                &&& payload(replies).len() == MESSAGE_LEN
            }
            &&& handler.phase == Phase::Finished(Verdict::Keep) && handler.peer is Some
                && payload(replies).len() == MESSAGE_LEN ==> deliveries(replies) == 1
            &&& handler.phase matches Phase::Finished(verdict) ==> (verdict.ends()
                ==> payload(replies).len() < MESSAGE_LEN)
            &&& replies.len() <= interruptions(replies) + progress(handler.phase, handler.received)
            &&& !event.readable ==> payload(replies).len() == 0
        }),
    decreases replies.len(),
{
    if replies.len() > 0 {
        lemma_run(event, peer, replies.drop_last());
    }
}

/// One more reply is told to the handler that the earlier replies led to.
proof fn lemma_push(start: HandlerView, replies: Seq<Reply>, reply: Reply)
    requires
        start.can_be_told(replies.push(reply)),
    ensures
        start.can_be_told(replies),
        start.run(replies).awaits(reply),
        start.run(replies.push(reply)) == start.run(replies).after(reply),
{
    assert(replies.push(reply).drop_last() =~= replies);
}

/// An event is taken up by what it reports, whether or not the client has a peer: by an
/// empty write if the connection can be written, else by a read if it can be read.  There
/// is nothing to do exactly if it can be neither written nor read.
pub proof fn begins_with_what_is_reported(event: Event, peer: Option<Token>)
    ensures
        HandlerView::begin(event, peer).phase == Phase::Probing <==> event.writable,
        HandlerView::begin(event, peer).phase == Phase::Reading <==> event.readable
            && !event.writable,
        HandlerView::begin(event, peer).phase is Finished <==> !event.readable && !event.writable,
        HandlerView::begin(event, peer).phase != Phase::Finished(Verdict::Close),
        HandlerView::begin(event, peer).phase != Phase::Finished(Verdict::Fail),
        HandlerView::begin(event, peer).token == event.token,
        HandlerView::begin(event, peer).peer == peer,
        HandlerView::begin(event, peer).received.len() == 0,
{
}

/// A handler that has not finished can be told every outcome of the operation that it
/// waits for, and of no other.  A read may bring any bytes for which there is room.
pub proof fn every_outcome_can_be_told(handler: HandlerView)
    requires
        handler.wf(),
    ensures
        forall|result: Result<(), ErrorClass>|
            #[trigger] handler.awaits(Reply::Probed(result)) <==> handler.phase == Phase::Probing,
        forall|result: Result<(), ErrorClass>|
            #[trigger] handler.awaits(Reply::Rearmed(result)) <==> handler.phase == Phase::Rearming,
        forall|bytes: Seq<u8>|
            #[trigger] handler.awaits(Reply::Received(Ok(bytes))) <==> handler.phase == Phase::Reading
                && handler.received.len() + bytes.len() <= MESSAGE_LEN,
        forall|error: ErrorClass|
            #[trigger] handler.awaits(Reply::Received(Err(error))) <==> handler.phase == Phase::Reading,
        handler.awaits(Reply::Forwarded) <==> handler.phase == Phase::Forwarding,
{
}

/// Once an empty write has succeeded, the connection is registered for reading alone.
/// Only then is it registered again.
pub proof fn registers_again_after_writing(
    event: Event,
    peer: Option<Token>,
    replies: Seq<Reply>,
    reply: Reply,
)
    requires
        HandlerView::begin(event, peer).can_be_told(replies.push(reply)),
    ensures
        HandlerView::begin(event, peer).run(replies.push(reply)).phase == Phase::Rearming
            <==> reply matches Reply::Probed(Ok(_)),
{
    lemma_push(HandlerView::begin(event, peer), replies, reply);
    lemma_run(event, peer, replies);
}

/// An empty write that was interrupted is tried again.
pub proof fn tries_interrupted_writes_again(
    event: Event,
    peer: Option<Token>,
    replies: Seq<Reply>,
    reply: Reply,
)
    requires
        HandlerView::begin(event, peer).can_be_told(replies.push(reply)),
    ensures
        HandlerView::begin(event, peer).run(replies.push(reply)).phase == Phase::Probing
            <==> is_interruption(reply),
{
    lemma_push(HandlerView::begin(event, peer), replies, reply);
    lemma_run(event, peer, replies);
}

/// When the writing half of an event is over, a connection that was reported readable is
/// read from, and the event of any other ends with the connection kept.
pub proof fn turns_from_writing_to_reading(
    event: Event,
    peer: Option<Token>,
    replies: Seq<Reply>,
    reply: Reply,
)
    requires
        HandlerView::begin(event, peer).can_be_told(replies.push(reply)),
        (reply matches Reply::Rearmed(Ok(_))) || reply == Reply::Probed(
            Err(ErrorClass::WouldBlock),
        ),
    ensures
        event.readable ==> HandlerView::begin(event, peer).run(replies.push(reply)).phase
            == Phase::Reading,
        !event.readable ==> HandlerView::begin(event, peer).run(replies.push(reply)).phase
            == Phase::Finished(Verdict::Keep),
{
    lemma_push(HandlerView::begin(event, peer), replies, reply);
    lemma_run(event, peer, replies);
}

/// A client is read from until its message is whole.  A whole message is passed on if the
/// client had a peer and no empty write was interrupted, and dropped otherwise.
pub proof fn reads_until_the_message_is_whole(
    event: Event,
    peer: Option<Token>,
    replies: Seq<Reply>,
    bytes: Seq<u8>,
)
    requires
        HandlerView::begin(event, peer).can_be_told(replies.push(Reply::Received(Ok(bytes)))),
        bytes.len() > 0,
    ensures
        ({
            let handler = HandlerView::begin(event, peer).run(
                replies.push(Reply::Received(Ok(bytes))),
            );
            &&& handler.received == payload(replies) + bytes
            &&& handler.phase == Phase::Reading <==> payload(replies).len() + bytes.len()
                < MESSAGE_LEN
            &&& handler.phase == Phase::Forwarding <==> payload(replies).len() + bytes.len()
                == MESSAGE_LEN && peer is Some && interruptions(replies) == 0
            &&& handler.phase == Phase::Finished(Verdict::Keep) <==> payload(replies).len()
                + bytes.len() == MESSAGE_LEN && (peer is None || interruptions(replies) > 0)
        }),
{
    lemma_push(HandlerView::begin(event, peer), replies, Reply::Received(Ok(bytes)));
    lemma_run(event, peer, replies);
}

/// A connection that has run dry is kept, and so is one whose message was passed on.
pub proof fn keeps_connections_that_come_back_later(
    event: Event,
    peer: Option<Token>,
    replies: Seq<Reply>,
    reply: Reply,
)
    requires
        HandlerView::begin(event, peer).can_be_told(replies.push(reply)),
        reply == Reply::Forwarded || reply == Reply::Received(Err(ErrorClass::WouldBlock)) || reply
            == Reply::Received(Err(ErrorClass::Interrupted)),
    ensures
        HandlerView::begin(event, peer).run(replies.push(reply)).phase == Phase::Finished(
            Verdict::Keep,
        ),
{
    lemma_push(HandlerView::begin(event, peer), replies, reply);
    lemma_run(event, peer, replies);
}

/// A readable event never ends with the connection kept, or closed, unless the connection
/// was read from.
pub proof fn readable_events_are_read(event: Event, peer: Option<Token>, replies: Seq<Reply>)
    requires
        HandlerView::begin(event, peer).can_be_told(replies),
        event.readable,
        HandlerView::begin(event, peer).run(replies).phase matches Phase::Finished(verdict)
            && verdict != Verdict::Fail,
    ensures
        exists|i: int| 0 <= i < replies.len() && #[trigger] replies[i] is Received,
{
    let last = replies.last();
    assert(replies.len() > 0);
    let earlier = replies.drop_last();
    assert(earlier.push(last) =~= replies);
    lemma_push(HandlerView::begin(event, peer), earlier, last);
    lemma_run(event, peer, earlier);
    if last is Forwarded {
        lemma_whole_messages_were_read(earlier);
        let i = choose|i: int| 0 <= i < earlier.len() && #[trigger] earlier[i] is Received;
        assert(replies[i] is Received);
    } else {
        assert(replies[replies.len() - 1] is Received);
    }
}

proof fn lemma_whole_messages_were_read(replies: Seq<Reply>)
    requires
        payload(replies).len() > 0,
    ensures
        exists|i: int| 0 <= i < replies.len() && #[trigger] replies[i] is Received,
    decreases replies.len(),
{
    if replies.last() is Received {
        assert(replies[replies.len() - 1] is Received);
    } else {
        let earlier = replies.drop_last();
        lemma_whole_messages_were_read(earlier);
        let i = choose|i: int| 0 <= i < earlier.len() && #[trigger] earlier[i] is Received;
        assert(replies[i] is Received);
    }
}

/// A handler keeps its invariant, and its client, from the beginning to the end of
/// an event.
pub proof fn invariant_holds_throughout(event: Event, peer: Option<Token>, replies: Seq<Reply>)
    requires
        HandlerView::begin(event, peer).can_be_told(replies),
    ensures
        HandlerView::begin(event, peer).run(replies).wf(),
        HandlerView::begin(event, peer).run(replies).token == event.token,
{
    lemma_run(event, peer, replies);
}

/// What is passed on is a whole message, it is exactly what was read during the
/// event, and it goes to the peer that the client had when the event was taken up.
pub proof fn forwards_exactly_what_was_read(event: Event, peer: Option<Token>, replies: Seq<Reply>)
    requires
        HandlerView::begin(event, peer).can_be_told(replies),
        HandlerView::begin(event, peer).run(replies).phase == Phase::Forwarding,
    ensures
        HandlerView::begin(event, peer).run(replies).received == payload(replies),
        payload(replies).len() == MESSAGE_LEN,
        peer is Some,
        HandlerView::begin(event, peer).run(replies).peer == peer,
{
    lemma_run(event, peer, replies);
}

/// An event passes on one message or none.  It passes one on exactly when a whole
/// message was read, the client had a peer, and no empty write was interrupted.
pub proof fn delivers_whole_messages_once(event: Event, peer: Option<Token>, replies: Seq<Reply>)
    requires
        HandlerView::begin(event, peer).can_be_told(replies),
        HandlerView::begin(event, peer).run(replies).phase is Finished,
    ensures
        deliveries(replies) == if payload(replies).len() == MESSAGE_LEN && peer is Some
            && interruptions(replies) == 0 {
            1nat
        } else {
            0nat
        },
{
    lemma_run(event, peer, replies);
}

/// No more than one message is read during an event, so that what a client sends
/// beyond it is left for the next event.
pub proof fn reads_at_most_one_message(event: Event, peer: Option<Token>, replies: Seq<Reply>)
    requires
        HandlerView::begin(event, peer).can_be_told(replies),
    ensures
        payload(replies).len() <= MESSAGE_LEN,
{
    lemma_run(event, peer, replies);
}

/// A connection that is not reported readable is not read from.
pub proof fn leaves_unreadable_connections_alone(
    event: Event,
    peer: Option<Token>,
    replies: Seq<Reply>,
)
    requires
        HandlerView::begin(event, peer).can_be_told(replies),
        !event.readable,
    ensures
        payload(replies).len() == 0,
        HandlerView::begin(event, peer).run(replies).phase != Phase::Reading,
        HandlerView::begin(event, peer).run(replies).phase != Phase::Finished(Verdict::Close),
    decreases replies.len(),
{
    lemma_run(event, peer, replies);
    if replies.len() > 0 {
        leaves_unreadable_connections_alone(event, peer, replies.drop_last());
    }
}

/// A connection is closed exactly when a read finds the end of the stream, and fails
/// exactly when an operation meets an error other than those that ask to come back
/// later.  Either ends the event there and then.
pub proof fn ends_on_the_last_reply(
    event: Event,
    peer: Option<Token>,
    replies: Seq<Reply>,
    reply: Reply,
)
    requires
        HandlerView::begin(event, peer).can_be_told(replies.push(reply)),
    ensures
        HandlerView::begin(event, peer).run(replies.push(reply)).phase == Phase::Finished(
            Verdict::Close,
        ) <==> is_end_of_stream(reply),
        HandlerView::begin(event, peer).run(replies.push(reply)).phase == Phase::Finished(
            Verdict::Fail,
        ) <==> is_fatal(reply),
        !(HandlerView::begin(event, peer).run(replies).phase is Finished),
{
    assert(replies.push(reply).drop_last() =~= replies);
    lemma_run(event, peer, replies);
}

/// A connection that ends during an event has nothing passed on from that event.
pub proof fn ending_delivers_nothing(
    event: Event,
    peer: Option<Token>,
    replies: Seq<Reply>,
    verdict: Verdict,
)
    requires
        HandlerView::begin(event, peer).can_be_told(replies),
        HandlerView::begin(event, peer).run(replies).phase == Phase::Finished(verdict),
        verdict.ends(),
    ensures
        deliveries(replies) == 0,
        payload(replies).len() < MESSAGE_LEN,
{
    lemma_run(event, peer, replies);
}

/// An event takes at most five operations, not counting interrupted empty writes.
pub proof fn comes_to_an_end(event: Event, peer: Option<Token>, replies: Seq<Reply>)
    requires
        HandlerView::begin(event, peer).can_be_told(replies),
    ensures
        replies.len() <= 5 + interruptions(replies),
{
    lemma_run(event, peer, replies);
}

} // verus!
