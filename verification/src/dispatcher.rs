//! Attribute event dispatcher: answers the peer's reads and writes.
//!
//! Every read and every write gets exactly one reply, also where the handle
//! names no attribute or the operation is refused. The events of a
//! connection are answered in the order in which they arrive, until the peer
//! disconnects.

use crate::attributes::{
    lemma_same_schema_chain, lemma_schema_is_kept, read_spec, same_schema, write_spec,
    AttributeModel, AttributeTable, Refusal,
};
use vstd::prelude::*;

verus! {

/// What arrives on a connection.
#[derive(Debug, PartialEq, Eq)]
pub enum Event {
    /// The peer reads an attribute.
    Read { handle: u16 },
    /// The peer writes an attribute.
    Write { handle: u16, data: Vec<u8> },
    /// The peer is gone; the reason is the link's code for it.
    Disconnected { reason: u8 },
}

/// The answer to a read or a write.
#[derive(Debug, PartialEq, Eq)]
pub enum Reply {
    /// The value that was read.
    Value(Vec<u8>),
    /// The write was done.
    Written,
    /// The operation was refused.
    Refused(Refusal),
}

/// A reply over sequences.
pub enum ReplyModel {
    Value(Seq<u8>),
    Written,
    Refused(Refusal),
}

impl View for Reply {
    type V = ReplyModel;

    open spec fn view(&self) -> ReplyModel {
        match self {
            Reply::Value(bytes) => ReplyModel::Value(bytes@),
            Reply::Written => ReplyModel::Written,
            Reply::Refused(refusal) => ReplyModel::Refused(*refusal),
        }
    }
}

/// What the dispatcher does with one event.
#[derive(Debug, PartialEq, Eq)]
pub enum Outcome {
    /// The event was a read or a write, and this is its reply.
    Replied(Reply),
    /// The peer disconnected: the dispatcher is done.
    Closed { reason: u8 },
}

/// The table after a read or a write, and the reply to it. A disconnect
/// changes nothing and has no reply.
pub open spec fn handle_spec(table: Seq<AttributeModel>, event: Event) -> (
    Seq<AttributeModel>,
    Option<ReplyModel>,
) {
    match event {
        Event::Read { handle } => match read_spec(table, handle) {
            Ok(bytes) => (table, Some(ReplyModel::Value(bytes))),
            Err(refusal) => (table, Some(ReplyModel::Refused(refusal))),
        },
        Event::Write { handle, data } => match write_spec(table, handle, data@).1 {
            None => (write_spec(table, handle, data@).0, Some(ReplyModel::Written)),
            Some(refusal) => (table, Some(ReplyModel::Refused(refusal))),
        },
        Event::Disconnected { reason } => (table, None),
    }
}

/// The table after the first `n` events, and the replies to them in order,
/// where none of these events is a disconnect.
pub open spec fn served(table: Seq<AttributeModel>, events: Seq<Event>, n: int) -> (
    Seq<AttributeModel>,
    Seq<ReplyModel>,
)
    decreases n,
{
    if n <= 0 {
        (table, Seq::empty())
    } else {
        let (before, replies) = served(table, events, n - 1);
        let (after, reply) = handle_spec(before, events[n - 1]);
        match reply {
            Some(r) => (after, replies.push(r)),
            None => (after, replies),
        }
    }
}

/// None of the first `n` events is a disconnect.
pub open spec fn open_until(events: Seq<Event>, n: int) -> bool {
    forall|i: int| 0 <= i < n ==> !((#[trigger] events[i]) is Disconnected)
}

/// The views of a list of replies, in order.
pub open spec fn replies_view(replies: Seq<Reply>) -> Seq<ReplyModel> {
    Seq::new(replies.len(), |i: int| replies[i]@)
}

/// What serving a connection came to.
#[derive(Debug, PartialEq, Eq)]
pub struct Session {
    /// The replies, one for each read and write, in the order of the events.
    pub replies: Vec<Reply>,
    /// The reason of the disconnect that ended the session; `None` where the
    /// events ran out before the peer disconnected.
    pub closed: Option<u8>,
}

/// Handles one event: performs the read or the write and gives its reply, or
/// reports that the peer is gone.
pub fn dispatch(table: &mut AttributeTable, event: &Event) -> (outcome: Outcome)
    ensures
        final(table)@ == handle_spec(old(table)@, *event).0,
        match outcome {
            Outcome::Replied(reply) => handle_spec(old(table)@, *event).1 == Some(reply@),
            Outcome::Closed { reason } => *event == (Event::Disconnected { reason }),
        },
{
    match event {
        Event::Read { handle } => match table.read(*handle) {
            Ok(bytes) => Outcome::Replied(Reply::Value(bytes)),
            Err(refusal) => Outcome::Replied(Reply::Refused(refusal)),
        },
        Event::Write { handle, data } => match table.write(*handle, data.as_slice()) {
            None => Outcome::Replied(Reply::Written),
            Some(refusal) => Outcome::Replied(Reply::Refused(refusal)),
        },
        Event::Disconnected { reason } => Outcome::Closed { reason: *reason },
    }
}

/// Serves a connection: handles the events in order up to the first
/// disconnect, which ends the session; later events are not looked at.
pub fn serve(table: &mut AttributeTable, events: &[Event]) -> (session: Session)
    ensures
        session.replies@.len() <= events@.len(),
        open_until(events@, session.replies@.len() as int),
        final(table)@ == served(old(table)@, events@, session.replies@.len() as int).0,
        replies_view(session.replies@) == served(
            old(table)@,
            events@,
            session.replies@.len() as int,
        ).1,
        match session.closed {
            Some(reason) => session.replies@.len() < events@.len() && events@[session.replies@.len() as int]
                == (Event::Disconnected { reason }),
            None => session.replies@.len() == events@.len(),
        },
{
    let mut replies: Vec<Reply> = Vec::new();
    assert(replies_view(replies@) =~= Seq::<ReplyModel>::empty());
    let mut i: usize = 0;
    while i < events.len()
        invariant
            i <= events.len(),
            replies@.len() == i,
            open_until(events@, i as int),
            table@ == served(old(table)@, events@, i as int).0,
            replies_view(replies@) == served(old(table)@, events@, i as int).1,
        decreases events.len() - i,
    {
        let ghost before = replies@;
        match dispatch(table, &events[i]) {
            Outcome::Replied(reply) => {
                replies.push(reply);
                assert(replies_view(replies@) =~= replies_view(before).push(reply@));
            },
            Outcome::Closed { reason } => {
                return Session { replies, closed: Some(reason) };
            },
        }
        i += 1;
    }
    Session { replies, closed: None }
}

/// Every read and every write has a reply, whatever the handle and the data.
pub proof fn lemma_every_request_is_answered(table: Seq<AttributeModel>, event: Event)
    requires
        !(event is Disconnected),
    ensures
        handle_spec(table, event).1.is_some(),
{
}

/// While the peer stays connected, the replies are as many as the events:
/// one reply for each, none left out and none doubled.
pub proof fn lemma_one_reply_per_event(table: Seq<AttributeModel>, events: Seq<Event>, n: int)
    requires
        0 <= n <= events.len(),
        open_until(events, n),
    ensures
        served(table, events, n).1.len() == n,
        forall|i: int|
            0 <= i < n ==> Some(#[trigger] served(table, events, n).1[i]) == handle_spec(
                served(table, events, i).0,
                events[i],
            ).1,
    decreases n,
{
    if n > 0 {
        lemma_one_reply_per_event(table, events, n - 1);
        lemma_every_request_is_answered(served(table, events, n - 1).0, events[n - 1]);
    }
}

/// However many events are served, the table declares the same attributes
/// as before: only values change.
pub proof fn lemma_serving_keeps_schema(table: Seq<AttributeModel>, events: Seq<Event>, n: int)
    ensures
        same_schema(table, served(table, events, n).0),
    decreases n,
{
    if n > 0 {
        lemma_serving_keeps_schema(table, events, n - 1);
        let before = served(table, events, n - 1).0;
        match events[n - 1] {
            Event::Write { handle, data } => {
                lemma_schema_is_kept(before, handle, data@);
            },
            _ => {},
        }
        lemma_same_schema_chain(table, before, served(table, events, n).0);
    }
}

}
