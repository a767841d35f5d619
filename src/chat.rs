//! Conversations about a trip: creating them, finding what a question
//! refers to, and recording the assistant's answers.
use vstd::prelude::*;

use crate::error::TripError;
use crate::ids::{fresh_id, id_bytes_of, is_id_text, parse_object_id, same_id, ObjectId};
use crate::model::{now_millis, Conversation, Detail, Message};

verus! {

/// The sender tag of the assistant's messages.
pub open spec fn assistant_sender() -> Seq<char> {
    "gemini"@
}

/// A new conversation of `owner` about the trip whose identity is written in
/// `trip_id`; a malformed identity is a validation error.
pub fn new_conversation(owner: ObjectId, trip_id: &str, title: String) -> (r: Result<
    Conversation,
    TripError,
>)
    ensures
        r is Ok <==> is_id_text(trip_id@),
        r matches Err(e) ==> e == TripError::Validation,
        r matches Ok(c) ==> c.user == owner && c.trip.bytes@ == id_bytes_of(trip_id@) && c.title
            == title && c.created_at == c.updated_at,
{
    let trip = match parse_object_id(trip_id) {
        Ok(id) => id,
        Err(e) => {
            return Err(e);
        },
    };
    let now = now_millis();
    Ok(Conversation { id: fresh_id(), user: owner, trip, title, created_at: now, updated_at: now })
}

/// The detail whose identity is written in `detail_id` among the records a
/// lookup returned. A malformed identity is a validation error; an absent
/// detail is not found.
pub fn find_detail(detail_id: &str, stored: &Vec<Detail>) -> (r: Result<Detail, TripError>)
    ensures
        !is_id_text(detail_id@) ==> r == Err::<Detail, TripError>(TripError::Validation),
        is_id_text(detail_id@) ==> (r is Ok <==> exists|i: int|
            0 <= i < stored@.len() && #[trigger] stored@[i].id.bytes@ == id_bytes_of(detail_id@)),
        is_id_text(detail_id@) && r is Err ==> r == Err::<Detail, TripError>(TripError::NotFound),
        r matches Ok(d) ==> d.id.bytes@ == id_bytes_of(detail_id@) && stored@.contains(d),
{
    let id = match parse_object_id(detail_id) {
        Ok(id) => id,
        Err(e) => {
            return Err(e);
        },
    };
    let mut i: usize = 0;
    while i < stored.len()
        invariant
            0 <= i <= stored@.len(),
            is_id_text(detail_id@),
            id.bytes@ == id_bytes_of(detail_id@),
            forall|k: int| 0 <= k < i ==> #[trigger] stored@[k].id.bytes@ != id_bytes_of(detail_id@),
        decreases stored@.len() - i,
    {
        if stored[i].id == id {
            let d = stored[i].clone();
            proof {
                assert(stored@[i as int] == d);
            }
            return Ok(d);
        }
        i += 1;
    }
    Err(TripError::NotFound)
}

/// The conversations among `stored` that `owner` holds about `trip`, in their order.
pub fn conversations_of(owner: ObjectId, trip: ObjectId, stored: &Vec<Conversation>) -> (r: Vec<
    Conversation,
>)
    ensures
        r@ == stored@.filter(|c: Conversation| same_id(c.user, owner) && same_id(c.trip, trip)),
{
    let mut out: Vec<Conversation> = Vec::new();
    let mut i: usize = 0;
    while i < stored.len()
        invariant
            0 <= i <= stored@.len(),
            out@ == stored@.take(i as int).filter(
                |c: Conversation| same_id(c.user, owner) && same_id(c.trip, trip),
            ),
        decreases stored@.len() - i,
    {
        proof {
            assert(stored@.take(i + 1).drop_last() =~= stored@.take(i as int));
            reveal(Seq::filter);
        }
        if stored[i].user == owner && stored[i].trip == trip {
            out.push(stored[i].clone());
        }
        i += 1;
    }
    proof {
        assert(stored@.take(i as int) =~= stored@);
    }
    out
}

/// The messages among `stored` of the conversation `conversation`, in their order.
pub fn messages_of(conversation: ObjectId, stored: &Vec<Message>) -> (r: Vec<Message>)
    ensures
        r@ == stored@.filter(|m: Message| same_id(m.conversation, conversation)),
{
    let mut out: Vec<Message> = Vec::new();
    let mut i: usize = 0;
    while i < stored.len()
        invariant
            0 <= i <= stored@.len(),
            out@ == stored@.take(i as int).filter(|m: Message| same_id(m.conversation, conversation)),
        decreases stored@.len() - i,
    {
        proof {
            assert(stored@.take(i + 1).drop_last() =~= stored@.take(i as int));
            reveal(Seq::filter);
        }
        if stored[i].conversation == conversation {
            out.push(stored[i].clone());
        }
        i += 1;
    }
    proof {
        assert(stored@.take(i as int) =~= stored@);
    }
    out
}

/// The assistant's answer `text` as a new message of `conversation`.
pub fn assistant_message(conversation: ObjectId, text: String) -> (r: Message)
    ensures
        r.conversation == conversation,
        r.sender@ == assistant_sender(),
        r.content == text,
{
    Message {
        id: fresh_id(),
        conversation,
        sender: String::from_str("gemini"),
        content: text,
        timestamp: now_millis(),
    }
}

} // verus!
