//! Stored records: trips and their itinerary details.
use vstd::prelude::*;

use crate::ids::ObjectId;

verus! {

/// A planned trip, owned by exactly one user.
#[derive(Debug)]
pub struct Trip {
    pub id: ObjectId,
    pub user: ObjectId,
    pub title: String,
    pub subtitle: Option<String>,
    pub trip_type: Option<String>,
    pub completed: bool,
    /// Address of the cover photo; absent when the photo search found nothing.
    pub cover: Option<String>,
    /// Milliseconds since the Unix epoch.
    pub created_at: i64,
    pub updated_at: i64,
}

/// One itinerary segment of a trip. An empty `html` marks a detail whose
/// content has not been generated yet.
#[derive(Debug)]
pub struct Detail {
    pub id: ObjectId,
    pub trip_id: ObjectId,
    pub title: String,
    pub html: String,
    /// Minutes.
    pub estimated_duration: u64,
    pub language: String,
    pub completed: bool,
    /// Milliseconds since the Unix epoch.
    pub created_at: i64,
    pub updated_at: i64,
}

/// A chat about one trip, owned by one user.
#[derive(Debug)]
pub struct Conversation {
    pub id: ObjectId,
    pub user: ObjectId,
    pub trip: ObjectId,
    pub title: String,
    /// Milliseconds since the Unix epoch.
    pub created_at: i64,
    pub updated_at: i64,
}

/// One message of a conversation. `sender` tells the user's messages from
/// the assistant's.
#[derive(Debug)]
pub struct Message {
    pub id: ObjectId,
    pub conversation: ObjectId,
    pub sender: String,
    pub content: String,
    /// Milliseconds since the Unix epoch.
    pub timestamp: i64,
}

impl Clone for Conversation {
    fn clone(&self) -> (r: Conversation)
        ensures
            r == *self,
    {
        Conversation {
            id: self.id,
            user: self.user,
            trip: self.trip,
            title: self.title.clone(),
            created_at: self.created_at,
            updated_at: self.updated_at,
        }
    }
}

impl Clone for Message {
    fn clone(&self) -> (r: Message)
        ensures
            r == *self,
    {
        Message {
            id: self.id,
            conversation: self.conversation,
            sender: self.sender.clone(),
            content: self.content.clone(),
            timestamp: self.timestamp,
        }
    }
}

fn clone_text(o: &Option<String>) -> (r: Option<String>)
    ensures
        r == *o,
{
    match o {
        Some(s) => Some(s.clone()),
        None => None,
    }
}

impl Clone for Trip {
    fn clone(&self) -> (r: Trip)
        ensures
            r == *self,
    {
        Trip {
            id: self.id,
            user: self.user,
            title: self.title.clone(),
            subtitle: clone_text(&self.subtitle),
            trip_type: clone_text(&self.trip_type),
            completed: self.completed,
            cover: clone_text(&self.cover),
            created_at: self.created_at,
            updated_at: self.updated_at,
        }
    }
}

impl Clone for Detail {
    fn clone(&self) -> (r: Detail)
        ensures
            r == *self,
    {
        Detail {
            id: self.id,
            trip_id: self.trip_id,
            title: self.title.clone(),
            html: self.html.clone(),
            estimated_duration: self.estimated_duration,
            language: self.language.clone(),
            completed: self.completed,
            created_at: self.created_at,
            updated_at: self.updated_at,
        }
    }
}

/// Relies on chrono's `Utc::now` and `timestamp_millis`: the current time in
/// milliseconds since the Unix epoch. Nothing is promised of the value.
#[verifier::external_body]
pub(crate) fn now_millis() -> (r: i64) {
    chrono::Utc::now().timestamp_millis()
}

} // verus!
