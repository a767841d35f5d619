//! Request and response bodies exchanged with the server functions.
use vstd::prelude::*;

use crate::ids::ObjectId;
use crate::model::{Detail, Trip};

verus! {

/// A successful reply: a status word and the payload.
#[derive(Debug)]
pub struct SuccessResponse<T> {
    pub status: String,
    pub data: T,
}

impl<T> SuccessResponse<T> {
    /// A reply with status "success".
    pub fn success(data: T) -> (r: Self)
        ensures
            r.status@ == "success"@,
            r.data == data,
    {
        SuccessResponse { status: String::from_str("success"), data }
    }
}

#[derive(Debug)]
pub struct ErrorResponse {
    pub status: String,
    pub message: String,
}

#[derive(Debug, Clone)]
pub struct RegisterUserSchema {
    pub name: String,
    pub email: String,
    pub password: String,
}

#[derive(Debug, Clone)]
pub struct LoginUserSchema {
    pub email: String,
    pub password: String,
}

#[derive(Debug)]
pub struct AuthResponse {
    pub token: String,
}

#[derive(Debug, Clone)]
pub struct DashboardResponse {
    pub users: u64,
    pub trips: u64,
    pub paid_users: u64,
}

#[derive(Debug, Clone)]
pub struct StoreTripRequest {
    pub token: String,
    pub title: String,
    pub subtitle: String,
    pub content: String,
    pub trip_type: Option<String>,
}

#[derive(Debug, Clone)]
pub struct UpdateTripContentRequest {
    pub trip_id: String,
    pub new_content: String,
}

#[derive(Debug, Clone)]
pub struct CompleteTripRequest {
    pub trip_id: ObjectId,
}

#[derive(Debug, Clone)]
pub struct GetTripsForUserRequest {
    pub token: String,
}

#[derive(Debug, Clone)]
pub struct GenerateTripRequest {
    pub title: String,
    pub subtitle: String,
    pub token: String,
    pub model: String,
    /// The budget that the outline must fit.
    pub subtopics: u64,
    pub details: u64,
    pub language: String,
    pub max_length: u64,
}

#[derive(Debug, Clone)]
pub struct GenerateDetailContentRequest {
    pub detail_title: String,
    pub detail_id: ObjectId,
    pub trip_title: String,
    pub language: String,
    pub model: String,
}

#[derive(Debug, Clone)]
pub struct GetTripForUserRequest {
    pub token: String,
    pub trip_id: String,
}

#[derive(Debug, Clone)]
pub struct AIRequest {
    pub token: String,
    pub text: String,
}

#[derive(Debug, Clone)]
pub struct GetDetailContentRequest {
    pub trip_id: String,
}

#[derive(Debug, Clone)]
pub struct TripResponse {
    pub id: ObjectId,
}

#[derive(Debug)]
pub struct GenerateTripOutlineResponse {
    pub details: Vec<Detail>,
    pub trip: Trip,
}

#[derive(Debug, Clone)]
pub struct CreateConversationRequest {
    pub token: String,
    pub trip_id: String,
    pub title: String,
}

#[derive(Debug, Clone)]
pub struct GetConversationsRequest {
    pub token: String,
    pub trip_id: String,
}

#[derive(Debug, Clone)]
pub struct GetMessagesRequest {
    pub token: String,
    pub conversation_id: ObjectId,
}

#[derive(Debug, Clone)]
pub struct SendQueryRequest {
    pub conversation_id: ObjectId,
    pub query: String,
    pub trip: String,
    pub detail: String,
    pub model: String,
    pub token: String,
}

/// How a notification is shown.
#[derive(Clone, Copy, Debug, PartialEq, Eq, Structural)]
pub enum ToastType {
    Info,
    Success,
    Warning,
    Error,
}

impl Default for ToastType {
    fn default() -> (r: ToastType)
        ensures
            r == ToastType::Info,
    {
        ToastType::Info
    }
}

} // verus!
