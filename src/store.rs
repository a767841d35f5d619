//! Checks that the persistence layer applies to what the database hands
//! back: identity and owner filters, and the shape of new trips.
use vstd::prelude::*;

use crate::error::TripError;
use crate::ids::{fresh_id, id_bytes_of, is_id_text, parse_object_id, same_id, ObjectId};
use crate::model::{now_millis, Detail, Trip};

verus! {

/// Some stored trip has the identity written in `trip_id` and belongs to `owner`.
pub open spec fn visible_trip_exists(stored: Seq<Trip>, trip_id: Seq<char>, owner: ObjectId) -> bool {
    exists|i: int|
        0 <= i < stored.len() && #[trigger] stored[i].id.bytes@ == id_bytes_of(trip_id)
            && same_id(stored[i].user, owner)
}

/// Fetches the trip whose identity is written in `trip_id` from the records
/// that a lookup returned, provided it belongs to `owner`. A malformed
/// identity is a validation error; a trip that is absent or belongs to
/// someone else is not found.
pub fn get_trip_for_user(trip_id: &str, owner: ObjectId, stored: &Vec<Trip>) -> (r: Result<
    Trip,
    TripError,
>)
    ensures
        !is_id_text(trip_id@) ==> r == Err::<Trip, TripError>(TripError::Validation),
        is_id_text(trip_id@) ==> (r is Ok <==> visible_trip_exists(stored@, trip_id@, owner)),
        is_id_text(trip_id@) && r is Err ==> r == Err::<Trip, TripError>(TripError::NotFound),
        r matches Ok(t) ==> t.id.bytes@ == id_bytes_of(trip_id@) && same_id(t.user, owner)
            && stored@.contains(t),
{
    let id = match parse_object_id(trip_id) {
        Ok(id) => id,
        Err(e) => {
            return Err(e);
        },
    };
    let mut i: usize = 0;
    while i < stored.len()
        invariant
            0 <= i <= stored@.len(),
            is_id_text(trip_id@),
            id.bytes@ == id_bytes_of(trip_id@),
            forall|k: int|
                0 <= k < i ==> !(#[trigger] stored@[k].id.bytes@ == id_bytes_of(trip_id@)
                    && same_id(stored@[k].user, owner)),
        decreases stored@.len() - i,
    {
        if stored[i].id == id && stored[i].user == owner {
            let t = stored[i].clone();
            proof {
                assert(stored@[i as int] == t);
            }
            return Ok(t);
        }
        i += 1;
    }
    Err(TripError::NotFound)
}

/// The trips among `stored` that belong to `owner`, in their order.
pub fn get_trips_for_user(owner: ObjectId, stored: &Vec<Trip>) -> (r: Vec<Trip>)
    ensures
        r@ == stored@.filter(|t: Trip| same_id(t.user, owner)),
{
    let mut out: Vec<Trip> = Vec::new();
    let mut i: usize = 0;
    while i < stored.len()
        invariant
            0 <= i <= stored@.len(),
            out@ == stored@.take(i as int).filter(|t: Trip| same_id(t.user, owner)),
        decreases stored@.len() - i,
    {
        proof {
            assert(stored@.take(i + 1).drop_last() =~= stored@.take(i as int));
            reveal(Seq::filter);
        }
        if stored[i].user == owner {
            out.push(stored[i].clone());
        }
        i += 1;
    }
    proof {
        assert(stored@.take(i as int) =~= stored@);
    }
    out
}

/// The details among `stored` that belong to the trip whose identity is
/// written in `trip_id`, in their order. A malformed identity is a
/// validation error.
pub fn get_details_for_trip(trip_id: &str, stored: &Vec<Detail>) -> (r: Result<
    Vec<Detail>,
    TripError,
>)
    ensures
        r is Ok <==> is_id_text(trip_id@),
        r matches Err(e) ==> e == TripError::Validation,
        r matches Ok(ds) ==> ds@ == stored@.filter(
            |d: Detail| d.trip_id.bytes@ == id_bytes_of(trip_id@),
        ),
{
    let trip = match parse_object_id(trip_id) {
        Ok(id) => id,
        Err(e) => {
            return Err(e);
        },
    };
    let mut out: Vec<Detail> = Vec::new();
    let mut i: usize = 0;
    while i < stored.len()
        invariant
            0 <= i <= stored@.len(),
            trip.bytes@ == id_bytes_of(trip_id@),
            out@ == stored@.take(i as int).filter(
                |d: Detail| d.trip_id.bytes@ == id_bytes_of(trip_id@),
            ),
        decreases stored@.len() - i,
    {
        proof {
            assert(stored@.take(i + 1).drop_last() =~= stored@.take(i as int));
            reveal(Seq::filter);
        }
        if stored[i].trip_id == trip {
            out.push(stored[i].clone());
        }
        i += 1;
    }
    proof {
        assert(stored@.take(i as int) =~= stored@);
    }
    Ok(out)
}

/// A new trip of `owner`, not completed, with a fresh identity and both
/// timestamps set to now.
pub fn new_trip(
    owner: ObjectId,
    title: String,
    subtitle: Option<String>,
    trip_type: Option<String>,
    cover: Option<String>,
) -> (r: Trip)
    ensures
        r.user == owner,
        r.title == title,
        r.subtitle == subtitle,
        r.trip_type == trip_type,
        r.cover == cover,
        !r.completed,
        r.created_at == r.updated_at,
{
    let now = now_millis();
    Trip {
        id: fresh_id(),
        user: owner,
        title,
        subtitle,
        trip_type,
        completed: false,
        cover,
        created_at: now,
        updated_at: now,
    }
}

/// The trip marked as completed, touched at `now`.
pub fn complete_trip(trip: Trip, now: i64) -> (r: Trip)
    ensures
        r == (Trip { completed: true, updated_at: now, ..trip }),
{
    Trip { completed: true, updated_at: now, ..trip }
}

/// When every stored trip with the asked identity belongs to someone else,
/// nothing is visible to `owner`: the lookup reports not found rather than
/// handing over another owner's trip.
pub proof fn lemma_foreign_trip_is_not_found(stored: Seq<Trip>, trip_id: Seq<char>, owner: ObjectId)
    requires
        forall|i: int|
            0 <= i < stored.len() && #[trigger] stored[i].id.bytes@ == id_bytes_of(trip_id)
                ==> !same_id(stored[i].user, owner),
    ensures
        !visible_trip_exists(stored, trip_id, owner),
{
}

} // verus!
