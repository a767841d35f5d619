use tripper::chat::{assistant_message, conversations_of, find_detail, messages_of, new_conversation};
use tripper::cover::{cover_at, pick_cover};
use tripper::error::{TripError, UpstreamKind};
use tripper::ids::{parse_object_id, ObjectId};
use tripper::messages::{SuccessResponse, ToastType};
use tripper::model::{Detail, Trip};
use tripper::store::{complete_trip, get_details_for_trip, get_trip_for_user, get_trips_for_user, new_trip};

const TRIP_A: &str = "65a1f0c2b3d4e5f601234567";
const TRIP_B: &str = "65a1f0c2b3d4e5f6012345ff";

fn id(s: &str) -> ObjectId {
    parse_object_id(s).unwrap()
}

fn trip(tid: &str, owner: &str) -> Trip {
    Trip {
        id: id(tid),
        user: id(owner),
        title: format!("trip {}", tid),
        subtitle: None,
        trip_type: None,
        completed: false,
        cover: None,
        created_at: 1,
        updated_at: 1,
    }
}

const ALICE: &str = "000000000000000000000001";
const BOB: &str = "000000000000000000000002";

#[test]
fn identity_text_is_decoded() {
    let i = parse_object_id("0123456789abcdefABCDEF00").unwrap();
    assert_eq!(i.bytes, [0x01, 0x23, 0x45, 0x67, 0x89, 0xab, 0xcd, 0xef, 0xab, 0xcd, 0xef, 0x00]);
    assert_eq!(parse_object_id("0123456789abcdefABCDEF0g").unwrap_err(), TripError::Validation);
    assert_eq!(parse_object_id("").unwrap_err(), TripError::Validation);
    assert_eq!(parse_object_id("0123456789abcdefABCDEF0011").unwrap_err(), TripError::Validation);
    assert!(parse_object_id("000000000000000000000001") == parse_object_id("000000000000000000000001"));
    assert!(id(ALICE) != id(BOB));
}

#[test]
fn owner_sees_own_trip() {
    let stored = vec![trip(TRIP_B, BOB), trip(TRIP_A, ALICE)];
    let t = get_trip_for_user(TRIP_A, id(ALICE), &stored).unwrap();
    assert_eq!(t.id.bytes, id(TRIP_A).bytes);
    assert_eq!(t.user.bytes, id(ALICE).bytes);
}

#[test]
fn other_owner_gets_not_found() {
    let stored = vec![trip(TRIP_A, ALICE)];
    assert_eq!(get_trip_for_user(TRIP_A, id(BOB), &stored).unwrap_err(), TripError::NotFound);
    assert_eq!(get_trip_for_user(TRIP_B, id(ALICE), &stored).unwrap_err(), TripError::NotFound);
    assert_eq!(get_trip_for_user(TRIP_A, id(ALICE), &vec![]).unwrap_err(), TripError::NotFound);
}

#[test]
fn malformed_trip_id_fails_before_lookup() {
    let stored = vec![trip(TRIP_A, ALICE)];
    assert_eq!(get_trip_for_user("zz", id(ALICE), &stored).unwrap_err(), TripError::Validation);
}

#[test]
fn trips_are_filtered_by_owner() {
    let stored = vec![trip(TRIP_A, ALICE), trip(TRIP_B, BOB), trip(TRIP_B, ALICE)];
    let mine = get_trips_for_user(id(ALICE), &stored);
    assert_eq!(mine.len(), 2);
    assert!(mine.iter().all(|t| t.user.bytes == id(ALICE).bytes));
    assert!(get_trips_for_user(id("0000000000000000000000ff"), &stored).is_empty());
}

#[test]
fn details_are_filtered_by_trip() {
    let d = |t: &str, title: &str| Detail {
        id: id(ALICE),
        trip_id: id(t),
        title: title.to_string(),
        html: String::new(),
        estimated_duration: 0,
        language: "English".to_string(),
        completed: false,
        created_at: 0,
        updated_at: 0,
    };
    let stored = vec![d(TRIP_A, "one"), d(TRIP_B, "two"), d(TRIP_A, "three")];
    let titles: Vec<String> = get_details_for_trip(TRIP_A, &stored).unwrap().into_iter().map(|d| d.title).collect();
    assert_eq!(titles, vec!["one".to_string(), "three".to_string()]);
    assert_eq!(get_details_for_trip("abc", &stored).unwrap_err(), TripError::Validation);
}

#[test]
fn new_trip_is_open_and_owned() {
    let t = new_trip(id(ALICE), "Food".to_string(), Some("Lisbon".to_string()), None, Some("https://img/1".to_string()));
    assert_eq!(t.user.bytes, id(ALICE).bytes);
    assert_eq!(t.title, "Food");
    assert_eq!(t.subtitle.as_deref(), Some("Lisbon"));
    assert!(!t.completed);
    assert_eq!(t.created_at, t.updated_at);
    let done = complete_trip(t.clone(), t.created_at + 5);
    assert!(done.completed);
    assert_eq!(done.updated_at, t.created_at + 5);
    assert_eq!(done.title, "Food");
}

#[test]
fn cover_is_none_without_results() {
    assert_eq!(pick_cover(&vec![]), None);
}

#[test]
fn cover_is_one_of_the_results() {
    let urls = vec!["https://img/a".to_string(), "https://img/b".to_string(), "https://img/c".to_string()];
    for _ in 0..20 {
        let c = pick_cover(&urls).unwrap();
        assert!(urls.contains(&c));
    }
    assert_eq!(cover_at(&urls, 1), Some("https://img/b".to_string()));
    assert_eq!(cover_at(&urls, 3), None);
}

#[test]
fn error_messages_and_defaults() {
    assert_eq!(TripError::NotFound.message(), "Record not found");
    assert_eq!(TripError::Upstream(UpstreamKind::NotReady).message(), "Model is not ready");
    assert_eq!(ToastType::default(), ToastType::Info);
    let r = SuccessResponse::success(7u64);
    assert_eq!(r.status, "success");
    assert_eq!(r.data, 7);
}

#[test]
fn conversations_and_messages() {
    let c = new_conversation(id(ALICE), TRIP_A, "Questions".to_string()).unwrap();
    assert_eq!(c.trip.bytes, id(TRIP_A).bytes);
    assert_eq!(c.user.bytes, id(ALICE).bytes);
    assert_eq!(c.title, "Questions");
    assert_eq!(new_conversation(id(ALICE), "bad", "Q".to_string()).unwrap_err(), TripError::Validation);
    let other = new_conversation(id(BOB), TRIP_A, "Other".to_string()).unwrap();
    let elsewhere = new_conversation(id(ALICE), TRIP_B, "Elsewhere".to_string()).unwrap();
    let all = vec![c.clone(), other, elsewhere];
    let mine = conversations_of(id(ALICE), id(TRIP_A), &all);
    assert_eq!(mine.len(), 1);
    assert_eq!(mine[0].title, "Questions");
    let m = assistant_message(c.id, "<p>Yes</p>".to_string());
    assert_eq!(m.sender, "gemini");
    assert_eq!(m.content, "<p>Yes</p>");
    let n = assistant_message(id(BOB), "<p>No</p>".to_string());
    let ms = messages_of(c.id, &vec![m.clone(), n]);
    assert_eq!(ms.len(), 1);
    assert_eq!(ms[0].content, "<p>Yes</p>");
    let d = Detail {
        id: id(TRIP_B),
        trip_id: id(TRIP_A),
        title: "Day 1 - Arrival".to_string(),
        html: "<p>x</p>".to_string(),
        estimated_duration: 5,
        language: "English".to_string(),
        completed: false,
        created_at: 0,
        updated_at: 0,
    };
    assert_eq!(find_detail(TRIP_B, &vec![d.clone()]).unwrap().title, "Day 1 - Arrival");
    assert_eq!(find_detail(TRIP_A, &vec![d.clone()]).unwrap_err(), TripError::NotFound);
    assert_eq!(find_detail("x", &vec![d]).unwrap_err(), TripError::Validation);
}

#[test]
fn chat_prompt_carries_query_and_context() {
    let p = tripper::prompts::chat_prompt("Where to eat?", "Lisbon", "<p>Day one</p>");
    assert!(p.contains("based on the query: 'Where to eat?'"));
    assert!(p.contains("- Trip Title: 'Lisbon'"));
    assert!(p.contains("- Detail: '<p>Day one</p>'"));
    assert!(p.ends_with("**User Query:** 'Where to eat?'\n"));
}
