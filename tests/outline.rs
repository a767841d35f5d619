use tripper::error::TripError;
use tripper::ids::parse_object_id;
use tripper::outline::parse_outline;

const TRIP: &str = "65a1f0c2b3d4e5f601234567";

#[test]
fn single_day_single_place() {
    let text = "### Day 1: Arrival\n#### Place 1: Airport\n**Estimated Duration:** 30 minutes\n* Land\n* Collect luggage\n";
    let details = parse_outline(text, TRIP, "English").unwrap();
    assert_eq!(details.len(), 1);
    let d = &details[0];
    assert_eq!(d.title, "Day 1 - Arrival");
    assert_eq!(d.estimated_duration, 30);
    assert!(d.html.contains("* Land"));
    assert!(d.html.contains("* Collect luggage"));
    assert_eq!(d.html, "Place 1: Airport\n* Land\n* Collect luggage");
    assert_eq!(d.language, "English");
    assert!(!d.completed);
    assert_eq!(d.trip_id.bytes, parse_object_id(TRIP).unwrap().bytes);
}

#[test]
fn text_without_markers_gives_nothing() {
    let text = "Here is a lovely trip.\nVisit the museum.\n* Bring water\n";
    let details = parse_outline(text, TRIP, "English").unwrap();
    assert!(details.is_empty());
}

#[test]
fn empty_text_gives_nothing() {
    assert!(parse_outline("", TRIP, "English").unwrap().is_empty());
}

#[test]
fn day_style_counts_places_of_every_day() {
    let text = "Intro\n### Day 1: Arrival\n#### Place 1: Airport\n**Estimated Duration:** 30 minutes\n* Land\n#### Place 2: Hotel\n**Estimated Duration:** 45 minutes\n* Check in\n### Day 2: City\n#### Place 1: Museum\n**Estimated Duration:** 120 minutes\n* Paintings\n* Sculptures\n#### Place 2: Park\n**Estimated Duration:** 60 minutes\n#### Place 3: Market\n**Estimated Duration:** 90 minutes\n* Spices\n";
    let details = parse_outline(text, TRIP, "French").unwrap();
    assert_eq!(details.len(), 5);
    let titles: Vec<&str> = details.iter().map(|d| d.title.as_str()).collect();
    assert_eq!(titles, vec!["Day 1 - Arrival", "Day 1 - Arrival", "Day 2 - City", "Day 2 - City", "Day 2 - City"]);
    let durations: Vec<u64> = details.iter().map(|d| d.estimated_duration).collect();
    assert_eq!(durations, vec![30, 45, 120, 60, 90]);
    assert_eq!(details[1].html, "Place 2: Hotel\n* Check in");
    assert_eq!(details[2].html, "Place 1: Museum\n* Paintings\n* Sculptures");
    assert_eq!(details[3].html, "Place 2: Park\n");
    assert!(details.iter().all(|d| d.language == "French"));
}

#[test]
fn day_without_places_gives_no_record() {
    let text = "### Day 1: Rest\nSleep all day.\n### Day 2: Walk\n#### Place 1: Beach\n**Estimated Duration:** 15 minutes\n* Swim\n";
    let details = parse_outline(text, TRIP, "English").unwrap();
    assert_eq!(details.len(), 1);
    assert_eq!(details[0].title, "Day 2 - Walk");
}

#[test]
fn missing_duration_reads_zero() {
    let text = "### Day 3: Hills\n#### Place 1: Summit\n* Climb\n";
    let details = parse_outline(text, TRIP, "English").unwrap();
    assert_eq!(details.len(), 1);
    assert_eq!(details[0].estimated_duration, 0);
    assert_eq!(details[0].html, "Place 1: Summit\n* Climb");
}

#[test]
fn malformed_duration_reads_zero() {
    let text = "### Detail 1: Harbour\n**Estimated Duration:** about an hour\n* Boats\n";
    let details = parse_outline(text, TRIP, "English").unwrap();
    assert_eq!(details.len(), 1);
    assert_eq!(details[0].estimated_duration, 0);
}

#[test]
fn oversized_duration_reads_zero() {
    let text = "### Detail 1: Forever\n**Estimated Duration:** 99999999999999999999999 minutes\n";
    let details = parse_outline(text, TRIP, "English").unwrap();
    assert_eq!(details[0].estimated_duration, 0);
}

#[test]
fn detail_style_records_have_no_content() {
    let text = "### Detail 1: Old town\n**Estimated Duration:** 40 minutes\n* Churches\n### Detail 2: Harbour\n**Estimated Duration:** 25 minutes\n* Boats\n### Detail 3: Night market\n";
    let details = parse_outline(text, TRIP, "Spanish").unwrap();
    assert_eq!(details.len(), 3);
    assert_eq!(details[0].title, "Old town");
    assert_eq!(details[1].title, "Harbour");
    assert_eq!(details[2].title, "Night market");
    assert!(details.iter().all(|d| d.html.is_empty()));
    let durations: Vec<u64> = details.iter().map(|d| d.estimated_duration).collect();
    assert_eq!(durations, vec![40, 25, 0]);
}

#[test]
fn day_numbers_are_rewritten_in_shortest_form() {
    let text = "### Day 007: Spy tour\n#### Place 02: Bunker\n**Estimated Duration:** 010 minutes\n* Hide\n";
    let details = parse_outline(text, TRIP, "English").unwrap();
    assert_eq!(details[0].title, "Day 7 - Spy tour");
    assert_eq!(details[0].html, "Place 2: Bunker\n* Hide");
    assert_eq!(details[0].estimated_duration, 10);
}

#[test]
fn oversized_day_number_reads_one() {
    let text = "### Day 99999999999: Far\n#### Place 3: Moon\n**Estimated Duration:** 5 minutes\n";
    let details = parse_outline(text, TRIP, "English").unwrap();
    assert_eq!(details[0].title, "Day 1 - Far");
}

#[test]
fn heading_without_line_break_is_not_a_heading() {
    let details = parse_outline("### Day 1: Arrival", TRIP, "English").unwrap();
    assert!(details.is_empty());
}

#[test]
fn malformed_trip_id_is_rejected() {
    let text = "### Day 1: Arrival\n#### Place 1: Airport\n**Estimated Duration:** 30 minutes\n";
    assert_eq!(parse_outline(text, "not-an-id", "English").unwrap_err(), TripError::Validation);
    assert_eq!(parse_outline(text, "65a1f0c2b3d4e5f60123456", "English").unwrap_err(), TripError::Validation);
}

#[test]
fn records_get_distinct_identities() {
    let text = "### Detail 1: A\n### Detail 2: B\n";
    let details = parse_outline(text, TRIP, "English").unwrap();
    assert_eq!(details.len(), 2);
    assert_ne!(details[0].id.bytes, details[1].id.bytes);
}
