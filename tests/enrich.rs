use tripper::enrich::{apply_generated_html, clean_reply, needs_enrichment, next_pending, reply_to_html};
use tripper::error::{TripError, UpstreamKind};
use tripper::ids::parse_object_id;
use tripper::job::{EnrichJob, JobAction, JobEvent, JobState};
use tripper::model::Detail;
use tripper::prompts::{draft_prompt, html_prompt, outline_prompt};

fn detail(html: &str) -> Detail {
    let id = parse_object_id("65a1f0c2b3d4e5f601234567").unwrap();
    Detail {
        id,
        trip_id: id,
        title: "Day 1 - Arrival".to_string(),
        html: html.to_string(),
        estimated_duration: 30,
        language: "English".to_string(),
        completed: false,
        created_at: 10,
        updated_at: 10,
    }
}

#[test]
fn fences_and_whitespace_are_removed() {
    assert_eq!(clean_reply("```html\n<h1>Hi</h1>\n```"), "<h1>Hi</h1>");
    assert_eq!(clean_reply("  ```html ```html <p>x</p> ``` ```  "), "<p>x</p>");
    assert_eq!(clean_reply("```\n<p>y</p>\n```\n"), "<p>y</p>");
    assert_eq!(clean_reply("<p>plain</p>"), "<p>plain</p>");
    assert_eq!(clean_reply("\u{3000}<p>wide</p>\u{a0}"), "<p>wide</p>");
}

#[test]
fn empty_reply_is_an_upstream_failure() {
    assert_eq!(reply_to_html("```html\n```").unwrap_err(), TripError::Upstream(UpstreamKind::Unknown));
    assert_eq!(reply_to_html("   ").unwrap_err(), TripError::Upstream(UpstreamKind::Unknown));
    assert_eq!(reply_to_html("```html<p>a</p>```").unwrap(), "<p>a</p>");
}

#[test]
fn only_empty_details_need_content() {
    assert!(needs_enrichment(&detail("")));
    assert!(!needs_enrichment(&detail("<p>done</p>")));
}

#[test]
fn read_path_skips_details_with_content() {
    let ds = vec![detail("<p>a</p>"), detail(""), detail("<p>c</p>"), detail("")];
    assert_eq!(next_pending(&ds, 0), Some(1));
    assert_eq!(next_pending(&ds, 2), Some(3));
    assert_eq!(next_pending(&ds, 4), None);
    let done = vec![detail("<p>a</p>"), detail("<p>b</p>")];
    assert_eq!(next_pending(&done, 0), None);
}

#[test]
fn generated_content_is_stored_clean() {
    let mut d = detail("");
    assert!(apply_generated_html(&mut d, "```html\n<h1>Arrival</h1>\n```", 99).is_ok());
    assert_eq!(d.html, "<h1>Arrival</h1>");
    assert_eq!(d.updated_at, 99);
    assert_eq!(d.created_at, 10);
    assert!(!needs_enrichment(&d));
    assert_eq!(next_pending(&vec![d], 0), None);
}

#[test]
fn empty_generated_content_leaves_detail_pending() {
    let mut d = detail("");
    assert_eq!(apply_generated_html(&mut d, "``````", 99), Err(TripError::Upstream(UpstreamKind::Unknown)));
    assert!(needs_enrichment(&d));
    assert_eq!(d.updated_at, 10);
}

#[test]
fn job_runs_draft_then_html_then_save() {
    let mut job = EnrichJob::new("Day 1 - Arrival".to_string(), "Lisbon".to_string(), "English".to_string());
    match job.step(JobEvent::Begin) {
        JobAction::Ask(p) => assert_eq!(p, draft_prompt("Day 1 - Arrival", "Lisbon", "English")),
        other => panic!("unexpected {:?}", other),
    }
    match job.step(JobEvent::Replied("# Arrival".to_string())) {
        JobAction::Ask(p) => assert_eq!(p, html_prompt("# Arrival", "English")),
        other => panic!("unexpected {:?}", other),
    }
    match job.step(JobEvent::Replied("```html\n<h1>Arrival</h1>```".to_string())) {
        JobAction::Save(h) => assert_eq!(h, "<h1>Arrival</h1>"),
        other => panic!("unexpected {:?}", other),
    }
    match job.step(JobEvent::Saved) {
        JobAction::Finish(Ok(h)) => assert_eq!(h, "<h1>Arrival</h1>"),
        other => panic!("unexpected {:?}", other),
    }
    assert!(matches!(job.state, JobState::Done(_)));
    assert!(matches!(job.step(JobEvent::Begin), JobAction::Ignore));
}

#[test]
fn job_stops_on_service_failure() {
    let mut job = EnrichJob::new("T".to_string(), "Trip".to_string(), "English".to_string());
    job.step(JobEvent::Begin);
    match job.step(JobEvent::ServiceFailed(UpstreamKind::Timeout)) {
        JobAction::Finish(Err(e)) => assert_eq!(e, TripError::Upstream(UpstreamKind::Timeout)),
        other => panic!("unexpected {:?}", other),
    }
    assert!(matches!(job.state, JobState::Failed(TripError::Upstream(UpstreamKind::Timeout))));
}

#[test]
fn job_reports_empty_html_and_failed_save() {
    let mut job = EnrichJob::new("T".to_string(), "Trip".to_string(), "English".to_string());
    job.step(JobEvent::Begin);
    job.step(JobEvent::Replied("draft".to_string()));
    assert!(matches!(job.step(JobEvent::Replied("```".to_string())), JobAction::Finish(Err(TripError::Upstream(UpstreamKind::Unknown)))));
    let mut job = EnrichJob::new("T".to_string(), "Trip".to_string(), "English".to_string());
    job.step(JobEvent::Begin);
    job.step(JobEvent::Replied("draft".to_string()));
    job.step(JobEvent::Replied("<p>x</p>".to_string()));
    assert!(matches!(job.step(JobEvent::SaveFailed), JobAction::Finish(Err(TripError::Persistence))));
}

#[test]
fn prompts_carry_their_values() {
    let p = outline_prompt("Food tour", "Lisbon", "Portuguese", 1500);
    assert!(p.contains("titled 'Food tour' to the destination 'Lisbon'"));
    assert!(p.contains("presented in Portuguese. The itinerary should fit within a budget of 1500."));
    assert!(p.contains("### Day [number]: [Day Title]"));
    let d = draft_prompt("Day 1 - Arrival", "Lisbon", "English");
    assert!(d.contains("Write content for detail 'Day 1 - Arrival' of the trip 'Lisbon' in English."));
    let h = html_prompt("# Draft", "English");
    assert!(h.starts_with("Generate a comprehensive HTML-formatted trip detail"));
    assert!(h.contains("based on the outline: '# Draft' in English."));
}
