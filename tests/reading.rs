use tripper::error::{TripError, UpstreamKind};
use tripper::ids::parse_object_id;
use tripper::model::Detail;
use tripper::prompts::html_prompt;
use tripper::reading::{PassAction, PassEvent, PassState, ReadPass};

fn detail(n: u8, html: &str) -> Detail {
    let id = parse_object_id(&format!("0000000000000000000000{:02x}", n)).unwrap();
    Detail {
        id,
        trip_id: parse_object_id("65a1f0c2b3d4e5f601234567").unwrap(),
        title: format!("Detail {}", n),
        html: html.to_string(),
        estimated_duration: 10,
        language: "English".to_string(),
        completed: false,
        created_at: 1,
        updated_at: 1,
    }
}

#[test]
fn pass_enriches_every_pending_detail_in_order() {
    let mut pass = ReadPass::new(vec![detail(1, "<p>kept</p>"), detail(2, ""), detail(3, "")]);
    match pass.step(PassEvent::Begin, 5) {
        PassAction::Ask(p) => assert_eq!(p, html_prompt("", "English")),
        other => panic!("unexpected {:?}", other),
    }
    match pass.step(PassEvent::Replied("```html\n<h1>Two</h1>\n```".to_string()), 5) {
        PassAction::Save(id, h) => {
            assert_eq!(id.bytes, detail(2, "").id.bytes);
            assert_eq!(h, "<h1>Two</h1>");
        }
        other => panic!("unexpected {:?}", other),
    }
    assert!(matches!(pass.step(PassEvent::Saved, 6), PassAction::Ask(_)));
    assert!(matches!(pass.step(PassEvent::Replied("<h1>Three</h1>".to_string()), 7), PassAction::Save(_, _)));
    assert!(matches!(pass.step(PassEvent::Saved, 8), PassAction::Finish(Ok(()))));
    assert!(matches!(pass.state, PassState::Finished));
    assert_eq!(pass.details[0].html, "<p>kept</p>");
    assert_eq!(pass.details[0].updated_at, 1);
    assert_eq!(pass.details[1].html, "<h1>Two</h1>");
    assert_eq!(pass.details[1].updated_at, 6);
    assert_eq!(pass.details[2].html, "<h1>Three</h1>");
    assert_eq!(pass.details[2].updated_at, 8);
    assert!(matches!(pass.step(PassEvent::Begin, 9), PassAction::Ignore));
}

#[test]
fn pass_without_pending_details_asks_nothing() {
    let mut pass = ReadPass::new(vec![detail(1, "<p>a</p>"), detail(2, "<p>b</p>")]);
    assert!(matches!(pass.step(PassEvent::Begin, 5), PassAction::Finish(Ok(()))));
    let mut empty = ReadPass::new(vec![]);
    assert!(matches!(empty.step(PassEvent::Begin, 5), PassAction::Finish(Ok(()))));
}

#[test]
fn pass_failure_keeps_earlier_content_and_leaves_the_rest() {
    let mut pass = ReadPass::new(vec![detail(1, ""), detail(2, ""), detail(3, "")]);
    pass.step(PassEvent::Begin, 5);
    pass.step(PassEvent::Replied("<p>one</p>".to_string()), 5);
    pass.step(PassEvent::Saved, 6);
    match pass.step(PassEvent::ServiceFailed(UpstreamKind::NotReady), 7) {
        PassAction::Finish(Err(e)) => assert_eq!(e, TripError::Upstream(UpstreamKind::NotReady)),
        other => panic!("unexpected {:?}", other),
    }
    assert_eq!(pass.details[0].html, "<p>one</p>");
    assert_eq!(pass.details[1].html, "");
    assert_eq!(pass.details[2].html, "");
    assert!(matches!(pass.step(PassEvent::Replied("<p>late</p>".to_string()), 8), PassAction::Ignore));
}

#[test]
fn pass_reports_failed_save_and_empty_reply() {
    let mut pass = ReadPass::new(vec![detail(1, "")]);
    pass.step(PassEvent::Begin, 5);
    pass.step(PassEvent::Replied("<p>x</p>".to_string()), 5);
    assert!(matches!(pass.step(PassEvent::SaveFailed, 6), PassAction::Finish(Err(TripError::Persistence))));
    assert_eq!(pass.details[0].html, "");
    let mut pass = ReadPass::new(vec![detail(1, "")]);
    pass.step(PassEvent::Begin, 5);
    assert!(matches!(
        pass.step(PassEvent::Replied("```html```".to_string()), 6),
        PassAction::Finish(Err(TripError::Upstream(UpstreamKind::Unknown)))
    ));
}
