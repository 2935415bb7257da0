use cultiva::bridge::{
    activation_request, capture_request, command_report, command_request, context_report,
    context_request, payload_text, query_request, Arg, CommandRequest, ContextRequest,
    QueryRequest, ResponseStatus, KEEPALIVE_INTERVAL_SECS,
};
use cultiva::controller::Modes;

fn text(s: &str) -> Arg {
    Arg::Text(s.to_string())
}

#[test]
fn command_needs_id_mode_and_patch() {
    let args = vec![text("r1"), text("auto"), Arg::Other];
    assert_eq!(command_request(&args), Some(CommandRequest { id: "r1".to_string(), mode: Modes::Auto }));
    let args = vec![text("r2"), text("manual"), Arg::Other];
    assert_eq!(command_request(&args), Some(CommandRequest { id: "r2".to_string(), mode: Modes::Active }));
    assert_eq!(command_request(&vec![text("r3"), text("auto")]), None);
    assert_eq!(command_request(&vec![Arg::Unsigned(1), text("auto"), Arg::Other]), None);
    assert_eq!(command_request(&vec![text("r4"), Arg::Other, Arg::Other]), None);
    assert_eq!(command_request(&vec![]), None);
}

#[test]
fn activation_needs_id_and_mode() {
    assert_eq!(
        activation_request(&vec![text("a"), text("auto")]),
        Some(CommandRequest { id: "a".to_string(), mode: Modes::Auto })
    );
    assert_eq!(
        activation_request(&vec![text("a"), text("Auto")]),
        Some(CommandRequest { id: "a".to_string(), mode: Modes::Active })
    );
    assert_eq!(activation_request(&vec![text("a")]), None);
}

#[test]
fn query_needs_id_and_count() {
    assert_eq!(
        query_request(&vec![text("q"), Arg::Unsigned(5)]),
        Some(QueryRequest { id: "q".to_string(), count: 5 })
    );
    assert_eq!(query_request(&vec![text("q"), text("5")]), None);
    assert_eq!(query_request(&vec![text("q")]), None);
}

#[test]
fn context_text_loads_anything_else_stores() {
    assert_eq!(context_request(&vec![text("c"), text("get")]), Some(ContextRequest::Load { id: "c".to_string() }));
    assert_eq!(context_request(&vec![text("c"), Arg::Other]), Some(ContextRequest::Store { id: "c".to_string() }));
    assert_eq!(context_request(&vec![text("c"), Arg::Unsigned(3)]), Some(ContextRequest::Store { id: "c".to_string() }));
    assert_eq!(context_request(&vec![Arg::Other, text("get")]), None);
}

#[test]
fn capture_needs_id() {
    assert_eq!(capture_request(&vec![text("p")]), Some("p".to_string()));
    assert_eq!(capture_request(&vec![]), None);
    assert_eq!(capture_request(&vec![Arg::Unsigned(0)]), None);
}

#[test]
fn reports() {
    let r = command_report(Ok(()));
    assert_eq!(r.status, ResponseStatus::Success);
    assert_eq!(r.message, "Command performed successfully");
    let r = command_report(Err("link down".to_string()));
    assert_eq!(r.status, ResponseStatus::Failed);
    assert_eq!(r.message, "link down");
    let r = context_report(Ok(()));
    assert_eq!(r.status, ResponseStatus::Success);
    assert_eq!(r.message, "Success saving context information");
    assert_eq!(context_report(Err("x".to_string())).status, ResponseStatus::Failed);
}

#[test]
fn payload_text_joins_parts() {
    let parts = vec!["\"a\"".to_string(), "12".to_string()];
    assert_eq!(payload_text(Some(&parts)), "\"a\" 12 ");
    assert_eq!(payload_text(Some(&vec![])), "");
    assert_eq!(payload_text(None), "No readable content");
    assert_eq!(KEEPALIVE_INTERVAL_SECS, 180);
}
