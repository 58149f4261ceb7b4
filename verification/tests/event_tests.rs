use agent_docs::api;
use agent_docs::auth::WorkspaceToken;
use agent_docs::events::{
    session_step, EventBus, OutboundEvent, RecvOutcome, SessionInput, SseEvent,
};
use agent_docs::rate_limit::{ClientIp, RateLimiter};
use agent_docs::store::Store;

fn event(ws: &str, kind: &str) -> SseEvent {
    SseEvent {
        workspace_id: String::from(ws),
        event_type: String::from(kind),
        data: Vec::new(),
    }
}

#[test]
fn subscriber_receives_three_events_in_publish_order() {
    let mut bus = EventBus::new();
    let mut sub = bus.subscribe();

    bus.publish(event("ws1", "document.created"));
    bus.publish(event("ws1", "document.updated"));
    bus.publish(event("ws2", "comment.created"));

    match sub.poll(&bus) {
        RecvOutcome::Item(e) => assert_eq!(e.event_type, "document.created"),
        _ => panic!("expected the first event"),
    }
    match sub.poll(&bus) {
        RecvOutcome::Item(e) => assert_eq!(e.event_type, "document.updated"),
        _ => panic!("expected the second event"),
    }
    match sub.poll(&bus) {
        RecvOutcome::Item(e) => {
            assert_eq!(e.event_type, "comment.created");
            assert_eq!(e.workspace_id, "ws2");
        }
        _ => panic!("expected the third event"),
    }
    assert!(matches!(sub.poll(&bus), RecvOutcome::Empty));
}

#[test]
fn slow_subscriber_sees_lag_count_not_a_stall() {
    let mut bus = EventBus::new();
    let mut sub = bus.subscribe();

    // push 300 events through a ring of 256: 44 fall off the front
    for i in 0..300u32 {
        bus.publish(event("ws", &format!("e{}", i)));
    }
    match sub.poll(&bus) {
        RecvOutcome::Lagged(n) => assert_eq!(n, 44),
        _ => panic!("expected a lagged signal"),
    }
    // after the lag report, delivery resumes at the oldest retained event
    match sub.poll(&bus) {
        RecvOutcome::Item(e) => assert_eq!(e.event_type, "e44"),
        _ => panic!("expected the oldest retained event"),
    }
}

#[test]
fn subscriber_attached_late_sees_only_later_events() {
    let mut bus = EventBus::new();
    bus.publish(event("ws", "before"));
    let mut sub = bus.subscribe();
    bus.publish(event("ws", "after"));
    match sub.poll(&bus) {
        RecvOutcome::Item(e) => assert_eq!(e.event_type, "after"),
        _ => panic!("expected only the later event"),
    }
    assert!(matches!(sub.poll(&bus), RecvOutcome::Empty));
}

#[test]
fn mutations_publish_their_events() {
    let mut store = Store::new();
    let mut limiter = RateLimiter::new(3600, 10);
    let mut bus = EventBus::new();
    let mut sub = bus.subscribe();
    let ip = ClientIp(String::from("127.0.0.1"));

    let ws = api::create_workspace(
        &mut store,
        &mut limiter,
        &mut bus,
        &ip,
        Some("Event WS"),
        None,
        Some(true),
        1000,
    )
    .unwrap();
    let token = WorkspaceToken(ws.manage_key.clone());
    api::create_document(
        &mut store,
        &mut bus,
        &ws.id,
        &token,
        Some("Doc"),
        Some("text"),
        None,
        None,
        None,
        None,
        None,
        1001,
    )
    .unwrap();

    match sub.poll(&bus) {
        RecvOutcome::Item(e) => {
            assert_eq!(e.event_type, "workspace.created");
            assert_eq!(e.workspace_id, ws.id);
        }
        _ => panic!("expected the workspace creation event"),
    }
    match sub.poll(&bus) {
        RecvOutcome::Item(e) => {
            assert_eq!(e.event_type, "document.created");
            assert_eq!(e.workspace_id, ws.id);
            assert!(e.data.iter().any(|(k, v)| k == "title" && v == "Doc"));
        }
        _ => panic!("expected the document creation event"),
    }
}

#[test]
fn session_filters_by_workspace_and_heartbeats() {
    // a matching event is forwarded
    let step = session_step("ws1", SessionInput::Received(event("ws1", "document.created")));
    assert!(!step.end);
    match step.emit {
        Some(OutboundEvent::Data(e)) => assert_eq!(e.event_type, "document.created"),
        _ => panic!("expected the event to be forwarded"),
    }

    // an event of another workspace is skipped
    let step = session_step("ws1", SessionInput::Received(event("ws2", "document.created")));
    assert!(!step.end);
    assert!(step.emit.is_none());

    // the heartbeat keeps the connection alive without payload
    let step = session_step("ws1", SessionInput::HeartbeatTick);
    assert!(!step.end);
    assert!(matches!(step.emit, Some(OutboundEvent::Heartbeat)));

    // a missed stretch is announced with its count
    let step = session_step("ws1", SessionInput::Lagged(7));
    assert!(!step.end);
    match step.emit {
        Some(OutboundEvent::SystemMessage(m)) => assert_eq!(m, "Missed 7 events"),
        _ => panic!("expected a system notice"),
    }

    // shutdown announces itself and ends the session
    let step = session_step("ws1", SessionInput::ShutdownSignal);
    assert!(step.end);
    match step.emit {
        Some(OutboundEvent::SystemMessage(m)) => assert_eq!(m, "Server shutting down"),
        _ => panic!("expected the shutdown notice"),
    }

    // a closed channel ends the session silently
    let step = session_step("ws1", SessionInput::Closed);
    assert!(step.end);
    assert!(step.emit.is_none());
}
