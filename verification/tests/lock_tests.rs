use agent_docs::api;
use agent_docs::api::{ApiError, CreatedDocument, CreatedWorkspace};
use agent_docs::auth::WorkspaceToken;
use agent_docs::events::EventBus;
use agent_docs::rate_limit::{ClientIp, RateLimiter};
use agent_docs::store::Store;

fn setup() -> (Store, RateLimiter, EventBus) {
    (Store::new(), RateLimiter::new(3600, 10), EventBus::new())
}

fn create_workspace(
    store: &mut Store,
    limiter: &mut RateLimiter,
    bus: &mut EventBus,
    name: &str,
) -> CreatedWorkspace {
    let ip = ClientIp(String::from("127.0.0.1"));
    match api::create_workspace(store, limiter, bus, &ip, Some(name), None, Some(true), 1000) {
        Ok(ws) => ws,
        Err(e) => panic!("workspace creation failed: {:?}", e),
    }
}

fn create_doc(
    store: &mut Store,
    bus: &mut EventBus,
    ws_id: &str,
    key: &str,
    title: &str,
    content: &str,
) -> CreatedDocument {
    let token = WorkspaceToken(String::from(key));
    match api::create_document(
        store,
        bus,
        ws_id,
        &token,
        Some(title),
        Some(content),
        None,
        Some("published"),
        Some("TestAgent"),
        None,
        None,
        1001,
    ) {
        Ok(doc) => doc,
        Err(e) => panic!("document creation failed: {:?}", e),
    }
}

#[test]
fn test_document_locking() {
    let (mut store, mut limiter, mut bus) = setup();
    let ws = create_workspace(&mut store, &mut limiter, &mut bus, "Lock WS");
    let token = WorkspaceToken(ws.manage_key.clone());

    let doc = create_doc(&mut store, &mut bus, &ws.id, &ws.manage_key, "Lock Doc", "Content");

    // acquire
    let r = api::acquire_lock(
        &mut store,
        &mut bus,
        &ws.id,
        &doc.id,
        &token,
        Some("Agent1"),
        Some(60),
        2000,
    );
    assert!(r.is_ok());

    // the lock is visible in the document row
    let got = store.get_document(&ws.id, "lock-doc").unwrap();
    assert_eq!(got.lock.holder.as_deref(), Some("Agent1"));

    // release
    let r = api::release_lock(&mut store, &mut bus, &ws.id, &doc.id, &token, 2010);
    assert!(r.is_ok());

    // unlocked again
    let got = store.get_document(&ws.id, "lock-doc").unwrap();
    assert!(got.lock.holder.is_none());
}

#[test]
fn test_lock_conflict() {
    let (mut store, mut limiter, mut bus) = setup();
    let ws = create_workspace(&mut store, &mut limiter, &mut bus, "Lock Conflict WS");
    let token = WorkspaceToken(ws.manage_key.clone());

    let doc = create_doc(&mut store, &mut bus, &ws.id, &ws.manage_key, "Locked Doc", "Content");

    // first lock by editor_a
    let r = api::acquire_lock(
        &mut store,
        &mut bus,
        &ws.id,
        &doc.id,
        &token,
        Some("editor_a"),
        Some(300),
        2000,
    );
    assert!(r.is_ok());

    // a second lock by editor_b in the same instant is a conflict
    let r = api::acquire_lock(
        &mut store,
        &mut bus,
        &ws.id,
        &doc.id,
        &token,
        Some("editor_b"),
        Some(300),
        2000,
    );
    assert!(matches!(r, Err(ApiError::Conflict)));
}

#[test]
fn test_lock_renew() {
    let (mut store, mut limiter, mut bus) = setup();
    let ws = create_workspace(&mut store, &mut limiter, &mut bus, "Renew Lock WS");
    let token = WorkspaceToken(ws.manage_key.clone());

    let doc = create_doc(&mut store, &mut bus, &ws.id, &ws.manage_key, "Renew Lock Doc", "Content");

    // acquire for 60 seconds
    let r = api::acquire_lock(
        &mut store,
        &mut bus,
        &ws.id,
        &doc.id,
        &token,
        Some("Agent1"),
        Some(60),
        2000,
    );
    assert!(r.is_ok());

    // renew by the same editor for 120 seconds: expiry extends from now
    let r = api::renew_lock(
        &mut store,
        &mut bus,
        &ws.id,
        &doc.id,
        &token,
        Some("Agent1"),
        Some(120),
        2030,
    );
    assert!(r.is_ok());
    let got = store.get_document(&ws.id, &doc.slug).unwrap();
    assert_eq!(got.lock.expires_at, 2030 + 120);

    // renew by a different editor fails with a conflict
    let r = api::renew_lock(
        &mut store,
        &mut bus,
        &ws.id,
        &doc.id,
        &token,
        Some("Agent2"),
        Some(60),
        2040,
    );
    assert!(matches!(r, Err(ApiError::Conflict)));

    // release
    let _ = api::release_lock(&mut store, &mut bus, &ws.id, &doc.id, &token, 2050);
}

#[test]
fn test_lock_release_then_reacquire() {
    let (mut store, mut limiter, mut bus) = setup();
    let ws = create_workspace(&mut store, &mut limiter, &mut bus, "Lock Release WS");
    let token = WorkspaceToken(ws.manage_key.clone());

    let doc =
        create_doc(&mut store, &mut bus, &ws.id, &ws.manage_key, "Lock Release Doc", "Content");

    // acquire by editor_a
    let r = api::acquire_lock(
        &mut store,
        &mut bus,
        &ws.id,
        &doc.id,
        &token,
        Some("editor_a"),
        Some(300),
        2000,
    );
    assert!(r.is_ok());

    // release
    let r = api::release_lock(&mut store, &mut bus, &ws.id, &doc.id, &token, 2010);
    assert!(r.is_ok());

    // now editor_b can acquire
    let r = api::acquire_lock(
        &mut store,
        &mut bus,
        &ws.id,
        &doc.id,
        &token,
        Some("editor_b"),
        Some(300),
        2020,
    );
    assert!(r.is_ok());
}

#[test]
fn lock_on_missing_document_is_reported_absent() {
    let (mut store, mut limiter, mut bus) = setup();
    let ws = create_workspace(&mut store, &mut limiter, &mut bus, "Ghost WS");
    let token = WorkspaceToken(ws.manage_key.clone());

    let r = api::acquire_lock(
        &mut store,
        &mut bus,
        &ws.id,
        "no-such-doc",
        &token,
        Some("A"),
        Some(60),
        2000,
    );
    assert!(matches!(r, Err(ApiError::NotFound)));
    let r = api::renew_lock(
        &mut store,
        &mut bus,
        &ws.id,
        "no-such-doc",
        &token,
        Some("A"),
        Some(60),
        2000,
    );
    assert!(matches!(r, Err(ApiError::NotFound)));
    let r = api::release_lock(&mut store, &mut bus, &ws.id, "no-such-doc", &token, 2000);
    assert!(matches!(r, Err(ApiError::NotFound)));
}

#[test]
fn scenario_lock_expires_then_other_editor_wins() {
    let (mut store, mut limiter, mut bus) = setup();
    let ws = create_workspace(&mut store, &mut limiter, &mut bus, "Expiry WS");
    let token = WorkspaceToken(ws.manage_key.clone());

    let doc = create_doc(&mut store, &mut bus, &ws.id, &ws.manage_key, "Expiry Doc", "Content");

    // editor A takes a 60-second lock at t = 5000
    let r = api::acquire_lock(
        &mut store,
        &mut bus,
        &ws.id,
        &doc.id,
        &token,
        Some("A"),
        Some(60),
        5000,
    );
    assert!(r.is_ok());

    // editor B's attempt in the same instant is a conflict
    let r = api::acquire_lock(
        &mut store,
        &mut bus,
        &ws.id,
        &doc.id,
        &token,
        Some("B"),
        Some(60),
        5000,
    );
    assert!(matches!(r, Err(ApiError::Conflict)));

    // a re-acquire by the holder itself succeeds at once
    let r = api::acquire_lock(
        &mut store,
        &mut bus,
        &ws.id,
        &doc.id,
        &token,
        Some("A"),
        Some(60),
        5030,
    );
    assert!(r.is_ok());

    // after the TTL passes with no renewal, B's acquire succeeds
    let r = api::acquire_lock(
        &mut store,
        &mut bus,
        &ws.id,
        &doc.id,
        &token,
        Some("B"),
        Some(60),
        5030 + 60,
    );
    assert!(r.is_ok());
    let got = store.get_document(&ws.id, &doc.slug).unwrap();
    assert_eq!(got.lock.holder.as_deref(), Some("B"));
}
