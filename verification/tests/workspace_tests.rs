use agent_docs::api;
use agent_docs::api::{ApiError, CreatedWorkspace};
use agent_docs::auth::WorkspaceToken;
use agent_docs::events::EventBus;
use agent_docs::rate_limit::{ClientIp, RateLimiter};
use agent_docs::store::Store;

fn setup() -> (Store, RateLimiter, EventBus) {
    (Store::new(), RateLimiter::new(3600, 10), EventBus::new())
}

fn ip() -> ClientIp {
    ClientIp(String::from("127.0.0.1"))
}

fn create_workspace(
    store: &mut Store,
    limiter: &mut RateLimiter,
    bus: &mut EventBus,
    name: &str,
) -> CreatedWorkspace {
    match api::create_workspace(store, limiter, bus, &ip(), Some(name), None, Some(true), 1000) {
        Ok(ws) => ws,
        Err(e) => panic!("workspace creation failed: {:?}", e),
    }
}

#[test]
fn test_create_workspace() {
    let (mut store, mut limiter, mut bus) = setup();
    let ws = create_workspace(&mut store, &mut limiter, &mut bus, "Test Workspace");
    assert!(!ws.id.is_empty());
    assert!(ws.manage_key.starts_with("adoc_"));
    assert_eq!(ws.name, "Test Workspace");
}

#[test]
fn test_list_public_workspaces() {
    let (mut store, mut limiter, mut bus) = setup();
    create_workspace(&mut store, &mut limiter, &mut bus, "Public WS");

    let listed = store.list_public_workspaces();
    assert_eq!(listed.len(), 1);
}

#[test]
fn test_get_workspace() {
    let (mut store, mut limiter, mut bus) = setup();
    let ws = create_workspace(&mut store, &mut limiter, &mut bus, "My WS");

    let got = api::get_workspace(&store, &ws.id).expect("workspace should exist");
    assert_eq!(got.name, "My WS");
    // the public row type carries no manage_key_hash field at all
}

#[test]
fn test_update_workspace_auth() {
    let (mut store, mut limiter, mut bus) = setup();
    let ws = create_workspace(&mut store, &mut limiter, &mut bus, "Before");

    // with a wrong key: refused
    let wrong = WorkspaceToken(String::from("wrong_key"));
    let r = api::verify_workspace_auth(&store, &ws.id, &wrong);
    assert!(matches!(r, Err(ApiError::Forbidden)));

    // with the correct key: the update goes through
    let token = WorkspaceToken(ws.manage_key.clone());
    api::verify_workspace_auth(&store, &ws.id, &token).expect("correct key should authorize");
    let outcome = store.update_workspace(&ws.id, Some("After"), None, None, 1010);
    assert!(matches!(outcome, agent_docs::store::UpdateOutcome::Updated));
    assert_eq!(api::get_workspace(&store, &ws.id).unwrap().name, "After");
}

#[test]
fn test_workspace_not_found() {
    let store = Store::new();
    assert!(api::get_workspace(&store, "nonexistent-id").is_none());
}

#[test]
fn test_private_workspace_not_in_public_list() {
    let (mut store, mut limiter, mut bus) = setup();

    // a private workspace
    let r = api::create_workspace(
        &mut store,
        &mut limiter,
        &mut bus,
        &ip(),
        Some("Private WS"),
        None,
        Some(false),
        1000,
    );
    assert!(r.is_ok());

    // a public workspace
    create_workspace(&mut store, &mut limiter, &mut bus, "Public WS");

    let listed = store.list_public_workspaces();
    assert_eq!(listed.len(), 1, "Only public workspace should be listed");
    assert_eq!(listed[0].name, "Public WS");
}

#[test]
fn test_rate_limiting() {
    let (mut store, mut bus) = (Store::new(), EventBus::new());
    let mut limiter = RateLimiter::new(3600, 3);

    // first three creations by one caller succeed
    for i in 0..3 {
        let name = format!("RateTest{}", i);
        let r = api::create_workspace(
            &mut store,
            &mut limiter,
            &mut bus,
            &ip(),
            Some(&name),
            None,
            None,
            2000,
        );
        assert!(r.is_ok());
    }

    // the fourth is rate limited
    let r = api::create_workspace(
        &mut store,
        &mut limiter,
        &mut bus,
        &ip(),
        Some("RateTestBlocked"),
        None,
        None,
        2000,
    );
    match r {
        Err(e @ ApiError::RateLimited(_)) => assert_eq!(e.code(), "RATE_LIMIT_EXCEEDED"),
        other => panic!("expected a rate-limited refusal, got {:?}", other.map(|w| w.id)),
    }
}

#[test]
fn workspace_name_is_required_and_trimmed() {
    let (mut store, mut limiter, mut bus) = setup();
    let r = api::create_workspace(&mut store, &mut limiter, &mut bus, &ip(), None, None, None, 0);
    assert!(matches!(r, Err(ApiError::Validation)));
    let r =
        api::create_workspace(&mut store, &mut limiter, &mut bus, &ip(), Some("   "), None, None, 0);
    assert!(matches!(r, Err(ApiError::Validation)));
    let ws = api::create_workspace(
        &mut store,
        &mut limiter,
        &mut bus,
        &ip(),
        Some("  Padded  "),
        None,
        None,
        0,
    )
    .unwrap();
    assert_eq!(ws.name, "Padded");
}
