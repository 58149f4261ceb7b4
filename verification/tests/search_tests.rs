use agent_docs::api;
use agent_docs::api::{CreatedDocument, CreatedWorkspace};
use agent_docs::auth::WorkspaceToken;
use agent_docs::events::EventBus;
use agent_docs::rate_limit::{ClientIp, RateLimiter};
use agent_docs::store::Store;

fn setup() -> (Store, RateLimiter, EventBus) {
    (Store::new(), RateLimiter::new(3600, 10), EventBus::new())
}

fn create_workspace(
    store: &mut Store,
    limiter: &mut RateLimiter,
    bus: &mut EventBus,
    name: &str,
) -> CreatedWorkspace {
    let ip = ClientIp(String::from("127.0.0.1"));
    match api::create_workspace(store, limiter, bus, &ip, Some(name), None, Some(true), 1000) {
        Ok(ws) => ws,
        Err(e) => panic!("workspace creation failed: {:?}", e),
    }
}

fn create_doc(
    store: &mut Store,
    bus: &mut EventBus,
    ws_id: &str,
    key: &str,
    title: &str,
    content: &str,
) -> CreatedDocument {
    let token = WorkspaceToken(String::from(key));
    match api::create_document(
        store,
        bus,
        ws_id,
        &token,
        Some(title),
        Some(content),
        None,
        Some("published"),
        Some("TestAgent"),
        None,
        None,
        1001,
    ) {
        Ok(doc) => doc,
        Err(e) => panic!("document creation failed: {:?}", e),
    }
}

#[test]
fn test_search_documents() {
    let (mut store, mut limiter, mut bus) = setup();
    let ws = create_workspace(&mut store, &mut limiter, &mut bus, "Search WS");

    create_doc(
        &mut store,
        &mut bus,
        &ws.id,
        &ws.manage_key,
        "Rust Guide",
        "Learn Rust programming language",
    );
    create_doc(
        &mut store,
        &mut bus,
        &ws.id,
        &ws.manage_key,
        "Python Guide",
        "Learn Python programming language",
    );

    let out = api::search_documents(&store, &ws.id, "Rust", None, None);
    assert_eq!(out.count, 1);
    assert_eq!(out.results[0].title, "Rust Guide");

    let out = api::search_documents(&store, &ws.id, "programming", None, None);
    assert_eq!(out.count, 2);
}

#[test]
fn test_search_across_documents() {
    let (mut store, mut limiter, mut bus) = setup();
    let ws = create_workspace(&mut store, &mut limiter, &mut bus, "Multi Search WS");

    create_doc(
        &mut store,
        &mut bus,
        &ws.id,
        &ws.manage_key,
        "Alpha fox document",
        "The quick brown animal",
    );
    create_doc(
        &mut store,
        &mut bus,
        &ws.id,
        &ws.manage_key,
        "Beta dog document",
        "Lazy canine sleeping",
    );
    create_doc(
        &mut store,
        &mut bus,
        &ws.id,
        &ws.manage_key,
        "Gamma fox report",
        "Another vulpine article",
    );

    let out = api::search_documents(&store, &ws.id, "fox", None, None);
    assert_eq!(out.count, 2, "Expected 2 results for 'fox', got {}", out.count);

    let out = api::search_documents(&store, &ws.id, "dog", None, None);
    assert_eq!(out.count, 1);

    let out = api::search_documents(&store, &ws.id, "zzzznonexistent", None, None);
    assert_eq!(out.count, 0);
}

#[test]
fn search_ignores_ascii_case_and_other_workspaces() {
    let (mut store, mut limiter, mut bus) = setup();
    let ws1 = create_workspace(&mut store, &mut limiter, &mut bus, "Case WS");
    let ws2 = create_workspace(&mut store, &mut limiter, &mut bus, "Other WS");

    create_doc(&mut store, &mut bus, &ws1.id, &ws1.manage_key, "Rust Guide", "notes");
    create_doc(&mut store, &mut bus, &ws2.id, &ws2.manage_key, "Rust Elsewhere", "notes");

    // case-folded match, scoped to the one workspace
    let out = api::search_documents(&store, &ws1.id, "rUsT", None, None);
    assert_eq!(out.count, 1);
    assert_eq!(out.results[0].title, "Rust Guide");
}
