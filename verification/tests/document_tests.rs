use agent_docs::api;
use agent_docs::api::{ApiError, CreatedDocument, CreatedWorkspace};
use agent_docs::auth::WorkspaceToken;
use agent_docs::events::EventBus;
use agent_docs::rate_limit::{ClientIp, RateLimiter};
use agent_docs::store::Store;

fn setup() -> (Store, RateLimiter, EventBus) {
    (Store::new(), RateLimiter::new(3600, 10), EventBus::new())
}

fn create_workspace(
    store: &mut Store,
    limiter: &mut RateLimiter,
    bus: &mut EventBus,
    name: &str,
) -> CreatedWorkspace {
    let ip = ClientIp(String::from("127.0.0.1"));
    match api::create_workspace(store, limiter, bus, &ip, Some(name), None, Some(true), 1000) {
        Ok(ws) => ws,
        Err(e) => panic!("workspace creation failed: {:?}", e),
    }
}

fn create_doc(
    store: &mut Store,
    bus: &mut EventBus,
    ws_id: &str,
    key: &str,
    title: &str,
    content: &str,
) -> CreatedDocument {
    let token = WorkspaceToken(String::from(key));
    match api::create_document(
        store,
        bus,
        ws_id,
        &token,
        Some(title),
        Some(content),
        None,
        Some("published"),
        Some("TestAgent"),
        None,
        None,
        1001,
    ) {
        Ok(doc) => doc,
        Err(e) => panic!("document creation failed: {:?}", e),
    }
}

#[test]
fn test_create_and_get_document() {
    let (mut store, mut limiter, mut bus) = setup();
    let ws = create_workspace(&mut store, &mut limiter, &mut bus, "Doc WS");

    let doc = create_doc(
        &mut store,
        &mut bus,
        &ws.id,
        &ws.manage_key,
        "Hello World",
        "# Hello\nThis is a test.",
    );
    assert_eq!(doc.slug, "hello-world");

    // get by slug
    let got = store.get_document(&ws.id, "hello-world").expect("document should exist");
    assert_eq!(got.title, "Hello World");
    assert!(got.content_html.contains("<h1>"));
}

#[test]
fn test_list_documents_public_only() {
    let (mut store, mut limiter, mut bus) = setup();
    let ws = create_workspace(&mut store, &mut limiter, &mut bus, "Doc List WS");
    let token = WorkspaceToken(ws.manage_key.clone());

    // a published document
    create_doc(&mut store, &mut bus, &ws.id, &ws.manage_key, "Published", "Content");

    // a draft document
    let r = api::create_document(
        &mut store,
        &mut bus,
        &ws.id,
        &token,
        Some("Draft"),
        Some("Secret"),
        None,
        Some("draft"),
        None,
        None,
        None,
        1002,
    );
    assert!(r.is_ok());

    // public list: only the published one
    let public = api::list_documents(&store, &ws.id, None);
    assert_eq!(public.len(), 1);

    // with the manage key: drafts included
    let with_key = api::list_documents(&store, &ws.id, Some(&ws.manage_key));
    assert_eq!(with_key.len(), 2);
}

#[test]
fn test_update_document_creates_version() {
    let (mut store, mut limiter, mut bus) = setup();
    let ws = create_workspace(&mut store, &mut limiter, &mut bus, "Version WS");
    let token = WorkspaceToken(ws.manage_key.clone());

    let doc =
        create_doc(&mut store, &mut bus, &ws.id, &ws.manage_key, "Versioned Doc", "Version 1 content");

    let r = api::update_document(
        &mut store,
        &mut bus,
        &ws.id,
        &doc.id,
        &token,
        None,
        Some("Version 2 content"),
        None,
        None,
        None,
        None,
        Some("Updated intro"),
        1010,
    );
    assert!(r.is_ok());

    // two versions: the initial one plus the update
    let versions = api::list_versions(&store, &doc.id, None, None).unwrap();
    assert_eq!(versions.len(), 2);
}

#[test]
fn test_delete_document() {
    let (mut store, mut limiter, mut bus) = setup();
    let ws = create_workspace(&mut store, &mut limiter, &mut bus, "Delete WS");
    let token = WorkspaceToken(ws.manage_key.clone());

    let doc = create_doc(&mut store, &mut bus, &ws.id, &ws.manage_key, "Delete Me", "Bye");

    let r = api::delete_document(&mut store, &mut bus, &ws.id, &doc.id, &token);
    assert!(r.is_ok());

    // gone
    assert!(store.get_document(&ws.id, "delete-me").is_none());
}

#[test]
fn test_duplicate_slug_rejected() {
    let (mut store, mut limiter, mut bus) = setup();
    let ws = create_workspace(&mut store, &mut limiter, &mut bus, "Dup Slug WS");
    let token = WorkspaceToken(ws.manage_key.clone());

    create_doc(&mut store, &mut bus, &ws.id, &ws.manage_key, "Same Title", "First");

    let r = api::create_document(
        &mut store,
        &mut bus,
        &ws.id,
        &token,
        Some("Same Title"),
        Some("Second"),
        None,
        Some("published"),
        None,
        None,
        None,
        1002,
    );
    assert!(matches!(r, Err(ApiError::Conflict)));
}

#[test]
fn test_create_doc_wrong_key_fails() {
    let (mut store, mut limiter, mut bus) = setup();
    let ws = create_workspace(&mut store, &mut limiter, &mut bus, "Wrong Key WS");

    let wrong = WorkspaceToken(String::from("adoc_wrongkey"));
    let r = api::create_document(
        &mut store,
        &mut bus,
        &ws.id,
        &wrong,
        Some("Wrong Key"),
        Some("test"),
        None,
        Some("published"),
        Some("Agent"),
        None,
        None,
        1002,
    );
    assert!(matches!(r, Err(ApiError::Forbidden)));
}

#[test]
fn test_create_doc_in_nonexistent_workspace() {
    let (mut store, mut bus) = (Store::new(), EventBus::new());

    let token = WorkspaceToken(String::from("adoc_somekey"));
    let r = api::create_document(
        &mut store,
        &mut bus,
        "nonexistent-id",
        &token,
        Some("Orphan"),
        Some("test"),
        None,
        Some("published"),
        Some("Agent"),
        None,
        None,
        1002,
    );
    assert!(matches!(r, Err(ApiError::NotFound)) || matches!(r, Err(ApiError::Forbidden)));
}

#[test]
fn test_delete_doc_without_auth_fails() {
    let (mut store, mut limiter, mut bus) = setup();
    let ws = create_workspace(&mut store, &mut limiter, &mut bus, "Delete Auth WS");

    let doc = create_doc(&mut store, &mut bus, &ws.id, &ws.manage_key, "Protected Doc", "Content");

    // with no valid key the delete must not succeed
    let bad = WorkspaceToken(String::new());
    let r = api::delete_document(&mut store, &mut bus, &ws.id, &doc.id, &bad);
    assert!(r.is_err(), "Delete without auth should not succeed");

    // the document still exists
    assert!(store.get_document(&ws.id, &doc.slug).is_some());
}

#[test]
fn test_document_html_rendering() {
    let (mut store, mut limiter, mut bus) = setup();
    let ws = create_workspace(&mut store, &mut limiter, &mut bus, "HTML WS");
    let token = WorkspaceToken(ws.manage_key.clone());

    let doc = api::create_document(
        &mut store,
        &mut bus,
        &ws.id,
        &token,
        Some("Markdown Doc"),
        Some("**Bold** text"),
        None,
        Some("published"),
        Some("TestAgent"),
        None,
        None,
        1002,
    )
    .unwrap();

    let got = store.get_document(&ws.id, &doc.slug).expect("document should exist");
    let html = got.content_html;
    assert!(!html.is_empty(), "content_html should not be empty");
    assert!(
        html.contains("<strong>") || html.contains("<b>"),
        "HTML should contain bold markup, got: {}",
        html
    );
}
