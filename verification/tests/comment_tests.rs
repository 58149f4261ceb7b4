use agent_docs::api;
use agent_docs::api::{ApiError, CreatedDocument, CreatedWorkspace};
use agent_docs::auth::WorkspaceToken;
use agent_docs::events::EventBus;
use agent_docs::rate_limit::{ClientIp, RateLimiter};
use agent_docs::store::Store;

fn setup() -> (Store, RateLimiter, EventBus) {
    (Store::new(), RateLimiter::new(3600, 10), EventBus::new())
}

fn create_workspace(
    store: &mut Store,
    limiter: &mut RateLimiter,
    bus: &mut EventBus,
    name: &str,
) -> CreatedWorkspace {
    let ip = ClientIp(String::from("127.0.0.1"));
    match api::create_workspace(store, limiter, bus, &ip, Some(name), None, Some(true), 1000) {
        Ok(ws) => ws,
        Err(e) => panic!("workspace creation failed: {:?}", e),
    }
}

fn create_doc(
    store: &mut Store,
    bus: &mut EventBus,
    ws_id: &str,
    key: &str,
    title: &str,
    content: &str,
) -> CreatedDocument {
    let token = WorkspaceToken(String::from(key));
    match api::create_document(
        store,
        bus,
        ws_id,
        &token,
        Some(title),
        Some(content),
        None,
        Some("published"),
        Some("TestAgent"),
        None,
        None,
        1001,
    ) {
        Ok(doc) => doc,
        Err(e) => panic!("document creation failed: {:?}", e),
    }
}

#[test]
fn test_comments() {
    let (mut store, mut limiter, mut bus) = setup();
    let ws = create_workspace(&mut store, &mut limiter, &mut bus, "Comment WS");

    let doc = create_doc(&mut store, &mut bus, &ws.id, &ws.manage_key, "Comment Doc", "Content");

    // add a comment — no manage key needed
    let comment = api::create_comment(
        &mut store,
        &mut bus,
        &ws.id,
        &doc.id,
        Some("Agent1"),
        Some("Great doc!"),
        None,
        1002,
    )
    .unwrap();
    assert_eq!(comment.author_name, "Agent1");

    // add a reply
    let reply = api::create_comment(
        &mut store,
        &mut bus,
        &ws.id,
        &doc.id,
        Some("Agent2"),
        Some("Thanks!"),
        Some(&comment.id),
        1003,
    );
    assert!(reply.is_ok());

    // list
    let comments = store.list_comments(&doc.id).unwrap();
    assert_eq!(comments.len(), 2);
    assert_eq!(comments[1].parent_id.as_deref(), Some(comment.id.as_str()));
}

#[test]
fn test_comment_moderation() {
    let (mut store, mut limiter, mut bus) = setup();
    let ws = create_workspace(&mut store, &mut limiter, &mut bus, "Comment Mod WS");
    let token = WorkspaceToken(ws.manage_key.clone());

    let doc =
        create_doc(&mut store, &mut bus, &ws.id, &ws.manage_key, "Comment Mod Doc", "Content");

    let comment = api::create_comment(
        &mut store,
        &mut bus,
        &ws.id,
        &doc.id,
        Some("Agent1"),
        Some("To be resolved"),
        None,
        1002,
    )
    .unwrap();

    // resolve it — a management action
    let r = api::update_comment(
        &mut store,
        &mut bus,
        &ws.id,
        &doc.id,
        &comment.id,
        &token,
        None,
        Some(true),
        1003,
    );
    assert!(r.is_ok());
    let comments = store.list_comments(&doc.id).unwrap();
    assert!(comments[0].resolved);

    // a second comment, then delete it
    let spam = api::create_comment(
        &mut store,
        &mut bus,
        &ws.id,
        &doc.id,
        Some("Spammer"),
        Some("Delete me"),
        None,
        1004,
    )
    .unwrap();
    let r = api::delete_comment(&mut store, &mut bus, &ws.id, &doc.id, &spam.id, &token);
    assert!(r.is_ok());

    // one comment remains
    let comments = store.list_comments(&doc.id).unwrap();
    assert_eq!(comments.len(), 1);
}

#[test]
fn test_comment_update_content() {
    let (mut store, mut limiter, mut bus) = setup();
    let ws = create_workspace(&mut store, &mut limiter, &mut bus, "Comment Edit WS");
    let token = WorkspaceToken(ws.manage_key.clone());

    let doc =
        create_doc(&mut store, &mut bus, &ws.id, &ws.manage_key, "Comment Edit Doc", "Content");

    let comment = api::create_comment(
        &mut store,
        &mut bus,
        &ws.id,
        &doc.id,
        Some("Agent1"),
        Some("Original text"),
        None,
        1002,
    )
    .unwrap();

    // edit the text with the manage key
    let r = api::update_comment(
        &mut store,
        &mut bus,
        &ws.id,
        &doc.id,
        &comment.id,
        &token,
        Some("Updated text"),
        None,
        1003,
    );
    assert!(r.is_ok());
    let comments = store.list_comments(&doc.id).unwrap();
    assert_eq!(comments[0].content, "Updated text");

    // delete without a valid key must fail
    let bad = WorkspaceToken(String::from("nope"));
    let r = api::delete_comment(&mut store, &mut bus, &ws.id, &doc.id, &comment.id, &bad);
    assert!(matches!(r, Err(ApiError::Forbidden)));
}

#[test]
fn comment_validation_errors() {
    let (mut store, mut limiter, mut bus) = setup();
    let ws = create_workspace(&mut store, &mut limiter, &mut bus, "Comment Val WS");
    let token = WorkspaceToken(ws.manage_key.clone());
    let doc = create_doc(&mut store, &mut bus, &ws.id, &ws.manage_key, "Val Doc", "Content");

    // author and content are required, and blank means missing
    let r = api::create_comment(&mut store, &mut bus, &ws.id, &doc.id, None, Some("hi"), None, 0);
    assert!(matches!(r, Err(ApiError::Validation)));
    let r =
        api::create_comment(&mut store, &mut bus, &ws.id, &doc.id, Some("A"), Some("  "), None, 0);
    assert!(matches!(r, Err(ApiError::Validation)));

    // a comment on a missing document is reported as such
    let r =
        api::create_comment(&mut store, &mut bus, &ws.id, "ghost", Some("A"), Some("hi"), None, 0);
    assert!(matches!(r, Err(ApiError::NotFound)));

    // an update must name at least one field
    let c = api::create_comment(
        &mut store,
        &mut bus,
        &ws.id,
        &doc.id,
        Some("A"),
        Some("text"),
        None,
        0,
    )
    .unwrap();
    let r = api::update_comment(
        &mut store,
        &mut bus,
        &ws.id,
        &doc.id,
        &c.id,
        &token,
        None,
        None,
        1,
    );
    assert!(matches!(r, Err(ApiError::Validation)));
}
