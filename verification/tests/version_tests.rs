use agent_docs::api;
use agent_docs::api::{CreatedDocument, CreatedWorkspace};
use agent_docs::auth::WorkspaceToken;
use agent_docs::events::EventBus;
use agent_docs::rate_limit::{ClientIp, RateLimiter};
use agent_docs::store::Store;

fn setup() -> (Store, RateLimiter, EventBus) {
    (Store::new(), RateLimiter::new(3600, 10), EventBus::new())
}

fn create_workspace(
    store: &mut Store,
    limiter: &mut RateLimiter,
    bus: &mut EventBus,
    name: &str,
) -> CreatedWorkspace {
    let ip = ClientIp(String::from("127.0.0.1"));
    match api::create_workspace(store, limiter, bus, &ip, Some(name), None, Some(true), 1000) {
        Ok(ws) => ws,
        Err(e) => panic!("workspace creation failed: {:?}", e),
    }
}

fn create_doc(
    store: &mut Store,
    bus: &mut EventBus,
    ws_id: &str,
    key: &str,
    title: &str,
    content: &str,
) -> CreatedDocument {
    let token = WorkspaceToken(String::from(key));
    match api::create_document(
        store,
        bus,
        ws_id,
        &token,
        Some(title),
        Some(content),
        None,
        Some("published"),
        Some("TestAgent"),
        None,
        None,
        1001,
    ) {
        Ok(doc) => doc,
        Err(e) => panic!("document creation failed: {:?}", e),
    }
}

#[test]
fn test_diff_versions() {
    let (mut store, mut limiter, mut bus) = setup();
    let ws = create_workspace(&mut store, &mut limiter, &mut bus, "Diff WS");
    let token = WorkspaceToken(ws.manage_key.clone());

    let doc =
        create_doc(&mut store, &mut bus, &ws.id, &ws.manage_key, "Diff Doc", "Line one\nLine two");

    let r = api::update_document(
        &mut store,
        &mut bus,
        &ws.id,
        &doc.id,
        &token,
        None,
        Some("Line one\nLine three"),
        None,
        None,
        None,
        None,
        None,
        1010,
    );
    assert!(r.is_ok());

    let diff = api::get_diff(&store, &doc.id, 1, 2).expect("both versions exist");
    assert!(!diff.diff.is_empty());
    assert_eq!(diff.from_version, 1);
    assert_eq!(diff.to_version, 2);
}

#[test]
fn scenario_two_line_edit_counts_one_insertion_one_removal() {
    let (mut store, mut limiter, mut bus) = setup();
    let ws = create_workspace(&mut store, &mut limiter, &mut bus, "Count WS");
    let token = WorkspaceToken(ws.manage_key.clone());

    // version 1: "Line one\nLine two"
    let doc =
        create_doc(&mut store, &mut bus, &ws.id, &ws.manage_key, "Count Doc", "Line one\nLine two");

    // version 2: "Line one\nLine three"
    api::update_document(
        &mut store,
        &mut bus,
        &ws.id,
        &doc.id,
        &token,
        None,
        Some("Line one\nLine three"),
        None,
        None,
        None,
        None,
        None,
        1010,
    )
    .unwrap();

    let forward = api::get_diff(&store, &doc.id, 1, 2).unwrap();
    assert_eq!(forward.insertions, 1);
    assert_eq!(forward.removals, 1);
    assert_eq!(
        forward.diff,
        "--- version 1\n+++ version 2\n Line one\n-Line two\n+Line three\n"
    );

    // swapping the direction swaps the counts
    let backward = api::get_diff(&store, &doc.id, 2, 1).unwrap();
    assert_eq!(backward.insertions, forward.removals);
    assert_eq!(backward.removals, forward.insertions);

    // a diff of a version against itself reports no changes
    let same = api::get_diff(&store, &doc.id, 1, 1).unwrap();
    assert_eq!(same.insertions, 0);
    assert_eq!(same.removals, 0);

    // the diff is deterministic: a repeated call returns identical output
    let again = api::get_diff(&store, &doc.id, 1, 2).unwrap();
    assert_eq!(again.diff, forward.diff);
    assert_eq!(again.insertions, forward.insertions);
    assert_eq!(again.removals, forward.removals);
}

#[test]
fn test_restore_version() {
    let (mut store, mut limiter, mut bus) = setup();
    let ws = create_workspace(&mut store, &mut limiter, &mut bus, "Restore WS");
    let token = WorkspaceToken(ws.manage_key.clone());

    let doc = create_doc(
        &mut store,
        &mut bus,
        &ws.id,
        &ws.manage_key,
        "Versioned Doc",
        "Version 1 content",
    );

    // update to create version 2
    api::update_document(
        &mut store,
        &mut bus,
        &ws.id,
        &doc.id,
        &token,
        None,
        Some("Version 2 content"),
        None,
        None,
        None,
        None,
        None,
        1010,
    )
    .unwrap();

    // current content is version 2
    let got = store.get_document(&ws.id, &doc.slug).unwrap();
    assert!(got.content.contains("Version 2"));

    // restore to version 1
    let restored = api::restore_version(&mut store, &ws.id, &doc.id, 1, &token, 1020).unwrap();
    assert_eq!(restored.from_version, 1);

    // content is back
    let got = store.get_document(&ws.id, &doc.slug).unwrap();
    assert!(got.content.contains("Version 1"));
}

#[test]
fn test_version_list_ordering() {
    let (mut store, mut limiter, mut bus) = setup();
    let ws = create_workspace(&mut store, &mut limiter, &mut bus, "Version Order WS");
    let token = WorkspaceToken(ws.manage_key.clone());

    let doc =
        create_doc(&mut store, &mut bus, &ws.id, &ws.manage_key, "Versioned Doc", "Version 1");

    // three more versions
    for i in 2u64..=4 {
        let content = format!("Version {}", i);
        let r = api::update_document(
            &mut store,
            &mut bus,
            &ws.id,
            &doc.id,
            &token,
            None,
            Some(&content),
            None,
            None,
            None,
            Some("TestAgent"),
            None,
            1000 + i,
        );
        assert!(r.is_ok(), "Failed to update doc for version {}", i);
    }

    let versions = api::list_versions(&store, &doc.id, None, None).unwrap();
    assert!(versions.len() >= 4, "Expected at least 4 versions, got {}", versions.len());

    // strictly descending sequence numbers, newest first
    for (k, v) in versions.iter().enumerate() {
        assert_eq!(v.version_number, (versions.len() - k) as u64);
    }
}

#[test]
fn version_pagination_clamps_and_offsets() {
    let (mut store, mut limiter, mut bus) = setup();
    let ws = create_workspace(&mut store, &mut limiter, &mut bus, "Page WS");
    let token = WorkspaceToken(ws.manage_key.clone());
    let doc = create_doc(&mut store, &mut bus, &ws.id, &ws.manage_key, "Page Doc", "v1");
    for i in 2u64..=6 {
        let content = format!("v{}", i);
        api::update_document(
            &mut store,
            &mut bus,
            &ws.id,
            &doc.id,
            &token,
            None,
            Some(&content),
            None,
            None,
            None,
            None,
            None,
            1000 + i,
        )
        .unwrap();
    }
    // six versions in all; a page of two starting after the first two
    let page = api::list_versions(&store, &doc.id, Some(2), Some(2)).unwrap();
    assert_eq!(page.len(), 2);
    assert_eq!(page[0].version_number, 4);
    assert_eq!(page[1].version_number, 3);
    // an offset past the end yields an empty page
    let empty = api::list_versions(&store, &doc.id, Some(2), Some(100)).unwrap();
    assert!(empty.is_empty());
    // a missing document is reported, not an empty page
    assert!(api::list_versions(&store, "no-such-doc", None, None).is_err());
}

#[test]
fn get_version_bounds() {
    let (mut store, mut limiter, mut bus) = setup();
    let ws = create_workspace(&mut store, &mut limiter, &mut bus, "Bounds WS");
    let doc = create_doc(&mut store, &mut bus, &ws.id, &ws.manage_key, "Bounds Doc", "first");

    assert!(store.get_version(&doc.id, 0).is_none());
    assert!(store.get_version(&doc.id, 2).is_none());
    let v1 = store.get_version(&doc.id, 1).unwrap();
    assert_eq!(v1.version_number, 1);
    assert_eq!(v1.content, "first");
    assert_eq!(v1.change_description, "Initial version");
}
