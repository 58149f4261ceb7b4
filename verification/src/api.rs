//! Operation layer: the request-level rules behind each endpoint —
//! validation, rate limiting, authorization, derived fields (slug, rendered
//! HTML, word count), the storage effect and the change event it publishes.
//! Transport, JSON and status codes stay with the caller.

use vstd::prelude::*;

use crate::auth::{key_digest, WorkspaceToken};
use crate::events::{published, EventBus, SseEvent};
use crate::rate_limit::{checked, RateLimiter};
use crate::store::Store;
use crate::text::{slug_of, trim_of};

verus! {

/// Why a request was refused.
#[derive(Debug)]
pub enum ApiError {
    /// A required field is missing or malformed; nothing was touched.
    Validation,
    /// The manage key does not match the workspace.
    Forbidden,
    /// The addressed row does not exist.
    NotFound,
    /// A recoverable clash: a duplicate slug, or a lock held by someone
    /// else — try again.
    Conflict,
    /// The creation rate limit is exhausted; retry after this many seconds.
    RateLimited(u64),
    /// An id collision or other storage-level failure.
    Internal,
}

impl ApiError {
    /// The stable machine-readable code for this error.
    pub fn code(&self) -> (r: &'static str)
        ensures
            match self {
                ApiError::Validation => r@ == "VALIDATION_ERROR"@,
                ApiError::Forbidden => r@ == "FORBIDDEN"@,
                ApiError::NotFound => r@ == "NOT_FOUND"@,
                ApiError::Conflict => r@ == "CONFLICT"@,
                ApiError::RateLimited(_) => r@ == "RATE_LIMIT_EXCEEDED"@,
                ApiError::Internal => r@ == "INTERNAL_ERROR"@,
            },
    {
        match self {
            ApiError::Validation => "VALIDATION_ERROR",
            ApiError::Forbidden => "FORBIDDEN",
            ApiError::NotFound => "NOT_FOUND",
            ApiError::Conflict => "CONFLICT",
            ApiError::RateLimited(_) => "RATE_LIMIT_EXCEEDED",
            ApiError::Internal => "INTERNAL_ERROR",
        }
    }

    /// The HTTP status a transport would answer with.
    pub fn http_status(&self) -> (r: u16)
        ensures
            match self {
                ApiError::Validation => r == 400,
                ApiError::Forbidden => r == 403,
                ApiError::NotFound => r == 404,
                ApiError::Conflict => r == 409,
                ApiError::RateLimited(_) => r == 429,
                ApiError::Internal => r == 500,
            },
    {
        match self {
            ApiError::Validation => 400,
            ApiError::Forbidden => 403,
            ApiError::NotFound => 404,
            ApiError::Conflict => 409,
            ApiError::RateLimited(_) => 429,
            ApiError::Internal => 500,
        }
    }
}

/// What `render_markdown` returns: the HTML is a function of the markdown
/// text alone.
pub uninterp spec fn html_of(markdown: Seq<char>) -> Seq<char>;

/// Relies on pulldown_cmark (Parser::new_ext with tables, strikethrough
/// and task lists enabled, and html::push_html): the rendered HTML of the
/// markdown text, determined by that text alone.
#[verifier::external_body]
pub fn render_markdown(content: &str) -> (r: String)
    ensures
        r@ == html_of(content@),
{
    let mut options = pulldown_cmark::Options::empty();
    options.insert(pulldown_cmark::Options::ENABLE_TABLES);
    options.insert(pulldown_cmark::Options::ENABLE_STRIKETHROUGH);
    options.insert(pulldown_cmark::Options::ENABLE_TASKLISTS);
    let parser = pulldown_cmark::Parser::new_ext(content, options);
    let mut html_output = String::new();
    pulldown_cmark::html::push_html(&mut html_output, parser);
    html_output
}

/// Relies on uuid::Uuid::new_v4 and its hyphenated rendering: a fresh
/// random identifier. Nothing can be promised of its value; every outcome
/// is 36 characters long.
#[verifier::external_body]
fn fresh_id() -> (r: String)
    ensures
        r@.len() == 36,
{
    uuid::Uuid::new_v4().to_string()
}

/// Checks that `token` manages workspace `workspace_id`: the workspace
/// must exist and the token's digest must equal the stored key digest.
pub fn verify_workspace_auth(store: &Store, workspace_id: &str, token: &WorkspaceToken) -> (r:
    Result<(), ApiError>)
    requires
        store.wf(),
    ensures
        r is Ok <==> store.has_workspace(workspace_id@) && key_digest(token.0@) == store.workspace(
            workspace_id@,
        ).manage_key_hash@,
        !store.has_workspace(workspace_id@) ==> r == Result::<(), ApiError>::Err(
            ApiError::NotFound,
        ),
        store.has_workspace(workspace_id@) && key_digest(token.0@) != store.workspace(
            workspace_id@,
        ).manage_key_hash@ ==> r == Result::<(), ApiError>::Err(ApiError::Forbidden),
{
    match store.get_workspace(workspace_id) {
        None => Err(ApiError::NotFound),
        Some(ws) => {
            if crate::auth::verify_key(token.0.as_str(), ws.manage_key_hash.as_str()) {
                Ok(())
            } else {
                Err(ApiError::Forbidden)
            }
        },
    }
}

/// Answer to a successful workspace creation: the one moment the manage
/// key is ever shown.
pub struct CreatedWorkspace {
    pub id: String,
    pub name: String,
    pub description: String,
    pub is_public: bool,
    pub manage_key: String,
}

/// Creates a workspace: the creation endpoint is rate limited per caller
/// identity, the name is required (after trimming), a fresh manage key is
/// generated and only its digest is stored, and a `workspace.created`
/// event is published.
pub fn create_workspace(
    store: &mut Store,
    limiter: &mut RateLimiter,
    bus: &mut EventBus,
    client_ip: &crate::rate_limit::ClientIp,
    name: Option<&str>,
    description: Option<&str>,
    is_public: Option<bool>,
    now: u64,
) -> (r: Result<CreatedWorkspace, ApiError>)
    requires
        old(store).wf(),
        old(limiter).wf(),
        old(bus).wf(),
    ensures
        final(store).wf(),
        final(limiter).wf(),
        final(bus).wf(),
        exists|res: crate::rate_limit::RateLimitResult|
            #[trigger] checked(
                *old(limiter),
                *final(limiter),
                client_ip.0@,
                old(limiter).default_limit,
                now,
                res,
            ),
        // refused while the caller's window is exhausted, with the window's
        // remaining time as the retry hint
        (old(limiter).live_count(client_ip.0@, now) >= old(limiter).default_limit) <==> (r
            matches Err(e) && e is RateLimited),
        r matches Err(e) ==> e matches ApiError::RateLimited(ra) ==> ra == if old(
            limiter,
        ).window_secs > crate::rate_limit::elapsed_since(
            old(limiter).live_start(client_ip.0@, now),
            now,
        ) {
            old(limiter).window_secs - crate::rate_limit::elapsed_since(
                old(limiter).live_start(client_ip.0@, now),
                now,
            )
        } else {
            0int
        },
        // under the limit, a missing or blank name is the one rejection
        old(limiter).live_count(client_ip.0@, now) < old(limiter).default_limit ==> ((r
            matches Err(e) && e is Validation) <==> (name is None || trim_of(name->0@).len()
            == 0)),
        // under the limit with a usable name, the work is owed: only a
        // collision of the freshly drawn id can still fail, internally
        old(limiter).live_count(client_ip.0@, now) < old(limiter).default_limit && name is Some
            && trim_of(name->0@).len() > 0 ==> (r is Ok || (r matches Err(e) && e is Internal)),
        r is Err ==> final(store).workspaces@ == old(store).workspaces@ && final(store).documents@
            == old(store).documents@ && *final(bus) == *old(bus),
        r matches Ok(c) ==> ({
            &&& name is Some
            &&& c.name@ == trim_of(name->0@)
            &&& c.description@ == (if description is Some {
                description->0@
            } else {
                Seq::<char>::empty()
            })
            &&& c.is_public == (if is_public is Some {
                is_public->0
            } else {
                false
            })
            &&& final(store).workspaces@.len() == old(store).workspaces@.len() + 1
            &&& (forall|k: int|
                0 <= k < old(store).workspaces@.len() ==> final(store).workspaces@[k] == old(
                    store,
                ).workspaces@[k])
            &&& ({
                let w = final(store).workspaces@.last();
                &&& w.id@ == c.id@
                &&& w.name@ == c.name@
                &&& w.description@ == c.description@
                &&& w.is_public == c.is_public
                &&& w.manage_key_hash@ == key_digest(c.manage_key@)
                &&& w.created_at == now
            })
            &&& final(store).documents@ == old(store).documents@
            &&& (exists|e: SseEvent|
                published(*old(bus), *final(bus), e) && e.workspace_id@ == c.id@ && e.event_type@
                    == "workspace.created"@)
        }),
{
    let limit = limiter.default_limit;
    let rl = limiter.check_at(client_ip.0.as_str(), limit, now);
    if !rl.allowed {
        return Err(ApiError::RateLimited(rl.reset_secs));
    }
    let trimmed = match name {
        Some(n) => crate::text::trim(n),
        None => {
            return Err(ApiError::Validation);
        },
    };
    if trimmed.as_str().is_empty() {
        return Err(ApiError::Validation);
    }
    let description_owned = match description {
        Some(d) => d.to_owned(),
        None => String::new(),
    };
    let public = match is_public {
        Some(p) => p,
        None => false,
    };
    let id = fresh_id();
    let manage_key = crate::auth::generate_key();
    let key_hash = crate::auth::hash_key(manage_key.as_str());
    let ok = store.create_workspace(
        id.as_str(),
        trimmed.as_str(),
        description_owned.as_str(),
        key_hash.as_str(),
        public,
        now,
    );
    if !ok {
        // the freshly drawn id collided with an existing row
        return Err(ApiError::Internal);
    }
    let mut data: Vec<(String, String)> = Vec::new();
    data.push((String::from_str("id"), id.clone()));
    data.push((String::from_str("name"), trimmed.clone()));
    bus.emit(id.as_str(), "workspace.created", data);
    Ok(
        CreatedWorkspace {
            id,
            name: trimmed,
            description: description_owned,
            is_public: public,
            manage_key,
        },
    )
}

/// Workspace row as shown publicly: everything but the key digest.
pub struct PublicWorkspace {
    pub id: String,
    pub name: String,
    pub description: String,
    pub is_public: bool,
    pub created_at: u64,
    pub updated_at: u64,
}

/// The workspace row with the key digest withheld.
pub fn get_workspace(store: &Store, id: &str) -> (r: Option<PublicWorkspace>)
    requires
        store.wf(),
    ensures
        r is Some == store.has_workspace(id@),
        r matches Some(w) ==> ({
            let ws = store.workspace(id@);
            &&& w.id == ws.id
            &&& w.name == ws.name
            &&& w.description == ws.description
            &&& w.is_public == ws.is_public
            &&& w.created_at == ws.created_at
            &&& w.updated_at == ws.updated_at
        }),
{
    match store.get_workspace(id) {
        None => None,
        Some(ws) => Some(
            PublicWorkspace {
                id: ws.id,
                name: ws.name,
                description: ws.description,
                is_public: ws.is_public,
                created_at: ws.created_at,
                updated_at: ws.updated_at,
            },
        ),
    }
}

/// Lists a workspace's documents: published rows for everyone; drafts too
/// when a valid manage key accompanies the request.
pub fn list_documents(store: &Store, workspace_id: &str, key: Option<&str>) -> (r: Vec<
    crate::store::DocumentInfo,
>)
    requires
        store.wf(),
    ensures
        ({
            let with_drafts = key is Some && store.has_workspace(workspace_id@) && key_digest(
                key->0@,
            ) == store.workspace(workspace_id@).manage_key_hash@;
            r@ == crate::store::docs_in_workspace(store.documents@, workspace_id@, with_drafts)
        }),
{
    let include_drafts = match key {
        Some(k) => {
            let token = WorkspaceToken(k.to_owned());
            verify_workspace_auth(store, workspace_id, &token).is_ok()
        },
        None => false,
    };
    store.list_documents(workspace_id, include_drafts)
}

/// Answer to a successful document creation.
pub struct CreatedDocument {
    pub id: String,
    pub slug: String,
    pub status: String,
    pub word_count: i32,
}

/// The word-count value stored for a text: the token count, saturated to
/// the field's range.
pub open spec fn stored_word_count(s: Seq<char>) -> int {
    if crate::text::count_words(s) <= i32::MAX {
        crate::text::count_words(s)
    } else {
        i32::MAX as int
    }
}

/// Creates a document under a managed workspace: the title is required,
/// the slug is taken as given or derived from the trimmed title, markdown
/// is rendered and words are counted at commit time, version 1 is
/// synthesized, a duplicate slug is a recoverable conflict, and a
/// `document.created` event is published.
#[verifier::rlimit(60)]
pub fn create_document(
    store: &mut Store,
    bus: &mut EventBus,
    workspace_id: &str,
    token: &WorkspaceToken,
    title: Option<&str>,
    content: Option<&str>,
    summary: Option<&str>,
    status: Option<&str>,
    author_name: Option<&str>,
    tags: Option<&str>,
    slug: Option<&str>,
    now: u64,
) -> (r: Result<CreatedDocument, ApiError>)
    requires
        old(store).wf(),
        old(bus).wf(),
    ensures
        final(store).wf(),
        final(bus).wf(),
        !old(store).has_workspace(workspace_id@) ==> (r matches Err(e) && e is NotFound),
        old(store).has_workspace(workspace_id@) && key_digest(token.0@) != old(store).workspace(
            workspace_id@,
        ).manage_key_hash@ ==> (r matches Err(e) && e is Forbidden),
        ({
            let authorized = old(store).has_workspace(workspace_id@) && key_digest(token.0@)
                == old(store).workspace(workspace_id@).manage_key_hash@;
            let the_slug = if slug is Some {
                slug->0@
            } else {
                slug_of(trim_of(if title is Some {
                    title->0@
                } else {
                    Seq::empty()
                }))
            };
            let valid = title is Some && trim_of(title->0@).len() > 0;
            &&& (authorized ==> ((r matches Err(e) && e is Validation) <==> !valid))
            &&& (authorized && valid ==> ((r matches Err(e) && e is Conflict) <==> old(
                store,
            ).has_doc_slug(workspace_id@, the_slug)))
            // authorized, valid and slug-free, the creation is owed: only a
            // collision of the freshly drawn ids can still fail, internally
            &&& (authorized && valid && !old(store).has_doc_slug(workspace_id@, the_slug) ==> (
            r is Ok || (r matches Err(e) && e is Internal)))
            &&& (r matches Ok(c) ==> ({
                let cont = if content is Some {
                    content->0@
                } else {
                    Seq::<char>::empty()
                };
                &&& authorized && valid
                &&& c.slug@ == the_slug
                &&& c.status@ == (if status is Some {
                    status->0@
                } else {
                    "draft"@
                })
                &&& c.word_count == stored_word_count(cont)
                &&& final(store).documents@.len() == old(store).documents@.len() + 1
                &&& (forall|k: int|
                    0 <= k < old(store).documents@.len() ==> final(store).documents@[k] == old(
                        store,
                    ).documents@[k])
                &&& ({
                    let d = final(store).documents@.last();
                    &&& d.info.id@ == c.id@
                    &&& d.info.workspace_id@ == workspace_id@
                    &&& d.info.title@ == trim_of(title->0@)
                    &&& d.info.slug@ == the_slug
                    &&& d.info.content@ == cont
                    &&& d.info.content_html@ == html_of(cont)
                    &&& d.info.summary@ == (if summary is Some {
                        summary->0@
                    } else {
                        Seq::<char>::empty()
                    })
                    &&& d.info.tags@ == (if tags is Some {
                        tags->0@
                    } else {
                        "[]"@
                    })
                    &&& d.info.status@ == c.status@
                    &&& d.info.author_name@ == (if author_name is Some {
                        author_name->0@
                    } else {
                        Seq::<char>::empty()
                    })
                    &&& d.info.word_count == c.word_count
                    &&& d.info.lock.is_unlocked()
                    &&& d.versions@.len() == 1
                    &&& d.versions@[0].version_number == 1
                    &&& d.versions@[0].content@ == cont
                    &&& d.versions@[0].change_description@ == "Initial version"@
                    &&& d.comments@.len() == 0
                })
                &&& final(store).workspaces@ == old(store).workspaces@
                &&& (exists|e: SseEvent|
                    published(*old(bus), *final(bus), e) && e.workspace_id@ == workspace_id@
                        && e.event_type@ == "document.created"@)
            }))
        }),
        r is Err ==> final(store).workspaces@ == old(store).workspaces@ && final(store).documents@
            == old(store).documents@ && *final(bus) == *old(bus),
{
    if let Err(e) = verify_workspace_auth(store, workspace_id, token) {
        return Err(e);
    }
    let trimmed_title = match title {
        Some(t) => crate::text::trim(t),
        None => {
            return Err(ApiError::Validation);
        },
    };
    if trimmed_title.as_str().is_empty() {
        return Err(ApiError::Validation);
    }
    let the_slug: String = match slug {
        Some(s) => s.to_owned(),
        None => crate::text::slugify(trimmed_title.as_str()),
    };
    let cont: String = match content {
        Some(c) => c.to_owned(),
        None => String::new(),
    };
    let summary_owned: String = match summary {
        Some(s) => s.to_owned(),
        None => String::new(),
    };
    let status_owned: String = match status {
        Some(s) => s.to_owned(),
        None => String::from_str("draft"),
    };
    let author_owned: String = match author_name {
        Some(a) => a.to_owned(),
        None => String::new(),
    };
    let tags_owned: String = match tags {
        Some(t) => t.to_owned(),
        None => String::from_str("[]"),
    };
    let content_html = render_markdown(cont.as_str());
    let wc = crate::text::word_count(cont.as_str());
    let id = fresh_id();
    let version_id = fresh_id();
    match store.create_document(
        id.as_str(),
        workspace_id,
        trimmed_title.as_str(),
        the_slug.as_str(),
        cont.as_str(),
        content_html.as_str(),
        summary_owned.as_str(),
        tags_owned.as_str(),
        status_owned.as_str(),
        author_owned.as_str(),
        wc,
        version_id.as_str(),
        now,
    ) {
        crate::store::CreateDocOutcome::Created => {
            let mut data: Vec<(String, String)> = Vec::new();
            data.push((String::from_str("id"), id.clone()));
            data.push((String::from_str("title"), trimmed_title.clone()));
            data.push((String::from_str("slug"), the_slug.clone()));
            data.push((String::from_str("author_name"), author_owned));
            bus.emit(workspace_id, "document.created", data);
            Ok(
                CreatedDocument {
                    id,
                    slug: the_slug,
                    status: status_owned,
                    word_count: wc,
                },
            )
        },
        crate::store::CreateDocOutcome::DuplicateSlug => Err(ApiError::Conflict),
        crate::store::CreateDocOutcome::NoWorkspace => Err(ApiError::NotFound),
        crate::store::CreateDocOutcome::DuplicateId => Err(ApiError::Internal),
    }
}

/// Updates a managed document; a supplied content snapshot is rendered,
/// word-counted and committed as one new version. Publishes
/// `document.updated`.
#[verifier::rlimit(60)]
pub fn update_document(
    store: &mut Store,
    bus: &mut EventBus,
    workspace_id: &str,
    doc_id: &str,
    token: &WorkspaceToken,
    title: Option<&str>,
    content: Option<&str>,
    summary: Option<&str>,
    tags: Option<&str>,
    status: Option<&str>,
    author_name: Option<&str>,
    change_description: Option<&str>,
    now: u64,
) -> (r: Result<(), ApiError>)
    requires
        old(store).wf(),
        old(bus).wf(),
    ensures
        final(store).wf(),
        final(bus).wf(),
        !old(store).has_workspace(workspace_id@) ==> (r matches Err(e) && e is NotFound),
        old(store).has_workspace(workspace_id@) && key_digest(token.0@) != old(store).workspace(
            workspace_id@,
        ).manage_key_hash@ ==> (r matches Err(e) && e is Forbidden),
        ({
            let authorized = old(store).has_workspace(workspace_id@) && key_digest(token.0@)
                == old(store).workspace(workspace_id@).manage_key_hash@;
            let present = old(store).has_document(doc_id@) && old(store).document(
                doc_id@,
            ).info.workspace_id@ == workspace_id@;
            &&& (authorized ==> ((r matches Err(e) && e is NotFound) <==> !present))
            &&& (authorized && present ==> ((r matches Err(e) && e is Validation) <==> (
            title is None && content is None && summary is None && tags is None && status is None)))
            // authorized, addressed and non-empty, the update is owed
            &&& (authorized && present && !(title is None && content is None && summary is None
                && tags is None && status is None) ==> r is Ok)
            &&& (r is Ok ==> ({
                let i = old(store).document_idx(doc_id@);
                let d0 = old(store).documents@[i];
                let d1 = final(store).documents@[i];
                &&& authorized && present
                &&& final(store).documents@.len() == old(store).documents@.len()
                &&& (forall|k: int|
                    0 <= k < old(store).documents@.len() && k != i ==> final(store).documents@[k]
                        == old(store).documents@[k])
                &&& d1.info.id == d0.info.id
                &&& d1.info.workspace_id == d0.info.workspace_id
                &&& d1.info.slug == d0.info.slug
                &&& d1.info.author_name == d0.info.author_name
                &&& d1.info.lock == d0.info.lock
                &&& d1.info.created_at == d0.info.created_at
                &&& d1.info.title@ == (if title is Some {
                    title->0@
                } else {
                    d0.info.title@
                })
                &&& d1.info.content@ == (if content is Some {
                    content->0@
                } else {
                    d0.info.content@
                })
                &&& d1.info.content_html@ == (if content is Some {
                    html_of(content->0@)
                } else {
                    d0.info.content_html@
                })
                &&& d1.info.summary@ == (if summary is Some {
                    summary->0@
                } else {
                    d0.info.summary@
                })
                &&& d1.info.tags@ == (if tags is Some {
                    tags->0@
                } else {
                    d0.info.tags@
                })
                &&& d1.info.status@ == (if status is Some {
                    status->0@
                } else {
                    d0.info.status@
                })
                &&& d1.info.word_count == (if content is Some {
                    stored_word_count(content->0@)
                } else {
                    d0.info.word_count as int
                })
                &&& d1.info.updated_at == now
                &&& d1.comments == d0.comments
                &&& (content is None ==> d1.versions == d0.versions)
                &&& (content is Some ==> d1.versions@.len() == d0.versions@.len() + 1 && (forall|
                    k: int,
                |
                    0 <= k < d0.versions@.len() ==> d1.versions@[k] == d0.versions@[k]) && ({
                    let v = d1.versions@.last();
                    &&& v.version_number == d0.versions@.len() + 1
                    &&& v.content@ == content->0@
                    &&& v.content_html@ == html_of(content->0@)
                    &&& v.author_name@ == (if author_name is Some {
                        author_name->0@
                    } else {
                        Seq::<char>::empty()
                    })
                    &&& v.change_description@ == (if change_description is Some {
                        change_description->0@
                    } else {
                        Seq::<char>::empty()
                    })
                    &&& v.word_count == stored_word_count(content->0@)
                    &&& v.created_at == now
                }))
                &&& final(store).workspaces@ == old(store).workspaces@
                &&& (exists|e: SseEvent|
                    published(*old(bus), *final(bus), e) && e.workspace_id@ == workspace_id@
                        && e.event_type@ == "document.updated"@)
            }))
        }),
        r is Err ==> final(store).workspaces@ == old(store).workspaces@ && final(store).documents@
            == old(store).documents@ && *final(bus) == *old(bus),
{
    if let Err(e) = verify_workspace_auth(store, workspace_id, token) {
        return Err(e);
    }
    match store.get_document_by_id(doc_id) {
        Some(info) => {
            if !crate::text::str_eq(info.workspace_id.as_str(), workspace_id) {
                return Err(ApiError::NotFound);
            }
        },
        None => {
            return Err(ApiError::NotFound);
        },
    }
    if title.is_none() && content.is_none() && summary.is_none() && tags.is_none()
        && status.is_none() {
        return Err(ApiError::Validation);
    }
    let rendered: Option<String> = match content {
        Some(c) => Some(render_markdown(c)),
        None => None,
    };
    let rendered_ref: Option<&str> = match &rendered {
        Some(s) => Some(s.as_str()),
        None => None,
    };
    let wc: Option<i32> = match content {
        Some(c) => Some(crate::text::word_count(c)),
        None => None,
    };
    let version_id = fresh_id();
    match store.update_document(
        doc_id,
        title,
        content,
        rendered_ref,
        summary,
        tags,
        status,
        author_name,
        wc,
        change_description,
        version_id.as_str(),
        now,
    ) {
        crate::store::UpdateOutcome::Updated => {
            let mut data: Vec<(String, String)> = Vec::new();
            data.push((String::from_str("id"), doc_id.to_owned()));
            bus.emit(workspace_id, "document.updated", data);
            Ok(())
        },
        crate::store::UpdateOutcome::NoFields => Err(ApiError::Validation),
        crate::store::UpdateOutcome::NotFound => Err(ApiError::NotFound),
    }
}

/// Deletes a managed document with everything it owns, and publishes
/// `document.deleted`.
pub fn delete_document(
    store: &mut Store,
    bus: &mut EventBus,
    workspace_id: &str,
    doc_id: &str,
    token: &WorkspaceToken,
) -> (r: Result<(), ApiError>)
    requires
        old(store).wf(),
        old(bus).wf(),
    ensures
        final(store).wf(),
        final(bus).wf(),
        !old(store).has_workspace(workspace_id@) ==> (r matches Err(e) && e is NotFound),
        old(store).has_workspace(workspace_id@) && key_digest(token.0@) != old(store).workspace(
            workspace_id@,
        ).manage_key_hash@ ==> (r matches Err(e) && e is Forbidden),
        ({
            let authorized = old(store).has_workspace(workspace_id@) && key_digest(token.0@)
                == old(store).workspace(workspace_id@).manage_key_hash@;
            &&& (r is Ok <==> authorized && old(store).has_document(doc_id@))
            &&& (authorized && !old(store).has_document(doc_id@) ==> (r matches Err(e)
                && e is NotFound))
            &&& (r is Ok ==> final(store).documents@ == old(store).documents@.remove(
                old(store).document_idx(doc_id@),
            ) && final(store).workspaces@ == old(store).workspaces@ && (exists|e: SseEvent|
                published(*old(bus), *final(bus), e) && e.workspace_id@ == workspace_id@
                    && e.event_type@ == "document.deleted"@))
        }),
        r is Err ==> final(store).workspaces@ == old(store).workspaces@ && final(store).documents@
            == old(store).documents@ && *final(bus) == *old(bus),
{
    if let Err(e) = verify_workspace_auth(store, workspace_id, token) {
        return Err(e);
    }
    if store.delete_document(doc_id) {
        let mut data: Vec<(String, String)> = Vec::new();
        data.push((String::from_str("id"), doc_id.to_owned()));
        bus.emit(workspace_id, "document.deleted", data);
        Ok(())
    } else {
        Err(ApiError::NotFound)
    }
}

/// Tries to take a managed document's edit lock for `editor` (default
/// "anonymous") for `ttl_seconds` (default 60). Never waits: a live lock
/// held by someone else is an immediate recoverable conflict, while a
/// missing document is reported as absent. Publishes `lock.acquired` on
/// success.
pub fn acquire_lock(
    store: &mut Store,
    bus: &mut EventBus,
    workspace_id: &str,
    doc_id: &str,
    token: &WorkspaceToken,
    editor: Option<&str>,
    ttl_seconds: Option<u64>,
    now: u64,
) -> (r: Result<(), ApiError>)
    requires
        old(store).wf(),
        old(bus).wf(),
    ensures
        final(store).wf(),
        final(bus).wf(),
        !old(store).has_workspace(workspace_id@) ==> (r matches Err(e) && e is NotFound),
        old(store).has_workspace(workspace_id@) && key_digest(token.0@) != old(store).workspace(
            workspace_id@,
        ).manage_key_hash@ ==> (r matches Err(e) && e is Forbidden),
        ({
            let authorized = old(store).has_workspace(workspace_id@) && key_digest(token.0@)
                == old(store).workspace(workspace_id@).manage_key_hash@;
            let who = if editor is Some {
                editor->0@
            } else {
                "anonymous"@
            };
            let ttl = if ttl_seconds is Some {
                ttl_seconds->0
            } else {
                60
            };
            &&& (authorized ==> ((r is Ok) <==> old(store).has_document(doc_id@) && old(
                store,
            ).document(doc_id@).info.lock.grantable_to(who, now)))
            &&& (authorized ==> ((r matches Err(e) && e is NotFound) <==> !old(
                store,
            ).has_document(doc_id@)))
            &&& (authorized && old(store).has_document(doc_id@) && !old(store).document(
                doc_id@,
            ).info.lock.grantable_to(who, now) ==> (r matches Err(e) && e is Conflict))
            &&& (r is Ok ==> ({
                let i = old(store).document_idx(doc_id@);
                let d0 = old(store).documents@[i];
                let d1 = final(store).documents@[i];
                &&& final(store).documents@.len() == old(store).documents@.len()
                &&& (forall|k: int|
                    0 <= k < old(store).documents@.len() && k != i ==> final(store).documents@[k]
                        == old(store).documents@[k])
                &&& d1.info.lock.holder is Some
                &&& d1.info.lock.holder->0@ == who
                &&& d1.info.lock.acquired_at == now
                &&& d1.info.lock.expires_at == crate::lock::expiry_at(now, ttl)
                &&& d1.info.updated_at == now
                &&& d1.info.id == d0.info.id
                &&& d1.info.workspace_id == d0.info.workspace_id
                &&& d1.info.title == d0.info.title
                &&& d1.info.slug == d0.info.slug
                &&& d1.info.content == d0.info.content
                &&& d1.info.content_html == d0.info.content_html
                &&& d1.info.summary == d0.info.summary
                &&& d1.info.tags == d0.info.tags
                &&& d1.info.status == d0.info.status
                &&& d1.info.author_name == d0.info.author_name
                &&& d1.info.word_count == d0.info.word_count
                &&& d1.info.created_at == d0.info.created_at
                &&& d1.versions == d0.versions
                &&& d1.comments == d0.comments
                &&& final(store).workspaces@ == old(store).workspaces@
                &&& (exists|e: SseEvent|
                    published(*old(bus), *final(bus), e) && e.workspace_id@ == workspace_id@
                        && e.event_type@ == "lock.acquired"@)
            }))
        }),
        r is Err ==> final(store).workspaces@ == old(store).workspaces@ && final(store).documents@
            == old(store).documents@ && *final(bus) == *old(bus),
{
    if let Err(e) = verify_workspace_auth(store, workspace_id, token) {
        return Err(e);
    }
    let who: &str = match editor {
        Some(e) => e,
        None => "anonymous",
    };
    let ttl: u64 = match ttl_seconds {
        Some(t) => t,
        None => 60,
    };
    match store.acquire_lock(doc_id, who, ttl, now) {
        crate::store::LockOutcome::Granted => {
            let mut data: Vec<(String, String)> = Vec::new();
            data.push((String::from_str("document_id"), doc_id.to_owned()));
            data.push((String::from_str("locked_by"), who.to_owned()));
            bus.emit(workspace_id, "lock.acquired", data);
            Ok(())
        },
        crate::store::LockOutcome::Conflict => Err(ApiError::Conflict),
        crate::store::LockOutcome::NotFound => Err(ApiError::NotFound),
    }
}

/// Renews a managed document's lock for its current non-expired holder,
/// extending the expiry from `now`. Any other live holder — or an expired
/// hold — is the same recoverable conflict as a contended acquire, while a
/// missing document is reported as absent. Publishes `lock.renewed` on
/// success.
pub fn renew_lock(
    store: &mut Store,
    bus: &mut EventBus,
    workspace_id: &str,
    doc_id: &str,
    token: &WorkspaceToken,
    editor: Option<&str>,
    ttl_seconds: Option<u64>,
    now: u64,
) -> (r: Result<(), ApiError>)
    requires
        old(store).wf(),
        old(bus).wf(),
    ensures
        final(store).wf(),
        final(bus).wf(),
        !old(store).has_workspace(workspace_id@) ==> (r matches Err(e) && e is NotFound),
        old(store).has_workspace(workspace_id@) && key_digest(token.0@) != old(store).workspace(
            workspace_id@,
        ).manage_key_hash@ ==> (r matches Err(e) && e is Forbidden),
        ({
            let authorized = old(store).has_workspace(workspace_id@) && key_digest(token.0@)
                == old(store).workspace(workspace_id@).manage_key_hash@;
            let who = if editor is Some {
                editor->0@
            } else {
                "anonymous"@
            };
            let ttl = if ttl_seconds is Some {
                ttl_seconds->0
            } else {
                60
            };
            &&& (authorized ==> ((r is Ok) <==> old(store).has_document(doc_id@) && old(
                store,
            ).document(doc_id@).info.lock.held_by(who, now)))
            &&& (authorized ==> ((r matches Err(e) && e is NotFound) <==> !old(
                store,
            ).has_document(doc_id@)))
            &&& (authorized && old(store).has_document(doc_id@) && !old(store).document(
                doc_id@,
            ).info.lock.held_by(who, now) ==> (r matches Err(e) && e is Conflict))
            &&& (r is Ok ==> ({
                let i = old(store).document_idx(doc_id@);
                let d0 = old(store).documents@[i];
                let d1 = final(store).documents@[i];
                &&& final(store).documents@.len() == old(store).documents@.len()
                &&& (forall|k: int|
                    0 <= k < old(store).documents@.len() && k != i ==> final(store).documents@[k]
                        == old(store).documents@[k])
                &&& d1.info.lock.holder == d0.info.lock.holder
                &&& d1.info.lock.acquired_at == d0.info.lock.acquired_at
                &&& d1.info.lock.expires_at == crate::lock::expiry_at(now, ttl)
                &&& d1.info.updated_at == now
                &&& d1.info.id == d0.info.id
                &&& d1.info.workspace_id == d0.info.workspace_id
                &&& d1.info.title == d0.info.title
                &&& d1.info.slug == d0.info.slug
                &&& d1.info.content == d0.info.content
                &&& d1.info.content_html == d0.info.content_html
                &&& d1.info.summary == d0.info.summary
                &&& d1.info.tags == d0.info.tags
                &&& d1.info.status == d0.info.status
                &&& d1.info.author_name == d0.info.author_name
                &&& d1.info.word_count == d0.info.word_count
                &&& d1.info.created_at == d0.info.created_at
                &&& d1.versions == d0.versions
                &&& d1.comments == d0.comments
                &&& final(store).workspaces@ == old(store).workspaces@
                &&& (exists|e: SseEvent|
                    published(*old(bus), *final(bus), e) && e.workspace_id@ == workspace_id@
                        && e.event_type@ == "lock.renewed"@)
            }))
        }),
        r is Err ==> final(store).workspaces@ == old(store).workspaces@ && final(store).documents@
            == old(store).documents@ && *final(bus) == *old(bus),
{
    if let Err(e) = verify_workspace_auth(store, workspace_id, token) {
        return Err(e);
    }
    let who: &str = match editor {
        Some(e) => e,
        None => "anonymous",
    };
    let ttl: u64 = match ttl_seconds {
        Some(t) => t,
        None => 60,
    };
    match store.renew_lock(doc_id, who, ttl, now) {
        crate::store::LockOutcome::Granted => {
            let mut data: Vec<(String, String)> = Vec::new();
            data.push((String::from_str("document_id"), doc_id.to_owned()));
            data.push((String::from_str("locked_by"), who.to_owned()));
            bus.emit(workspace_id, "lock.renewed", data);
            Ok(())
        },
        crate::store::LockOutcome::Conflict => Err(ApiError::Conflict),
        crate::store::LockOutcome::NotFound => Err(ApiError::NotFound),
    }
}

/// Releases a managed document's lock unconditionally; fails only when
/// the document does not exist. Publishes `lock.released`.
pub fn release_lock(
    store: &mut Store,
    bus: &mut EventBus,
    workspace_id: &str,
    doc_id: &str,
    token: &WorkspaceToken,
    now: u64,
) -> (r: Result<(), ApiError>)
    requires
        old(store).wf(),
        old(bus).wf(),
    ensures
        final(store).wf(),
        final(bus).wf(),
        !old(store).has_workspace(workspace_id@) ==> (r matches Err(e) && e is NotFound),
        old(store).has_workspace(workspace_id@) && key_digest(token.0@) != old(store).workspace(
            workspace_id@,
        ).manage_key_hash@ ==> (r matches Err(e) && e is Forbidden),
        ({
            let authorized = old(store).has_workspace(workspace_id@) && key_digest(token.0@)
                == old(store).workspace(workspace_id@).manage_key_hash@;
            &&& (authorized ==> ((r is Ok) <==> old(store).has_document(doc_id@)))
            &&& (authorized && !old(store).has_document(doc_id@) ==> (r matches Err(e)
                && e is NotFound))
            &&& (r is Ok ==> ({
                let i = old(store).document_idx(doc_id@);
                let d0 = old(store).documents@[i];
                let d1 = final(store).documents@[i];
                &&& final(store).documents@.len() == old(store).documents@.len()
                &&& (forall|k: int|
                    0 <= k < old(store).documents@.len() && k != i ==> final(store).documents@[k]
                        == old(store).documents@[k])
                &&& d1.info.lock.is_unlocked()
                &&& d1.info.updated_at == now
                &&& d1.info.id == d0.info.id
                &&& d1.info.workspace_id == d0.info.workspace_id
                &&& d1.info.title == d0.info.title
                &&& d1.info.slug == d0.info.slug
                &&& d1.info.content == d0.info.content
                &&& d1.info.content_html == d0.info.content_html
                &&& d1.info.summary == d0.info.summary
                &&& d1.info.tags == d0.info.tags
                &&& d1.info.status == d0.info.status
                &&& d1.info.author_name == d0.info.author_name
                &&& d1.info.word_count == d0.info.word_count
                &&& d1.info.created_at == d0.info.created_at
                &&& d1.versions == d0.versions
                &&& d1.comments == d0.comments
                &&& final(store).workspaces@ == old(store).workspaces@
                &&& (exists|e: SseEvent|
                    published(*old(bus), *final(bus), e) && e.workspace_id@ == workspace_id@
                        && e.event_type@ == "lock.released"@)
            }))
        }),
        r is Err ==> final(store).workspaces@ == old(store).workspaces@ && final(store).documents@
            == old(store).documents@ && *final(bus) == *old(bus),
{
    if let Err(e) = verify_workspace_auth(store, workspace_id, token) {
        return Err(e);
    }
    if store.release_lock(doc_id, now) {
        let mut data: Vec<(String, String)> = Vec::new();
        data.push((String::from_str("document_id"), doc_id.to_owned()));
        bus.emit(workspace_id, "lock.released", data);
        Ok(())
    } else {
        Err(ApiError::NotFound)
    }
}

/// Answer to a successful comment creation.
pub struct CreatedComment {
    pub id: String,
    pub parent_id: Option<String>,
    pub author_name: String,
    pub content: String,
}

/// Adds a comment to a document — open to any caller, no manage key
/// required. Author and content must be non-blank; both are stored
/// trimmed. Publishes `comment.created`.
#[verifier::rlimit(30)]
pub fn create_comment(
    store: &mut Store,
    bus: &mut EventBus,
    workspace_id: &str,
    doc_id: &str,
    author_name: Option<&str>,
    content: Option<&str>,
    parent_id: Option<&str>,
    now: u64,
) -> (r: Result<CreatedComment, ApiError>)
    requires
        old(store).wf(),
        old(bus).wf(),
    ensures
        final(store).wf(),
        final(bus).wf(),
        (r matches Err(e) && e is Validation) <==> (author_name is None || trim_of(
            author_name->0@,
        ).len() == 0 || content is None || trim_of(content->0@).len() == 0),
        !(author_name is None || trim_of(author_name->0@).len() == 0 || content is None || trim_of(
            content->0@,
        ).len() == 0) ==> ((r matches Err(e) && e is NotFound) <==> !old(store).has_document(
            doc_id@,
        )),
        ({
            let valid = !(author_name is None || trim_of(author_name->0@).len() == 0
                || content is None || trim_of(content->0@).len() == 0);
            // naming an absent parent is the datastore's referential failure
            &&& (valid && old(store).has_document(doc_id@) && parent_id is Some && !old(
                store,
            ).document(doc_id@).has_comment(parent_id->0@) ==> (r matches Err(e) && e is Internal))
            // valid, addressed and with a real parent (or none), the
            // comment is owed: only a collision of the freshly drawn id
            // can still fail, internally
            &&& (valid && old(store).has_document(doc_id@) && (parent_id is Some ==> old(
                store,
            ).document(doc_id@).has_comment(parent_id->0@)) ==> (r is Ok || (r matches Err(e)
                && e is Internal)))
        }),
        r matches Ok(c) ==> ({
            let i = old(store).document_idx(doc_id@);
            let d0 = old(store).documents@[i];
            let d1 = final(store).documents@[i];
            &&& c.author_name@ == trim_of(author_name->0@)
            &&& c.content@ == trim_of(content->0@)
            &&& (c.parent_id is Some <==> parent_id is Some)
            &&& final(store).documents@.len() == old(store).documents@.len()
            &&& (forall|k: int|
                0 <= k < old(store).documents@.len() && k != i ==> final(store).documents@[k]
                    == old(store).documents@[k])
            &&& d1.comments@.len() == d0.comments@.len() + 1
            &&& (forall|k: int| 0 <= k < d0.comments@.len() ==> d1.comments@[k] == d0.comments@[k])
            &&& ({
                let cm = d1.comments@.last();
                &&& cm.id@ == c.id@
                &&& cm.author_name@ == c.author_name@
                &&& cm.content@ == c.content@
                &&& !cm.resolved
                &&& cm.created_at == now
            })
            &&& d1.info == d0.info
            &&& d1.versions == d0.versions
            &&& final(store).workspaces@ == old(store).workspaces@
            &&& (exists|e: SseEvent|
                published(*old(bus), *final(bus), e) && e.workspace_id@ == workspace_id@
                    && e.event_type@ == "comment.created"@)
        }),
        r is Err ==> final(store).workspaces@ == old(store).workspaces@ && final(store).documents@
            == old(store).documents@ && *final(bus) == *old(bus),
{
    let author = match author_name {
        Some(a) => crate::text::trim(a),
        None => {
            return Err(ApiError::Validation);
        },
    };
    if author.as_str().is_empty() {
        return Err(ApiError::Validation);
    }
    let body = match content {
        Some(c) => crate::text::trim(c),
        None => {
            return Err(ApiError::Validation);
        },
    };
    if body.as_str().is_empty() {
        return Err(ApiError::Validation);
    }
    let id = fresh_id();
    match store.create_comment(id.as_str(), doc_id, parent_id, author.as_str(), body.as_str(), now) {
        crate::store::CommentOutcome::Created => {
            let mut data: Vec<(String, String)> = Vec::new();
            data.push((String::from_str("id"), id.clone()));
            data.push((String::from_str("document_id"), doc_id.to_owned()));
            data.push((String::from_str("author_name"), author.clone()));
            bus.emit(workspace_id, "comment.created", data);
            let parent_owned: Option<String> = match parent_id {
                Some(p) => Some(p.to_owned()),
                None => None,
            };
            Ok(CreatedComment { id, parent_id: parent_owned, author_name: author, content: body })
        },
        crate::store::CommentOutcome::NotFound => Err(ApiError::NotFound),
        _ => Err(ApiError::Internal),
    }
}

/// Edits or resolves a comment — a management action. At least one of the
/// two fields must be supplied. Publishes `comment.updated`.
pub fn update_comment(
    store: &mut Store,
    bus: &mut EventBus,
    workspace_id: &str,
    doc_id: &str,
    comment_id: &str,
    token: &WorkspaceToken,
    content: Option<&str>,
    resolved: Option<bool>,
    now: u64,
) -> (r: Result<(), ApiError>)
    requires
        old(store).wf(),
        old(bus).wf(),
    ensures
        final(store).wf(),
        final(bus).wf(),
        !old(store).has_workspace(workspace_id@) ==> (r matches Err(e) && e is NotFound),
        old(store).has_workspace(workspace_id@) && key_digest(token.0@) != old(store).workspace(
            workspace_id@,
        ).manage_key_hash@ ==> (r matches Err(e) && e is Forbidden),
        ({
            let authorized = old(store).has_workspace(workspace_id@) && key_digest(token.0@)
                == old(store).workspace(workspace_id@).manage_key_hash@;
            &&& (authorized ==> ((r matches Err(e) && e is Validation) <==> (content is None
                && resolved is None)))
            &&& (authorized && !(content is None && resolved is None) ==> ((r is Ok) <==> old(
                store,
            ).has_document(doc_id@) && old(store).document(doc_id@).has_comment(comment_id@)))
            &&& (authorized && !(content is None && resolved is None) && !(old(
                store,
            ).has_document(doc_id@) && old(store).document(doc_id@).has_comment(comment_id@))
                ==> (r matches Err(e) && e is NotFound))
            &&& (r is Ok ==> ({
                let i = old(store).document_idx(doc_id@);
                let d0 = old(store).documents@[i];
                let d1 = final(store).documents@[i];
                let k = d0.comment_idx(comment_id@);
                let c0 = d0.comments@[k];
                let c1 = d1.comments@[k];
                &&& c1.content@ == (if content is Some {
                    content->0@
                } else {
                    c0.content@
                })
                &&& c1.resolved == (if resolved is Some {
                    resolved->0
                } else {
                    c0.resolved
                })
                &&& c1.updated_at == now
                &&& d1.info == d0.info
                &&& d1.versions == d0.versions
                &&& final(store).workspaces@ == old(store).workspaces@
                &&& (exists|e: SseEvent|
                    published(*old(bus), *final(bus), e) && e.workspace_id@ == workspace_id@
                        && e.event_type@ == "comment.updated"@)
            }))
        }),
        r is Err ==> final(store).workspaces@ == old(store).workspaces@ && final(store).documents@
            == old(store).documents@ && *final(bus) == *old(bus),
{
    if let Err(e) = verify_workspace_auth(store, workspace_id, token) {
        return Err(e);
    }
    if content.is_none() && resolved.is_none() {
        return Err(ApiError::Validation);
    }
    if store.update_comment(doc_id, comment_id, content, resolved, now) {
        let mut data: Vec<(String, String)> = Vec::new();
        data.push((String::from_str("comment_id"), comment_id.to_owned()));
        bus.emit(workspace_id, "comment.updated", data);
        Ok(())
    } else {
        Err(ApiError::NotFound)
    }
}

/// Deletes a comment — a management action. Publishes `comment.deleted`.
pub fn delete_comment(
    store: &mut Store,
    bus: &mut EventBus,
    workspace_id: &str,
    doc_id: &str,
    comment_id: &str,
    token: &WorkspaceToken,
) -> (r: Result<(), ApiError>)
    requires
        old(store).wf(),
        old(bus).wf(),
    ensures
        final(store).wf(),
        final(bus).wf(),
        !old(store).has_workspace(workspace_id@) ==> (r matches Err(e) && e is NotFound),
        old(store).has_workspace(workspace_id@) && key_digest(token.0@) != old(store).workspace(
            workspace_id@,
        ).manage_key_hash@ ==> (r matches Err(e) && e is Forbidden),
        ({
            let authorized = old(store).has_workspace(workspace_id@) && key_digest(token.0@)
                == old(store).workspace(workspace_id@).manage_key_hash@;
            &&& (authorized ==> ((r is Ok) <==> old(store).has_document(doc_id@) && old(
                store,
            ).document(doc_id@).has_comment(comment_id@)))
            &&& (authorized && !(old(store).has_document(doc_id@) && old(store).document(
                doc_id@,
            ).has_comment(comment_id@)) ==> (r matches Err(e) && e is NotFound))
            &&& (r is Ok ==> ({
                let i = old(store).document_idx(doc_id@);
                let d0 = old(store).documents@[i];
                let d1 = final(store).documents@[i];
                &&& d1.comments@ == d0.comments@.remove(d0.comment_idx(comment_id@))
                &&& d1.info == d0.info
                &&& d1.versions == d0.versions
                &&& final(store).workspaces@ == old(store).workspaces@
                &&& (exists|e: SseEvent|
                    published(*old(bus), *final(bus), e) && e.workspace_id@ == workspace_id@
                        && e.event_type@ == "comment.deleted"@)
            }))
        }),
        r is Err ==> final(store).workspaces@ == old(store).workspaces@ && final(store).documents@
            == old(store).documents@ && *final(bus) == *old(bus),
{
    if let Err(e) = verify_workspace_auth(store, workspace_id, token) {
        return Err(e);
    }
    if store.delete_comment(doc_id, comment_id) {
        let mut data: Vec<(String, String)> = Vec::new();
        data.push((String::from_str("comment_id"), comment_id.to_owned()));
        bus.emit(workspace_id, "comment.deleted", data);
        Ok(())
    } else {
        Err(ApiError::NotFound)
    }
}

/// Header of a rendered diff: the two version labels.
pub open spec fn diff_header(from: int, to: int) -> Seq<char> {
    "--- version "@ + crate::text::dec_str_of(from) + seq!['\n'] + "+++ version "@
        + crate::text::dec_str_of(to) + seq!['\n']
}

/// A computed change-set between two stored versions.
pub struct DiffOutput {
    pub from_version: u64,
    pub to_version: u64,
    pub ops: Vec<crate::diff::DiffOp>,
    pub diff: String,
    pub insertions: usize,
    pub removals: usize,
}

/// Diffs two stored snapshots of a document, line by line: the change
/// script reconstructs both snapshots and its equal-line count is maximal,
/// with a labelled textual rendering and the insertion and removal counts.
pub fn get_diff(store: &Store, doc_id: &str, from: u64, to: u64) -> (r: Result<
    DiffOutput,
    ApiError,
>)
    requires
        store.wf(),
    ensures
        (!(store.has_document(doc_id@) && 1 <= from && from <= store.document(
            doc_id@,
        ).versions@.len() && 1 <= to && to <= store.document(doc_id@).versions@.len())) <==> (r
            matches Err(e) && e is NotFound),
        ({
            let valid = store.has_document(doc_id@) && 1 <= from && from <= store.document(
                doc_id@,
            ).versions@.len() && 1 <= to && to <= store.document(doc_id@).versions@.len();
            let a = crate::text::lines_of(store.document(doc_id@).versions@[from - 1].content@);
            let b = crate::text::lines_of(store.document(doc_id@).versions@[to - 1].content@);
            // with both versions present the diff is owed; the one internal
            // refusal is reserved for texts beyond any diffable size
            &&& ((r matches Err(e) && e is Internal) ==> valid && (a.len() >= usize::MAX || b.len()
                >= usize::MAX))
            &&& (valid && a.len() < usize::MAX && b.len() < usize::MAX ==> r is Ok)
        }),
        r matches Ok(o) ==> ({
            let a = crate::text::lines_of(store.document(doc_id@).versions@[from - 1].content@);
            let b = crate::text::lines_of(store.document(doc_id@).versions@[to - 1].content@);
            &&& o.from_version == from
            &&& o.to_version == to
            &&& crate::diff::is_line_diff(o.ops@, a, b)
            &&& crate::diff::script_view(o.ops@) == crate::diff::canonical_diff(a, b)
            &&& o.insertions == crate::diff::count_insert(o.ops@)
            &&& o.removals == crate::diff::count_delete(o.ops@)
            &&& o.diff@ == diff_header(from as int, to as int) + crate::diff::render_from(o.ops@)
            // the text is thereby a function of the two snapshots alone:
            // repeated calls on the same versions return identical output
            &&& o.diff@ == diff_header(from as int, to as int) + crate::diff::render_script(
                crate::diff::canonical_diff(a, b),
            )
        }),
{
    let va = match store.get_version(doc_id, from) {
        Some(v) => v,
        None => {
            return Err(ApiError::NotFound);
        },
    };
    let vb = match store.get_version(doc_id, to) {
        Some(v) => v,
        None => {
            return Err(ApiError::NotFound);
        },
    };
    let la = crate::text::split_lines(va.content.as_str());
    let lb = crate::text::split_lines(vb.content.as_str());
    if la.len() == usize::MAX || lb.len() == usize::MAX {
        // texts beyond any diffable size; unreachable for real content
        proof {
            assert(crate::text::views_of(la@).len() == la@.len());
            assert(crate::text::views_of(lb@).len() == lb@.len());
        }
        return Err(ApiError::Internal);
    }
    proof {
        assert(crate::text::views_of(la@) == crate::text::lines_of(va.content@));
    }
    let ops = crate::diff::diff_lines(&la, &lb);
    let insertions = crate::diff::count_insertions(&ops);
    let removals = crate::diff::count_removals(&ops);
    let mut text = String::from_str("--- version ");
    let from_dec = crate::text::u64_to_string(from);
    text.append(from_dec.as_str());
    text.append("\n+++ version ");
    let to_dec = crate::text::u64_to_string(to);
    text.append(to_dec.as_str());
    text.append("\n");
    let body = crate::diff::render_ops(&ops);
    text.append(body.as_str());
    proof {
        reveal_strlit("\n");
        reveal_strlit("\n+++ version ");
        reveal_strlit("+++ version ");
        assert("\n"@ =~= seq!['\n']);
        assert("\n+++ version "@ =~= seq!['\n'] + "+++ version "@);
        assert(text@ =~= diff_header(from as int, to as int) + crate::diff::render_from(ops@));
        crate::diff::lemma_render_via_script(ops@);
    }
    Ok(DiffOutput { from_version: from, to_version: to, ops, diff: text, insertions, removals })
}

/// Answer to a successful restore.
pub struct RestoredVersion {
    pub from_version: u64,
    pub word_count: i32,
}

/// Rolls a managed document's content back to a stored snapshot by
/// committing that snapshot as a fresh version — history is append-only,
/// nothing is rewritten.
#[verifier::rlimit(60)]
pub fn restore_version(
    store: &mut Store,
    workspace_id: &str,
    doc_id: &str,
    version_num: u64,
    token: &WorkspaceToken,
    now: u64,
) -> (r: Result<RestoredVersion, ApiError>)
    requires
        old(store).wf(),
    ensures
        final(store).wf(),
        !old(store).has_workspace(workspace_id@) ==> (r matches Err(e) && e is NotFound),
        old(store).has_workspace(workspace_id@) && key_digest(token.0@) != old(store).workspace(
            workspace_id@,
        ).manage_key_hash@ ==> (r matches Err(e) && e is Forbidden),
        ({
            let authorized = old(store).has_workspace(workspace_id@) && key_digest(token.0@)
                == old(store).workspace(workspace_id@).manage_key_hash@;
            &&& (authorized ==> ((r is Ok) <==> old(store).has_document(doc_id@) && 1
                <= version_num && version_num <= old(store).document(doc_id@).versions@.len()))
            &&& (r matches Ok(o) ==> ({
                let i = old(store).document_idx(doc_id@);
                let d0 = old(store).documents@[i];
                let d1 = final(store).documents@[i];
                let c = d0.versions@[version_num - 1].content@;
                &&& o.from_version == version_num
                &&& o.word_count == stored_word_count(c)
                &&& final(store).documents@.len() == old(store).documents@.len()
                &&& (forall|k: int|
                    0 <= k < old(store).documents@.len() && k != i ==> final(store).documents@[k]
                        == old(store).documents@[k])
                &&& d1.info.content@ == c
                &&& d1.info.content_html@ == html_of(c)
                &&& d1.info.word_count == stored_word_count(c)
                &&& d1.info.updated_at == now
                &&& d1.versions@.len() == d0.versions@.len() + 1
                &&& (forall|k: int|
                    0 <= k < d0.versions@.len() ==> d1.versions@[k] == d0.versions@[k])
                &&& ({
                    let v = d1.versions@.last();
                    &&& v.version_number == d0.versions@.len() + 1
                    &&& v.content@ == c
                    &&& v.change_description@ == "Restored from version "@
                        + crate::text::dec_str_of(version_num as int)
                })
                &&& final(store).workspaces@ == old(store).workspaces@
            }))
        }),
        r is Err ==> final(store).workspaces@ == old(store).workspaces@ && final(store).documents@
            == old(store).documents@,
{
    if let Err(e) = verify_workspace_auth(store, workspace_id, token) {
        return Err(e);
    }
    let version = match store.get_version(doc_id, version_num) {
        Some(v) => v,
        None => {
            return Err(ApiError::NotFound);
        },
    };
    let content_html = render_markdown(version.content.as_str());
    let wc = crate::text::word_count(version.content.as_str());
    let mut change_desc = String::from_str("Restored from version ");
    let num_dec = crate::text::u64_to_string(version_num);
    change_desc.append(num_dec.as_str());
    proof {
        assert(change_desc@ =~= "Restored from version "@ + crate::text::dec_str_of(
            version_num as int,
        ));
    }
    let version_id = fresh_id();
    match store.update_document(
        doc_id,
        None,
        Some(version.content.as_str()),
        Some(content_html.as_str()),
        None,
        None,
        None,
        None,
        Some(wc),
        Some(change_desc.as_str()),
        version_id.as_str(),
        now,
    ) {
        crate::store::UpdateOutcome::Updated => Ok(
            RestoredVersion { from_version: version_num, word_count: wc },
        ),
        _ => Err(ApiError::Internal),
    }
}

/// One page of a document's history, newest first: `limit` defaults to 20
/// and is clamped to 100 (a negative limit means the rest), `offset`
/// defaults to 0 and is clamped below at 0.
pub fn list_versions(
    store: &Store,
    doc_id: &str,
    limit: Option<i32>,
    offset: Option<i32>,
) -> (r: Result<Vec<crate::store::VersionMeta>, ApiError>)
    requires
        store.wf(),
    ensures
        r is Ok == store.has_document(doc_id@),
        r matches Err(e) ==> e is NotFound,
        r matches Ok(v) ==> ({
            let h = crate::store::history_newest_first(store.document(doc_id@).versions@);
            let l = if limit is Some {
                if limit->0 < 100 {
                    limit->0 as int
                } else {
                    100int
                }
            } else {
                20int
            };
            let o = if offset is Some && offset->0 > 0 {
                offset->0 as int
            } else {
                0int
            };
            let start = if o <= h.len() {
                o
            } else {
                h.len() as int
            };
            let end = if l < 0 {
                h.len() as int
            } else if start + l <= h.len() {
                start + l
            } else {
                h.len() as int
            };
            v@ == h.subrange(start, end)
        }),
{
    let mut h = match store.list_versions(doc_id) {
        Some(h) => h,
        None => {
            return Err(ApiError::NotFound);
        },
    };
    let ghost h0 = h@;
    let l: i32 = match limit {
        Some(l) => if l < 100 {
            l
        } else {
            100
        },
        None => 20,
    };
    let o: i32 = match offset {
        Some(o) => if o > 0 {
            o
        } else {
            0
        },
        None => 0,
    };
    let start: usize = if (o as usize) <= h.len() {
        o as usize
    } else {
        h.len()
    };
    let end: usize = if l < 0 {
        h.len()
    } else {
        let lu = l as usize;
        if lu <= h.len() - start {
            start + lu
        } else {
            h.len()
        }
    };
    h.truncate(end);
    let tail = h.split_off(start);
    proof {
        assert(tail@ =~= h0.subrange(start as int, end as int));
    }
    Ok(tail)
}

/// One page of matching documents.
pub struct SearchOutput {
    pub results: Vec<crate::store::DocumentInfo>,
    pub count: usize,
}

/// Case-insensitive substring search over one workspace's titles and
/// contents, paginated like the version history.
pub fn search_documents(
    store: &Store,
    workspace_id: &str,
    q: &str,
    limit: Option<i32>,
    offset: Option<i32>,
) -> (r: SearchOutput)
    requires
        store.wf(),
    ensures
        ({
            let f = crate::store::search_results(store.documents@, workspace_id@, q@);
            let l = if limit is Some {
                if limit->0 < 100 {
                    limit->0 as int
                } else {
                    100int
                }
            } else {
                20int
            };
            let o = if offset is Some && offset->0 > 0 {
                offset->0 as int
            } else {
                0int
            };
            let start = if o <= f.len() {
                o
            } else {
                f.len() as int
            };
            let end = if l < 0 {
                f.len() as int
            } else if start + l <= f.len() {
                start + l
            } else {
                f.len() as int
            };
            r.results@ == f.subrange(start, end) && r.count == r.results@.len()
        }),
{
    let mut f = store.search_documents(workspace_id, q);
    let ghost f0 = f@;
    let l: i32 = match limit {
        Some(l) => if l < 100 {
            l
        } else {
            100
        },
        None => 20,
    };
    let o: i32 = match offset {
        Some(o) => if o > 0 {
            o
        } else {
            0
        },
        None => 0,
    };
    let start: usize = if (o as usize) <= f.len() {
        o as usize
    } else {
        f.len()
    };
    let end: usize = if l < 0 {
        f.len()
    } else {
        let lu = l as usize;
        if lu <= f.len() - start {
            start + lu
        } else {
            f.len()
        }
    };
    f.truncate(end);
    let results = f.split_off(start);
    proof {
        assert(results@ =~= f0.subrange(start as int, end as int));
    }
    let count = results.len();
    SearchOutput { results, count }
}

} // verus!
