//! In-memory record store for workspaces, documents, versions and comments.
//!
//! Persistence is the job of an outside collaborator — a keyed
//! transactional datastore; this store models its guarantees — unique keys,
//! the per-workspace slug constraint, cascade deletion, and the per-document
//! version counter assigned under one serialization point — as verified
//! invariants on plain vectors. Exclusive `&mut` access stands in for that
//! serialization point: a read-modify-write here is one atomic step.

use vstd::prelude::*;

use crate::lock::LockState;

verus! {

/// Top-level tenant boundary owning documents.
pub struct Workspace {
    pub id: String,
    pub name: String,
    pub description: String,
    pub manage_key_hash: String,
    pub is_public: bool,
    pub created_at: u64,
    pub updated_at: u64,
}

/// Immutable snapshot in a document's append-only history.
pub struct Version {
    pub id: String,
    pub version_number: u64,
    pub content: String,
    pub content_html: String,
    pub summary: String,
    pub author_name: String,
    pub change_description: String,
    pub word_count: i32,
    pub created_at: u64,
}

/// Version row as listed in history: everything but the snapshot bodies.
pub struct VersionMeta {
    pub id: String,
    pub version_number: u64,
    pub summary: String,
    pub author_name: String,
    pub change_description: String,
    pub word_count: i32,
    pub created_at: u64,
}

/// The history row describing `v`.
pub open spec fn meta_of(v: Version) -> VersionMeta {
    VersionMeta {
        id: v.id,
        version_number: v.version_number,
        summary: v.summary,
        author_name: v.author_name,
        change_description: v.change_description,
        word_count: v.word_count,
        created_at: v.created_at,
    }
}

/// One comment in a document's reply tree.
pub struct Comment {
    pub id: String,
    pub parent_id: Option<String>,
    pub author_name: String,
    pub content: String,
    pub resolved: bool,
    pub created_at: u64,
    pub updated_at: u64,
}

/// The mutable row of one document, lock state included: lock fields live
/// with the document because they are read and written atomically with it.
pub struct DocumentInfo {
    pub id: String,
    pub workspace_id: String,
    pub title: String,
    pub slug: String,
    pub content: String,
    pub content_html: String,
    pub summary: String,
    pub tags: String,
    pub status: String,
    pub author_name: String,
    pub word_count: i32,
    pub lock: LockState,
    pub created_at: u64,
    pub updated_at: u64,
}

/// A document with everything it exclusively owns: its version history and
/// its comments, deleted with it in cascade.
pub struct Document {
    pub info: DocumentInfo,
    pub versions: Vec<Version>,
    pub comments: Vec<Comment>,
}

/// The whole store.
pub struct Store {
    pub workspaces: Vec<Workspace>,
    pub documents: Vec<Document>,
}

impl Workspace {
    /// A field-for-field copy of this row.
    pub fn duplicate(&self) -> (r: Workspace)
        ensures
            r == *self,
    {
        Workspace {
            id: self.id.clone(),
            name: self.name.clone(),
            description: self.description.clone(),
            manage_key_hash: self.manage_key_hash.clone(),
            is_public: self.is_public,
            created_at: self.created_at,
            updated_at: self.updated_at,
        }
    }
}

impl Version {
    /// A field-for-field copy of this snapshot.
    pub fn duplicate(&self) -> (r: Version)
        ensures
            r == *self,
    {
        Version {
            id: self.id.clone(),
            version_number: self.version_number,
            content: self.content.clone(),
            content_html: self.content_html.clone(),
            summary: self.summary.clone(),
            author_name: self.author_name.clone(),
            change_description: self.change_description.clone(),
            word_count: self.word_count,
            created_at: self.created_at,
        }
    }

    /// The history row for this snapshot.
    pub fn meta(&self) -> (r: VersionMeta)
        ensures
            r == meta_of(*self),
    {
        VersionMeta {
            id: self.id.clone(),
            version_number: self.version_number,
            summary: self.summary.clone(),
            author_name: self.author_name.clone(),
            change_description: self.change_description.clone(),
            word_count: self.word_count,
            created_at: self.created_at,
        }
    }
}

impl Comment {
    /// A field-for-field copy of this comment.
    pub fn duplicate(&self) -> (r: Comment)
        ensures
            r == *self,
    {
        Comment {
            id: self.id.clone(),
            parent_id: match &self.parent_id {
                None => None,
                Some(p) => Some(p.clone()),
            },
            author_name: self.author_name.clone(),
            content: self.content.clone(),
            resolved: self.resolved,
            created_at: self.created_at,
            updated_at: self.updated_at,
        }
    }
}

impl DocumentInfo {
    /// A field-for-field copy of this row.
    pub fn duplicate(&self) -> (r: DocumentInfo)
        ensures
            r == *self,
    {
        DocumentInfo {
            id: self.id.clone(),
            workspace_id: self.workspace_id.clone(),
            title: self.title.clone(),
            slug: self.slug.clone(),
            content: self.content.clone(),
            content_html: self.content_html.clone(),
            summary: self.summary.clone(),
            tags: self.tags.clone(),
            status: self.status.clone(),
            author_name: self.author_name.clone(),
            word_count: self.word_count,
            lock: self.lock.duplicate(),
            created_at: self.created_at,
            updated_at: self.updated_at,
        }
    }
}

impl Document {
    /// Version numbers are exactly `1..=len`, in order, with no gaps and no
    /// reuse; comment ids are unique within the document.
    pub open spec fn wf(self) -> bool {
        &&& forall|k: int|
            0 <= k < self.versions@.len() ==> (#[trigger] self.versions@[k]).version_number == k + 1
        &&& forall|k: int, l: int|
            0 <= k < l < self.comments@.len() ==> self.comments@[k].id@ != self.comments@[l].id@
    }

    /// Whether this document carries a comment with id `cid`.
    pub open spec fn has_comment(self, cid: Seq<char>) -> bool {
        exists|k: int| 0 <= k < self.comments@.len() && self.comments@[k].id@ == cid
    }

    /// Index of the comment with id `cid`.
    pub open spec fn comment_idx(self, cid: Seq<char>) -> int {
        choose|k: int| 0 <= k < self.comments@.len() && self.comments@[k].id@ == cid
    }
}

impl Store {
    /// Uniqueness of every key the datastore would enforce, plus each
    /// document's own invariants.
    pub open spec fn wf(self) -> bool {
        &&& forall|i: int, j: int|
            0 <= i < j < self.workspaces@.len() ==> self.workspaces@[i].id@
                != self.workspaces@[j].id@
        &&& forall|i: int, j: int|
            0 <= i < j < self.documents@.len() ==> self.documents@[i].info.id@
                != self.documents@[j].info.id@
        &&& forall|i: int, j: int|
            0 <= i < j < self.documents@.len() ==> !(self.documents@[i].info.workspace_id@
                == self.documents@[j].info.workspace_id@ && self.documents@[i].info.slug@
                == self.documents@[j].info.slug@)
        &&& forall|i: int| 0 <= i < self.documents@.len() ==> (#[trigger] self.documents@[i]).wf()
    }

    pub open spec fn has_workspace(self, id: Seq<char>) -> bool {
        exists|i: int| 0 <= i < self.workspaces@.len() && self.workspaces@[i].id@ == id
    }

    pub open spec fn workspace_idx(self, id: Seq<char>) -> int {
        choose|i: int| 0 <= i < self.workspaces@.len() && self.workspaces@[i].id@ == id
    }

    /// The workspace with id `id` (meaningful under `has_workspace`).
    pub open spec fn workspace(self, id: Seq<char>) -> Workspace {
        self.workspaces@[self.workspace_idx(id)]
    }

    pub open spec fn has_document(self, id: Seq<char>) -> bool {
        exists|i: int| 0 <= i < self.documents@.len() && self.documents@[i].info.id@ == id
    }

    pub open spec fn document_idx(self, id: Seq<char>) -> int {
        choose|i: int| 0 <= i < self.documents@.len() && self.documents@[i].info.id@ == id
    }

    /// The document with id `id` (meaningful under `has_document`).
    pub open spec fn document(self, id: Seq<char>) -> Document {
        self.documents@[self.document_idx(id)]
    }

    pub open spec fn has_doc_slug(self, ws: Seq<char>, slug: Seq<char>) -> bool {
        exists|i: int|
            0 <= i < self.documents@.len() && self.documents@[i].info.workspace_id@ == ws
                && self.documents@[i].info.slug@ == slug
    }

    pub open spec fn doc_slug_idx(self, ws: Seq<char>, slug: Seq<char>) -> int {
        choose|i: int|
            0 <= i < self.documents@.len() && self.documents@[i].info.workspace_id@ == ws
                && self.documents@[i].info.slug@ == slug
    }

    /// An empty store.
    pub fn new() -> (r: Store)
        ensures
            r.wf(),
            r.workspaces@.len() == 0,
            r.documents@.len() == 0,
    {
        Store { workspaces: Vec::new(), documents: Vec::new() }
    }

    /// Finds the index of the workspace with the given id.
    fn find_workspace(&self, id: &str) -> (r: Option<usize>)
        requires
            self.wf(),
        ensures
            match r {
                Some(i) => self.has_workspace(id@) && i == self.workspace_idx(id@)
                    && i < self.workspaces@.len() && self.workspaces@[i as int].id@ == id@,
                None => !self.has_workspace(id@),
            },
    {
        let mut i: usize = 0;
        while i < self.workspaces.len()
            invariant
                self.wf(),
                i <= self.workspaces@.len(),
                forall|j: int| 0 <= j < i ==> self.workspaces@[j].id@ != id@,
            decreases self.workspaces@.len() - i,
        {
            if crate::text::str_eq(self.workspaces[i].id.as_str(), id) {
                proof {
                    let k = self.workspace_idx(id@);
                    assert(0 <= k < self.workspaces@.len() && self.workspaces@[k].id@ == id@);
                    assert(k == i);
                }
                return Some(i);
            }
            i = i + 1;
        }
        None
    }

    /// Finds the index of the document with the given id.
    fn find_document(&self, id: &str) -> (r: Option<usize>)
        requires
            self.wf(),
        ensures
            match r {
                Some(i) => self.has_document(id@) && i == self.document_idx(id@)
                    && i < self.documents@.len() && self.documents@[i as int].info.id@ == id@,
                None => !self.has_document(id@),
            },
    {
        let mut i: usize = 0;
        while i < self.documents.len()
            invariant
                self.wf(),
                i <= self.documents@.len(),
                forall|j: int| 0 <= j < i ==> self.documents@[j].info.id@ != id@,
            decreases self.documents@.len() - i,
        {
            if crate::text::str_eq(self.documents[i].info.id.as_str(), id) {
                proof {
                    let k = self.document_idx(id@);
                    assert(0 <= k < self.documents@.len() && self.documents@[k].info.id@ == id@);
                    assert(k == i);
                }
                return Some(i);
            }
            i = i + 1;
        }
        None
    }

    /// Finds the index of the document carrying `slug` inside workspace
    /// `ws_id`.
    fn find_doc_by_slug(&self, ws_id: &str, slug: &str) -> (r: Option<usize>)
        requires
            self.wf(),
        ensures
            match r {
                Some(i) => self.has_doc_slug(ws_id@, slug@) && i == self.doc_slug_idx(
                    ws_id@,
                    slug@,
                ) && i < self.documents@.len() && self.documents@[i as int].info.workspace_id@
                    == ws_id@ && self.documents@[i as int].info.slug@ == slug@,
                None => !self.has_doc_slug(ws_id@, slug@),
            },
    {
        let mut i: usize = 0;
        while i < self.documents.len()
            invariant
                self.wf(),
                i <= self.documents@.len(),
                forall|j: int|
                    0 <= j < i ==> !(self.documents@[j].info.workspace_id@ == ws_id@
                        && self.documents@[j].info.slug@ == slug@),
            decreases self.documents@.len() - i,
        {
            if crate::text::str_eq(self.documents[i].info.workspace_id.as_str(), ws_id)
                && crate::text::str_eq(self.documents[i].info.slug.as_str(), slug) {
                proof {
                    let k = self.doc_slug_idx(ws_id@, slug@);
                    assert(0 <= k < self.documents@.len() && self.documents@[k].info.workspace_id@
                        == ws_id@ && self.documents@[k].info.slug@ == slug@);
                    assert(k == i);
                }
                return Some(i);
            }
            i = i + 1;
        }
        None
    }

    /// Inserts a workspace row. Refused only when the id is already taken.
    pub fn create_workspace(
        &mut self,
        id: &str,
        name: &str,
        description: &str,
        manage_key_hash: &str,
        is_public: bool,
        now: u64,
    ) -> (ok: bool)
        requires
            old(self).wf(),
        ensures
            final(self).wf(),
            ok == !old(self).has_workspace(id@),
            final(self).documents == old(self).documents,
            !ok ==> *final(self) == *old(self),
            ok ==> final(self).workspaces@.len() == old(self).workspaces@.len() + 1
                && (forall|k: int|
                0 <= k < old(self).workspaces@.len() ==> final(self).workspaces@[k] == old(
                    self,
                ).workspaces@[k]) && ({
                let w = final(self).workspaces@.last();
                &&& w.id@ == id@
                &&& w.name@ == name@
                &&& w.description@ == description@
                &&& w.manage_key_hash@ == manage_key_hash@
                &&& w.is_public == is_public
                &&& w.created_at == now
                &&& w.updated_at == now
            }),
    {
        if self.find_workspace(id).is_some() {
            return false;
        }
        self.workspaces.push(
            Workspace {
                id: id.to_owned(),
                name: name.to_owned(),
                description: description.to_owned(),
                manage_key_hash: manage_key_hash.to_owned(),
                is_public,
                created_at: now,
                updated_at: now,
            },
        );
        true
    }

    /// Copy of the workspace row with the given id.
    pub fn get_workspace(&self, id: &str) -> (r: Option<Workspace>)
        requires
            self.wf(),
        ensures
            r is Some == self.has_workspace(id@),
            r is Some ==> r->0 == self.workspace(id@),
    {
        match self.find_workspace(id) {
            Some(i) => {
                let w = &self.workspaces[i];
                Some(
                    Workspace {
                        id: w.id.clone(),
                        name: w.name.clone(),
                        description: w.description.clone(),
                        manage_key_hash: w.manage_key_hash.clone(),
                        is_public: w.is_public,
                        created_at: w.created_at,
                        updated_at: w.updated_at,
                    },
                )
            },
            None => None,
        }
    }

    /// Updates the chosen workspace fields and the update stamp. Reports
    /// whether any field was given, and whether the workspace exists.
    pub fn update_workspace(
        &mut self,
        id: &str,
        name: Option<&str>,
        description: Option<&str>,
        is_public: Option<bool>,
        now: u64,
    ) -> (r: UpdateOutcome)
        requires
            old(self).wf(),
        ensures
            final(self).wf(),
            final(self).documents == old(self).documents,
            r is NoFields <==> name is None && description is None && is_public is None,
            !(r is NoFields) ==> (r is NotFound <==> !old(self).has_workspace(id@)),
            r is NoFields || r is NotFound ==> *final(self) == *old(self),
            r is Updated ==> {
                let i = old(self).workspace_idx(id@);
                let w0 = old(self).workspaces@[i];
                let w1 = final(self).workspaces@[i];
                &&& final(self).workspaces@.len() == old(self).workspaces@.len()
                &&& (forall|k: int|
                    0 <= k < old(self).workspaces@.len() && k != i ==> final(self).workspaces@[k]
                        == old(self).workspaces@[k])
                &&& w1.id == w0.id
                &&& w1.name@ == (if name is Some {
                    name->0@
                } else {
                    w0.name@
                })
                &&& w1.description@ == (if description is Some {
                    description->0@
                } else {
                    w0.description@
                })
                &&& w1.is_public == (if is_public is Some {
                    is_public->0
                } else {
                    w0.is_public
                })
                &&& w1.manage_key_hash == w0.manage_key_hash
                &&& w1.created_at == w0.created_at
                &&& w1.updated_at == now
            },
    {
        if name.is_none() && description.is_none() && is_public.is_none() {
            return UpdateOutcome::NoFields;
        }
        let i = match self.find_workspace(id) {
            Some(i) => i,
            None => {
                return UpdateOutcome::NotFound;
            },
        };
        if let Some(n) = name {
            self.workspaces[i].name = n.to_owned();
        }
        if let Some(d) = description {
            self.workspaces[i].description = d.to_owned();
        }
        if let Some(p) = is_public {
            self.workspaces[i].is_public = p;
        }
        self.workspaces[i].updated_at = now;
        UpdateOutcome::Updated
    }
}

/// Outcome of a partial update.
pub enum UpdateOutcome {
    /// No field to change was supplied.
    NoFields,
    /// The addressed row does not exist.
    NotFound,
    /// The row was changed.
    Updated,
}

/// Public workspaces, newest creation first (assuming the injected clock
/// never runs backwards, later rows carry later stamps).
pub open spec fn public_newest_first(ws: Seq<Workspace>) -> Seq<Workspace>
    decreases ws.len(),
{
    if ws.len() == 0 {
        Seq::empty()
    } else {
        (if ws.last().is_public {
            seq![ws.last()]
        } else {
            Seq::empty()
        }) + public_newest_first(ws.take(ws.len() - 1))
    }
}

impl Store {
    /// Lists the public workspace rows, newest first.
    pub fn list_public_workspaces(&self) -> (r: Vec<Workspace>)
        requires
            self.wf(),
        ensures
            r@ == public_newest_first(self.workspaces@),
    {
        let mut out: Vec<Workspace> = Vec::new();
        let mut i: usize = self.workspaces.len();
        proof {
            assert(self.workspaces@.take(self.workspaces@.len() as int) =~= self.workspaces@);
        }
        while i > 0
            invariant
                self.wf(),
                i <= self.workspaces@.len(),
                out@ + public_newest_first(self.workspaces@.take(i as int)) == public_newest_first(
                    self.workspaces@,
                ),
            decreases i,
        {
            i = i - 1;
            proof {
                assert(self.workspaces@.take(i as int + 1).last() == self.workspaces@[i as int]);
                assert(self.workspaces@.take(i as int + 1).take(i as int) =~= self.workspaces@.take(
                    i as int,
                ));
            }
            let w = &self.workspaces[i];
            let ghost out0 = out@;
            if w.is_public {
                out.push(
                    Workspace {
                        id: w.id.clone(),
                        name: w.name.clone(),
                        description: w.description.clone(),
                        manage_key_hash: w.manage_key_hash.clone(),
                        is_public: w.is_public,
                        created_at: w.created_at,
                        updated_at: w.updated_at,
                    },
                );
                proof {
                    assert(out@ =~= out0 + seq![self.workspaces@[i as int]]);
                    assert(out@ + public_newest_first(self.workspaces@.take(i as int)) =~= out0
                        + public_newest_first(self.workspaces@.take(i as int + 1)));
                }
            }
        }
        proof {
            assert(self.workspaces@.take(0) =~= Seq::<Workspace>::empty());
            assert(out@ + Seq::<Workspace>::empty() =~= out@);
        }
        out
    }
}

/// Outcome of inserting a document.
pub enum CreateDocOutcome {
    /// The document and its initial version were stored.
    Created,
    /// The owning workspace does not exist.
    NoWorkspace,
    /// Another document in the workspace already carries this slug.
    DuplicateSlug,
    /// The document id is already taken.
    DuplicateId,
}

/// Document rows of one workspace, in storage order; drafts only when
/// requested.
pub open spec fn docs_in_workspace(docs: Seq<Document>, ws: Seq<char>, include_drafts: bool) -> Seq<
    DocumentInfo,
>
    decreases docs.len(),
{
    if docs.len() == 0 {
        Seq::empty()
    } else {
        let rest = docs_in_workspace(docs.skip(1), ws, include_drafts);
        if docs[0].info.workspace_id@ == ws && (include_drafts || docs[0].info.status@
            == "published"@) {
            seq![docs[0].info] + rest
        } else {
            rest
        }
    }
}

impl Store {
    /// Inserts a document row together with its synthesized initial version
    /// (sequence number 1), so every document has at least one version
    /// before any edit.
    pub fn create_document(
        &mut self,
        id: &str,
        workspace_id: &str,
        title: &str,
        slug: &str,
        content: &str,
        content_html: &str,
        summary: &str,
        tags: &str,
        status: &str,
        author_name: &str,
        word_count: i32,
        version_id: &str,
        now: u64,
    ) -> (r: CreateDocOutcome)
        requires
            old(self).wf(),
        ensures
            final(self).wf(),
            final(self).workspaces == old(self).workspaces,
            r is NoWorkspace <==> !old(self).has_workspace(workspace_id@),
            old(self).has_workspace(workspace_id@) ==> (r is DuplicateSlug <==> old(
                self,
            ).has_doc_slug(workspace_id@, slug@)),
            old(self).has_workspace(workspace_id@) && !old(self).has_doc_slug(
                workspace_id@,
                slug@,
            ) ==> (r is DuplicateId <==> old(self).has_document(id@)),
            !(r is Created) ==> *final(self) == *old(self),
            r is Created ==> final(self).documents@.len() == old(self).documents@.len() + 1 && (
            forall|k: int|
                0 <= k < old(self).documents@.len() ==> final(self).documents@[k] == old(
                    self,
                ).documents@[k]) && ({
                let d = final(self).documents@.last();
                &&& d.info.id@ == id@
                &&& d.info.workspace_id@ == workspace_id@
                &&& d.info.title@ == title@
                &&& d.info.slug@ == slug@
                &&& d.info.content@ == content@
                &&& d.info.content_html@ == content_html@
                &&& d.info.summary@ == summary@
                &&& d.info.tags@ == tags@
                &&& d.info.status@ == status@
                &&& d.info.author_name@ == author_name@
                &&& d.info.word_count == word_count
                &&& d.info.lock.is_unlocked()
                &&& d.info.created_at == now
                &&& d.info.updated_at == now
                &&& d.comments@.len() == 0
                &&& d.versions@.len() == 1
                &&& d.versions@[0].id@ == version_id@
                &&& d.versions@[0].version_number == 1
                &&& d.versions@[0].content@ == content@
                &&& d.versions@[0].content_html@ == content_html@
                &&& d.versions@[0].summary@ == summary@
                &&& d.versions@[0].author_name@ == author_name@
                &&& d.versions@[0].change_description@ == "Initial version"@
                &&& d.versions@[0].word_count == word_count
                &&& d.versions@[0].created_at == now
            }),
    {
        if self.find_workspace(workspace_id).is_none() {
            return CreateDocOutcome::NoWorkspace;
        }
        if self.find_doc_by_slug(workspace_id, slug).is_some() {
            return CreateDocOutcome::DuplicateSlug;
        }
        if self.find_document(id).is_some() {
            return CreateDocOutcome::DuplicateId;
        }
        let initial = Version {
            id: version_id.to_owned(),
            version_number: 1,
            content: content.to_owned(),
            content_html: content_html.to_owned(),
            summary: summary.to_owned(),
            author_name: author_name.to_owned(),
            change_description: String::from_str("Initial version"),
            word_count,
            created_at: now,
        };
        let mut versions: Vec<Version> = Vec::new();
        versions.push(initial);
        self.documents.push(
            Document {
                info: DocumentInfo {
                    id: id.to_owned(),
                    workspace_id: workspace_id.to_owned(),
                    title: title.to_owned(),
                    slug: slug.to_owned(),
                    content: content.to_owned(),
                    content_html: content_html.to_owned(),
                    summary: summary.to_owned(),
                    tags: tags.to_owned(),
                    status: status.to_owned(),
                    author_name: author_name.to_owned(),
                    word_count,
                    lock: LockState::new_unlocked(),
                    created_at: now,
                    updated_at: now,
                },
                versions,
                comments: Vec::new(),
            },
        );
        CreateDocOutcome::Created
    }

    /// Copy of the document row carrying `slug` inside `workspace_id`.
    pub fn get_document(&self, workspace_id: &str, slug: &str) -> (r: Option<DocumentInfo>)
        requires
            self.wf(),
        ensures
            r is Some == self.has_doc_slug(workspace_id@, slug@),
            r is Some ==> r->0 == self.documents@[self.doc_slug_idx(workspace_id@, slug@)].info,
    {
        match self.find_doc_by_slug(workspace_id, slug) {
            Some(i) => Some(self.documents[i].info.duplicate()),
            None => None,
        }
    }

    /// Copy of the document row with the given id.
    pub fn get_document_by_id(&self, id: &str) -> (r: Option<DocumentInfo>)
        requires
            self.wf(),
        ensures
            r is Some == self.has_document(id@),
            r is Some ==> r->0 == self.document(id@).info,
    {
        match self.find_document(id) {
            Some(i) => Some(self.documents[i].info.duplicate()),
            None => None,
        }
    }

    /// Lists the document rows of a workspace in storage order; drafts only
    /// when the caller proved management rights.
    pub fn list_documents(&self, workspace_id: &str, include_drafts: bool) -> (r: Vec<DocumentInfo>)
        requires
            self.wf(),
        ensures
            r@ == docs_in_workspace(self.documents@, workspace_id@, include_drafts),
    {
        let mut out: Vec<DocumentInfo> = Vec::new();
        let mut i: usize = 0;
        let n = self.documents.len();
        proof {
            assert(self.documents@.skip(0) =~= self.documents@);
        }
        while i < n
            invariant
                self.wf(),
                n == self.documents@.len(),
                i <= n,
                out@ + docs_in_workspace(self.documents@.skip(i as int), workspace_id@,
                    include_drafts,
                ) == docs_in_workspace(self.documents@, workspace_id@, include_drafts),
            decreases n - i,
        {
            proof {
                assert(self.documents@.skip(i as int)[0] == self.documents@[i as int]);
                assert(self.documents@.skip(i as int).skip(1) =~= self.documents@.skip(
                    i as int + 1,
                ));
            }
            let ghost out0 = out@;
            let d = &self.documents[i];
            if crate::text::str_eq(d.info.workspace_id.as_str(), workspace_id) && (include_drafts
                || crate::text::str_eq(d.info.status.as_str(), "published")) {
                out.push(d.info.duplicate());
                proof {
                    assert(out@ =~= out0 + seq![self.documents@[i as int].info]);
                    assert(out@ + docs_in_workspace(self.documents@.skip(i as int + 1),
                        workspace_id@, include_drafts) =~= out0 + docs_in_workspace(
                        self.documents@.skip(i as int), workspace_id@, include_drafts));
                }
            }
            i = i + 1;
        }
        proof {
            assert(self.documents@.skip(n as int) =~= Seq::<Document>::empty());
            assert(out@ + Seq::<DocumentInfo>::empty() =~= out@);
        }
        out
    }

    /// Applies the supplied document fields; a supplied content snapshot
    /// first appends a new version under the same exclusive access, so the
    /// sequence number `len + 1` can neither race nor repeat.
    #[verifier::rlimit(100)]
    pub fn update_document(
        &mut self,
        doc_id: &str,
        title: Option<&str>,
        content: Option<&str>,
        content_html: Option<&str>,
        summary: Option<&str>,
        tags: Option<&str>,
        status: Option<&str>,
        author_name: Option<&str>,
        word_count: Option<i32>,
        change_description: Option<&str>,
        version_id: &str,
        now: u64,
    ) -> (r: UpdateOutcome)
        requires
            old(self).wf(),
        ensures
            final(self).wf(),
            final(self).workspaces == old(self).workspaces,
            r is NoFields <==> (title is None && content is None && content_html is None
                && summary is None && tags is None && status is None && word_count is None),
            !(r is NoFields) ==> (r is NotFound <==> !old(self).has_document(doc_id@)),
            r is NoFields || r is NotFound ==> *final(self) == *old(self),
            r is Updated ==> ({
                let i = old(self).document_idx(doc_id@);
                let d0 = old(self).documents@[i];
                let d1 = final(self).documents@[i];
                &&& final(self).documents@.len() == old(self).documents@.len()
                &&& (forall|k: int|
                    0 <= k < old(self).documents@.len() && k != i ==> final(self).documents@[k]
                        == old(self).documents@[k])
                &&& d1.info.id == d0.info.id
                &&& d1.info.workspace_id == d0.info.workspace_id
                &&& d1.info.slug == d0.info.slug
                &&& d1.info.author_name == d0.info.author_name
                &&& d1.info.lock == d0.info.lock
                &&& d1.info.created_at == d0.info.created_at
                &&& d1.info.updated_at == now
                &&& d1.info.title@ == (if title is Some {
                    title->0@
                } else {
                    d0.info.title@
                })
                &&& d1.info.content@ == (if content is Some {
                    content->0@
                } else {
                    d0.info.content@
                })
                &&& d1.info.content_html@ == (if content_html is Some {
                    content_html->0@
                } else {
                    d0.info.content_html@
                })
                &&& d1.info.summary@ == (if summary is Some {
                    summary->0@
                } else {
                    d0.info.summary@
                })
                &&& d1.info.tags@ == (if tags is Some {
                    tags->0@
                } else {
                    d0.info.tags@
                })
                &&& d1.info.status@ == (if status is Some {
                    status->0@
                } else {
                    d0.info.status@
                })
                &&& d1.info.word_count == (if word_count is Some {
                    word_count->0
                } else {
                    d0.info.word_count
                })
                &&& d1.comments == d0.comments
                &&& (content is None ==> d1.versions == d0.versions)
                &&& (content is Some ==> d1.versions@.len() == d0.versions@.len() + 1 && (forall|
                    k: int,
                |
                    0 <= k < d0.versions@.len() ==> d1.versions@[k] == d0.versions@[k]) && ({
                    let v = d1.versions@.last();
                    &&& v.id@ == version_id@
                    &&& v.version_number == d0.versions@.len() + 1
                    &&& v.content@ == content->0@
                    &&& v.content_html@ == (if content_html is Some {
                        content_html->0@
                    } else {
                        Seq::<char>::empty()
                    })
                    &&& v.summary@ == (if summary is Some {
                        summary->0@
                    } else {
                        Seq::<char>::empty()
                    })
                    &&& v.author_name@ == (if author_name is Some {
                        author_name->0@
                    } else {
                        Seq::<char>::empty()
                    })
                    &&& v.change_description@ == (if change_description is Some {
                        change_description->0@
                    } else {
                        Seq::<char>::empty()
                    })
                    &&& v.word_count == (if word_count is Some {
                        word_count->0
                    } else {
                        0
                    })
                    &&& v.created_at == now
                }))
            }),
    {
        if title.is_none() && content.is_none() && content_html.is_none() && summary.is_none()
            && tags.is_none() && status.is_none() && word_count.is_none() {
            return UpdateOutcome::NoFields;
        }
        let i = match self.find_document(doc_id) {
            Some(i) => i,
            None => {
                return UpdateOutcome::NotFound;
            },
        };
        if let Some(c) = content {
            let v = Version {
                id: version_id.to_owned(),
                version_number: 0,
                content: c.to_owned(),
                content_html: match content_html {
                    Some(h) => h.to_owned(),
                    None => String::new(),
                },
                summary: match summary {
                    Some(s) => s.to_owned(),
                    None => String::new(),
                },
                author_name: match author_name {
                    Some(a) => a.to_owned(),
                    None => String::new(),
                },
                change_description: match change_description {
                    Some(c) => c.to_owned(),
                    None => String::new(),
                },
                word_count: match word_count {
                    Some(w) => w,
                    None => 0,
                },
                created_at: now,
            };
            self.documents[i].versions.push(v);
            let n = self.documents[i].versions.len();
            self.documents[i].versions[n - 1].version_number = n as u64;
        }
        if let Some(t) = title {
            self.documents[i].info.title = t.to_owned();
        }
        if let Some(c) = content {
            self.documents[i].info.content = c.to_owned();
        }
        if let Some(h) = content_html {
            self.documents[i].info.content_html = h.to_owned();
        }
        if let Some(s) = summary {
            self.documents[i].info.summary = s.to_owned();
        }
        if let Some(t) = tags {
            self.documents[i].info.tags = t.to_owned();
        }
        if let Some(s) = status {
            self.documents[i].info.status = s.to_owned();
        }
        if let Some(w) = word_count {
            self.documents[i].info.word_count = w;
        }
        self.documents[i].info.updated_at = now;
        UpdateOutcome::Updated
    }

    /// Removes a document and, with it, everything it owns — its versions
    /// and comments go in cascade because they live inside the record.
    pub fn delete_document(&mut self, doc_id: &str) -> (r: bool)
        requires
            old(self).wf(),
        ensures
            final(self).wf(),
            final(self).workspaces == old(self).workspaces,
            r == old(self).has_document(doc_id@),
            !r ==> *final(self) == *old(self),
            r ==> final(self).documents@ == old(self).documents@.remove(
                old(self).document_idx(doc_id@),
            ),
    {
        match self.find_document(doc_id) {
            Some(i) => {
                self.documents.remove(i);
                true
            },
            None => false,
        }
    }
}

/// Law: a stored document's version sequence numbers are exactly
/// `1..=N` — every number in the range occurs, none occurs twice, and
/// nothing outside the range occurs. This holds after any sequence of
/// commits, because each commit assigns `len + 1` under the store's
/// exclusive access.
pub proof fn lemma_version_numbers_gapless(s: Store, doc_id: Seq<char>)
    requires
        s.wf(),
        s.has_document(doc_id),
    ensures
        forall|n: int|
            1 <= n <= s.document(doc_id).versions@.len() ==> #[trigger] has_version_number(
                s.document(doc_id),
                n,
            ),
        forall|k: int, l: int|
            0 <= k < l < s.document(doc_id).versions@.len() ==> s.document(
                doc_id,
            ).versions@[k].version_number != s.document(doc_id).versions@[l].version_number,
        forall|k: int|
            0 <= k < s.document(doc_id).versions@.len() ==> 1 <= (#[trigger] s.document(
                doc_id,
            ).versions@[k]).version_number <= s.document(doc_id).versions@.len(),
{
    let d = s.document(doc_id);
    let i = s.document_idx(doc_id);
    assert(0 <= i < s.documents@.len() && s.documents@[i].info.id@ == doc_id);
    assert(s.documents@[i].wf());
    assert forall|n: int| 1 <= n <= d.versions@.len() implies #[trigger] has_version_number(
        d,
        n,
    ) by {
        assert(d.versions@[n - 1].version_number == n);
    }
}

/// Some version of `d` carries the sequence number `n`.
pub open spec fn has_version_number(d: Document, n: int) -> bool {
    exists|k: int|
        0 <= k < d.versions@.len() && (#[trigger] d.versions@[k]).version_number == n
}

/// History rows of a version sequence, newest (highest number) first.
pub open spec fn history_newest_first(vs: Seq<Version>) -> Seq<VersionMeta>
    decreases vs.len(),
{
    if vs.len() == 0 {
        Seq::empty()
    } else {
        seq![meta_of(vs.last())] + history_newest_first(vs.take(vs.len() - 1))
    }
}

/// Outcome of a lock operation addressed to one document.
pub enum LockOutcome {
    /// The lock was granted or renewed.
    Granted,
    /// A different, non-expired holder stands in the way — recoverable,
    /// retry later.
    Conflict,
    /// The document does not exist.
    NotFound,
}

/// Outcome of inserting a comment.
pub enum CommentOutcome {
    /// The comment was stored.
    Created,
    /// The document does not exist.
    NotFound,
    /// The named parent comment is not part of this document.
    BadParent,
    /// The comment id is already taken on this document.
    DuplicateId,
}

impl Document {
    /// Finds the index of the comment with id `cid`.
    fn find_comment(&self, cid: &str) -> (r: Option<usize>)
        requires
            self.wf(),
        ensures
            match r {
                Some(k) => self.has_comment(cid@) && k == self.comment_idx(cid@)
                    && k < self.comments@.len() && self.comments@[k as int].id@ == cid@,
                None => !self.has_comment(cid@),
            },
    {
        let mut k: usize = 0;
        while k < self.comments.len()
            invariant
                self.wf(),
                k <= self.comments@.len(),
                forall|l: int| 0 <= l < k ==> self.comments@[l].id@ != cid@,
            decreases self.comments@.len() - k,
        {
            if crate::text::str_eq(self.comments[k].id.as_str(), cid) {
                proof {
                    let l = self.comment_idx(cid@);
                    assert(0 <= l < self.comments@.len() && self.comments@[l].id@ == cid@);
                    assert(l == k);
                }
                return Some(k);
            }
            k = k + 1;
        }
        None
    }
}

impl Store {
    /// The version history of a document, newest first, without the
    /// snapshot bodies.
    pub fn list_versions(&self, doc_id: &str) -> (r: Option<Vec<VersionMeta>>)
        requires
            self.wf(),
        ensures
            r is Some == self.has_document(doc_id@),
            r is Some ==> r->0@ == history_newest_first(self.document(doc_id@).versions@),
    {
        let i = match self.find_document(doc_id) {
            Some(i) => i,
            None => {
                return None;
            },
        };
        let vs = &self.documents[i].versions;
        let mut out: Vec<VersionMeta> = Vec::new();
        let mut k: usize = vs.len();
        proof {
            assert(vs@.take(vs@.len() as int) =~= vs@);
        }
        while k > 0
            invariant
                k <= vs@.len(),
                out@ + history_newest_first(vs@.take(k as int)) == history_newest_first(vs@),
            decreases k,
        {
            k = k - 1;
            proof {
                assert(vs@.take(k as int + 1).last() == vs@[k as int]);
                assert(vs@.take(k as int + 1).take(k as int) =~= vs@.take(k as int));
            }
            let ghost out0 = out@;
            out.push(vs[k].meta());
            proof {
                assert(out@ =~= out0 + seq![meta_of(vs@[k as int])]);
                assert(out@ + history_newest_first(vs@.take(k as int)) =~= out0
                    + history_newest_first(vs@.take(k as int + 1)));
            }
        }
        proof {
            assert(vs@.take(0) =~= Seq::<Version>::empty());
            assert(out@ + Seq::<VersionMeta>::empty() =~= out@);
        }
        Some(out)
    }

    /// Copy of one version snapshot, addressed by its sequence number.
    pub fn get_version(&self, doc_id: &str, number: u64) -> (r: Option<Version>)
        requires
            self.wf(),
        ensures
            r is Some == (self.has_document(doc_id@) && 1 <= number && number <= self.document(
                doc_id@,
            ).versions@.len()),
            r is Some ==> r->0 == self.document(doc_id@).versions@[number - 1],
    {
        let i = match self.find_document(doc_id) {
            Some(i) => i,
            None => {
                return None;
            },
        };
        let len = self.documents[i].versions.len();
        if number >= 1 && number <= len as u64 {
            let k = (number - 1) as usize;
            Some(self.documents[i].versions[k].duplicate())
        } else {
            None
        }
    }

    /// Inserts a comment on a document, optionally as a reply to an
    /// existing comment of the same document.
    pub fn create_comment(
        &mut self,
        id: &str,
        doc_id: &str,
        parent_id: Option<&str>,
        author_name: &str,
        content: &str,
        now: u64,
    ) -> (r: CommentOutcome)
        requires
            old(self).wf(),
        ensures
            final(self).wf(),
            final(self).workspaces == old(self).workspaces,
            r is NotFound <==> !old(self).has_document(doc_id@),
            old(self).has_document(doc_id@) ==> (r is BadParent <==> parent_id is Some && !old(
                self,
            ).document(doc_id@).has_comment(parent_id->0@)),
            old(self).has_document(doc_id@) && (parent_id is Some ==> old(self).document(
                doc_id@,
            ).has_comment(parent_id->0@)) ==> (r is DuplicateId <==> old(self).document(
                doc_id@,
            ).has_comment(id@)),
            !(r is Created) ==> *final(self) == *old(self),
            r is Created ==> ({
                let i = old(self).document_idx(doc_id@);
                let d0 = old(self).documents@[i];
                let d1 = final(self).documents@[i];
                &&& final(self).documents@.len() == old(self).documents@.len()
                &&& (forall|k: int|
                    0 <= k < old(self).documents@.len() && k != i ==> final(self).documents@[k]
                        == old(self).documents@[k])
                &&& d1.info == d0.info
                &&& d1.versions == d0.versions
                &&& d1.comments@.len() == d0.comments@.len() + 1
                &&& (forall|k: int|
                    0 <= k < d0.comments@.len() ==> d1.comments@[k] == d0.comments@[k])
                &&& ({
                    let c = d1.comments@.last();
                    &&& c.id@ == id@
                    &&& (c.parent_id is Some <==> parent_id is Some)
                    &&& (parent_id is Some ==> c.parent_id->0@ == parent_id->0@)
                    &&& c.author_name@ == author_name@
                    &&& c.content@ == content@
                    &&& !c.resolved
                    &&& c.created_at == now
                    &&& c.updated_at == now
                })
            }),
    {
        let i = match self.find_document(doc_id) {
            Some(i) => i,
            None => {
                return CommentOutcome::NotFound;
            },
        };
        let owned_parent: Option<String> = match parent_id {
            Some(p) => {
                if self.documents[i].find_comment(p).is_none() {
                    return CommentOutcome::BadParent;
                }
                Some(p.to_owned())
            },
            None => None,
        };
        if self.documents[i].find_comment(id).is_some() {
            return CommentOutcome::DuplicateId;
        }
        self.documents[i].comments.push(
            Comment {
                id: id.to_owned(),
                parent_id: owned_parent,
                author_name: author_name.to_owned(),
                content: content.to_owned(),
                resolved: false,
                created_at: now,
                updated_at: now,
            },
        );
        CommentOutcome::Created
    }

    /// Copies of a document's comments, in creation order.
    pub fn list_comments(&self, doc_id: &str) -> (r: Option<Vec<Comment>>)
        requires
            self.wf(),
        ensures
            r is Some == self.has_document(doc_id@),
            r is Some ==> r->0@ == self.document(doc_id@).comments@,
    {
        let i = match self.find_document(doc_id) {
            Some(i) => i,
            None => {
                return None;
            },
        };
        let cs = &self.documents[i].comments;
        let mut out: Vec<Comment> = Vec::new();
        let mut k: usize = 0;
        while k < cs.len()
            invariant
                k <= cs@.len(),
                out@.len() == k,
                forall|l: int| 0 <= l < k ==> out@[l] == cs@[l],
            decreases cs@.len() - k,
        {
            out.push(cs[k].duplicate());
            k = k + 1;
        }
        proof {
            assert(out@ =~= cs@);
        }
        Some(out)
    }

    /// Applies the supplied comment fields and bumps the update stamp.
    pub fn update_comment(
        &mut self,
        doc_id: &str,
        comment_id: &str,
        content: Option<&str>,
        resolved: Option<bool>,
        now: u64,
    ) -> (r: bool)
        requires
            old(self).wf(),
        ensures
            final(self).wf(),
            final(self).workspaces == old(self).workspaces,
            r == (old(self).has_document(doc_id@) && old(self).document(doc_id@).has_comment(
                comment_id@,
            )),
            !r ==> *final(self) == *old(self),
            r ==> ({
                let i = old(self).document_idx(doc_id@);
                let d0 = old(self).documents@[i];
                let d1 = final(self).documents@[i];
                let k = d0.comment_idx(comment_id@);
                let c0 = d0.comments@[k];
                let c1 = d1.comments@[k];
                &&& final(self).documents@.len() == old(self).documents@.len()
                &&& (forall|l: int|
                    0 <= l < old(self).documents@.len() && l != i ==> final(self).documents@[l]
                        == old(self).documents@[l])
                &&& d1.info == d0.info
                &&& d1.versions == d0.versions
                &&& d1.comments@.len() == d0.comments@.len()
                &&& (forall|l: int|
                    0 <= l < d0.comments@.len() && l != k ==> d1.comments@[l] == d0.comments@[l])
                &&& c1.id == c0.id
                &&& c1.parent_id == c0.parent_id
                &&& c1.author_name == c0.author_name
                &&& c1.content@ == (if content is Some {
                    content->0@
                } else {
                    c0.content@
                })
                &&& c1.resolved == (if resolved is Some {
                    resolved->0
                } else {
                    c0.resolved
                })
                &&& c1.created_at == c0.created_at
                &&& c1.updated_at == now
            }),
    {
        let i = match self.find_document(doc_id) {
            Some(i) => i,
            None => {
                return false;
            },
        };
        let k = match self.documents[i].find_comment(comment_id) {
            Some(k) => k,
            None => {
                return false;
            },
        };
        if let Some(c) = content {
            self.documents[i].comments[k].content = c.to_owned();
        }
        if let Some(v) = resolved {
            self.documents[i].comments[k].resolved = v;
        }
        self.documents[i].comments[k].updated_at = now;
        true
    }

    /// Removes one comment from a document.
    pub fn delete_comment(&mut self, doc_id: &str, comment_id: &str) -> (r: bool)
        requires
            old(self).wf(),
        ensures
            final(self).wf(),
            final(self).workspaces == old(self).workspaces,
            r == (old(self).has_document(doc_id@) && old(self).document(doc_id@).has_comment(
                comment_id@,
            )),
            !r ==> *final(self) == *old(self),
            r ==> ({
                let i = old(self).document_idx(doc_id@);
                let d0 = old(self).documents@[i];
                let d1 = final(self).documents@[i];
                &&& final(self).documents@.len() == old(self).documents@.len()
                &&& (forall|l: int|
                    0 <= l < old(self).documents@.len() && l != i ==> final(self).documents@[l]
                        == old(self).documents@[l])
                &&& d1.info == d0.info
                &&& d1.versions == d0.versions
                &&& d1.comments@ == d0.comments@.remove(d0.comment_idx(comment_id@))
            }),
    {
        let i = match self.find_document(doc_id) {
            Some(i) => i,
            None => {
                return false;
            },
        };
        let k = match self.documents[i].find_comment(comment_id) {
            Some(k) => k,
            None => {
                return false;
            },
        };
        self.documents[i].comments.remove(k);
        true
    }

    /// Tries to claim a document's edit lock. A live lock held by someone
    /// else yields a conflict and changes nothing; grants stamp the
    /// document as updated.
    pub fn acquire_lock(&mut self, doc_id: &str, editor: &str, ttl: u64, now: u64) -> (r:
        LockOutcome)
        requires
            old(self).wf(),
        ensures
            final(self).wf(),
            final(self).workspaces == old(self).workspaces,
            r is NotFound <==> !old(self).has_document(doc_id@),
            old(self).has_document(doc_id@) ==> ({
                let i = old(self).document_idx(doc_id@);
                let d0 = old(self).documents@[i];
                &&& (r is Granted <==> d0.info.lock.grantable_to(editor@, now))
                &&& (r is Conflict <==> !d0.info.lock.grantable_to(editor@, now))
            }),
            !(r is Granted) ==> final(self).documents@ == old(self).documents@,
            r is Granted ==> ({
                let i = old(self).document_idx(doc_id@);
                let d0 = old(self).documents@[i];
                let d1 = final(self).documents@[i];
                &&& final(self).documents@.len() == old(self).documents@.len()
                &&& (forall|l: int|
                    0 <= l < old(self).documents@.len() && l != i ==> final(self).documents@[l]
                        == old(self).documents@[l])
                &&& d1.versions == d0.versions
                &&& d1.comments == d0.comments
                &&& d1.info.lock.holder is Some
                &&& d1.info.lock.holder->0@ == editor@
                &&& d1.info.lock.acquired_at == now
                &&& d1.info.lock.expires_at == crate::lock::expiry_at(now, ttl)
                &&& d1.info.updated_at == now
                &&& d1.info.id == d0.info.id
                &&& d1.info.workspace_id == d0.info.workspace_id
                &&& d1.info.title == d0.info.title
                &&& d1.info.slug == d0.info.slug
                &&& d1.info.content == d0.info.content
                &&& d1.info.content_html == d0.info.content_html
                &&& d1.info.summary == d0.info.summary
                &&& d1.info.tags == d0.info.tags
                &&& d1.info.status == d0.info.status
                &&& d1.info.author_name == d0.info.author_name
                &&& d1.info.word_count == d0.info.word_count
                &&& d1.info.created_at == d0.info.created_at
            }),
    {
        let i = match self.find_document(doc_id) {
            Some(i) => i,
            None => {
                return LockOutcome::NotFound;
            },
        };
        let granted = self.documents[i].info.lock.acquire(editor, ttl, now);
        if granted {
            self.documents[i].info.updated_at = now;
            LockOutcome::Granted
        } else {
            proof {
                assert(self.documents@ =~= old(self).documents@);
            }
            LockOutcome::Conflict
        }
    }

    /// Extends a document's lock for its current non-expired holder;
    /// anything else is the same recoverable conflict as a contended
    /// acquire.
    pub fn renew_lock(&mut self, doc_id: &str, editor: &str, ttl: u64, now: u64) -> (r: LockOutcome)
        requires
            old(self).wf(),
        ensures
            final(self).wf(),
            final(self).workspaces == old(self).workspaces,
            r is NotFound <==> !old(self).has_document(doc_id@),
            old(self).has_document(doc_id@) ==> ({
                let i = old(self).document_idx(doc_id@);
                let d0 = old(self).documents@[i];
                &&& (r is Granted <==> d0.info.lock.held_by(editor@, now))
                &&& (r is Conflict <==> !d0.info.lock.held_by(editor@, now))
            }),
            !(r is Granted) ==> final(self).documents@ == old(self).documents@,
            r is Granted ==> ({
                let i = old(self).document_idx(doc_id@);
                let d0 = old(self).documents@[i];
                let d1 = final(self).documents@[i];
                &&& final(self).documents@.len() == old(self).documents@.len()
                &&& (forall|l: int|
                    0 <= l < old(self).documents@.len() && l != i ==> final(self).documents@[l]
                        == old(self).documents@[l])
                &&& d1.versions == d0.versions
                &&& d1.comments == d0.comments
                &&& d1.info.lock.holder == d0.info.lock.holder
                &&& d1.info.lock.acquired_at == d0.info.lock.acquired_at
                &&& d1.info.lock.expires_at == crate::lock::expiry_at(now, ttl)
                &&& d1.info.updated_at == now
                &&& d1.info.id == d0.info.id
                &&& d1.info.workspace_id == d0.info.workspace_id
                &&& d1.info.title == d0.info.title
                &&& d1.info.slug == d0.info.slug
                &&& d1.info.content == d0.info.content
                &&& d1.info.content_html == d0.info.content_html
                &&& d1.info.summary == d0.info.summary
                &&& d1.info.tags == d0.info.tags
                &&& d1.info.status == d0.info.status
                &&& d1.info.author_name == d0.info.author_name
                &&& d1.info.word_count == d0.info.word_count
                &&& d1.info.created_at == d0.info.created_at
            }),
    {
        let i = match self.find_document(doc_id) {
            Some(i) => i,
            None => {
                return LockOutcome::NotFound;
            },
        };
        let renewed = self.documents[i].info.lock.renew(editor, ttl, now);
        if renewed {
            self.documents[i].info.updated_at = now;
            LockOutcome::Granted
        } else {
            proof {
                assert(self.documents@ =~= old(self).documents@);
            }
            LockOutcome::Conflict
        }
    }

    /// Unconditionally clears a document's lock; fails only when the
    /// document does not exist.
    pub fn release_lock(&mut self, doc_id: &str, now: u64) -> (r: bool)
        requires
            old(self).wf(),
        ensures
            final(self).wf(),
            final(self).workspaces == old(self).workspaces,
            r == old(self).has_document(doc_id@),
            !r ==> *final(self) == *old(self),
            r ==> ({
                let i = old(self).document_idx(doc_id@);
                let d0 = old(self).documents@[i];
                let d1 = final(self).documents@[i];
                &&& final(self).documents@.len() == old(self).documents@.len()
                &&& (forall|l: int|
                    0 <= l < old(self).documents@.len() && l != i ==> final(self).documents@[l]
                        == old(self).documents@[l])
                &&& d1.versions == d0.versions
                &&& d1.comments == d0.comments
                &&& d1.info.lock.is_unlocked()
                &&& d1.info.updated_at == now
                &&& d1.info.id == d0.info.id
                &&& d1.info.workspace_id == d0.info.workspace_id
                &&& d1.info.title == d0.info.title
                &&& d1.info.slug == d0.info.slug
                &&& d1.info.content == d0.info.content
                &&& d1.info.content_html == d0.info.content_html
                &&& d1.info.summary == d0.info.summary
                &&& d1.info.tags == d0.info.tags
                &&& d1.info.status == d0.info.status
                &&& d1.info.author_name == d0.info.author_name
                &&& d1.info.word_count == d0.info.word_count
                &&& d1.info.created_at == d0.info.created_at
            }),
    {
        let i = match self.find_document(doc_id) {
            Some(i) => i,
            None => {
                return false;
            },
        };
        self.documents[i].info.lock.release();
        self.documents[i].info.updated_at = now;
        true
    }
}

/// A document of workspace `ws` whose title or content contains the query,
/// compared with ASCII case folded away.
pub open spec fn doc_matches_query(d: Document, ws: Seq<char>, q: Seq<char>) -> bool {
    &&& d.info.workspace_id@ == ws
    &&& (crate::text::has_substring(
        crate::text::ascii_lower_of(d.info.title@),
        crate::text::ascii_lower_of(q),
    ) || crate::text::has_substring(
        crate::text::ascii_lower_of(d.info.content@),
        crate::text::ascii_lower_of(q),
    ))
}

/// Rows of the documents matching a query, in storage order.
pub open spec fn search_results(docs: Seq<Document>, ws: Seq<char>, q: Seq<char>) -> Seq<
    DocumentInfo,
>
    decreases docs.len(),
{
    if docs.len() == 0 {
        Seq::empty()
    } else {
        let rest = search_results(docs.skip(1), ws, q);
        if doc_matches_query(docs[0], ws, q) {
            seq![docs[0].info] + rest
        } else {
            rest
        }
    }
}

impl Store {
    /// Case-insensitively searches one workspace's documents for `q` in
    /// title or content.
    pub fn search_documents(&self, workspace_id: &str, q: &str) -> (r: Vec<DocumentInfo>)
        requires
            self.wf(),
        ensures
            r@ == search_results(self.documents@, workspace_id@, q@),
    {
        let ql = crate::text::ascii_lower(q);
        let mut out: Vec<DocumentInfo> = Vec::new();
        let mut i: usize = 0;
        let n = self.documents.len();
        proof {
            assert(self.documents@.skip(0) =~= self.documents@);
        }
        while i < n
            invariant
                self.wf(),
                n == self.documents@.len(),
                i <= n,
                ql@ == crate::text::ascii_lower_of(q@),
                out@ + search_results(self.documents@.skip(i as int), workspace_id@, q@)
                    == search_results(self.documents@, workspace_id@, q@),
            decreases n - i,
        {
            proof {
                assert(self.documents@.skip(i as int)[0] == self.documents@[i as int]);
                assert(self.documents@.skip(i as int).skip(1) =~= self.documents@.skip(
                    i as int + 1,
                ));
            }
            let ghost out0 = out@;
            let d = &self.documents[i];
            if crate::text::str_eq(d.info.workspace_id.as_str(), workspace_id) {
                let tl = crate::text::ascii_lower(d.info.title.as_str());
                let cl = crate::text::ascii_lower(d.info.content.as_str());
                if crate::text::contains_str(tl.as_str(), ql.as_str()) || crate::text::contains_str(
                    cl.as_str(),
                    ql.as_str(),
                ) {
                    out.push(d.info.duplicate());
                    proof {
                        assert(out@ =~= out0 + seq![self.documents@[i as int].info]);
                        assert(out@ + search_results(self.documents@.skip(i as int + 1),
                            workspace_id@, q@) =~= out0 + search_results(
                            self.documents@.skip(i as int), workspace_id@, q@));
                    }
                }
            }
            i = i + 1;
        }
        proof {
            assert(self.documents@.skip(n as int) =~= Seq::<Document>::empty());
            assert(out@ + Seq::<DocumentInfo>::empty() =~= out@);
        }
        out
    }
}

} // verus!
