//! Exporting the current snapshot as one document.

use vstd::prelude::*;
use crate::error::{Error, ErrorView};
use crate::snapshot::{load_edges, load_issues, SnapshotView, Store};
use crate::types::{edge_views, issue_views, Edge, EdgeView, Issue, IssueView};

verus! {

/// The version of the export document.
pub const DOCUMENT_VERSION: u32 = 1;

/// The export document: every issue and every edge of a snapshot.
#[derive(Debug, Clone)]
pub struct Document {
    pub version: u32,
    pub exported_at: i64,
    pub issues: Vec<Issue>,
    pub edges: Vec<Edge>,
}

/// An export document as a mathematical value.
pub struct DocumentView {
    pub version: u32,
    pub exported_at: i64,
    pub issues: Seq<IssueView>,
    pub edges: Seq<EdgeView>,
}

impl View for Document {
    type V = DocumentView;

    open spec fn view(&self) -> DocumentView {
        DocumentView {
            version: self.version,
            exported_at: self.exported_at,
            issues: issue_views(self.issues@),
            edges: edge_views(self.edges@),
        }
    }
}

/// The document that exporting a snapshot at `now` gives.
pub open spec fn exported(s: SnapshotView, now: i64) -> DocumentView {
    DocumentView { version: DOCUMENT_VERSION, exported_at: now, issues: s.issues, edges: s.edges }
}

/// Exports the current snapshot: the document holds its issues and its
/// edges, in their order, and the time of the export.
pub fn run(store: &Store, now: i64) -> (r: Result<Document, Error>)
    ensures
        !store@.initialized() ==> r is Err && r->Err_0@ == ErrorView::NotInitialized,
        store@.initialized() ==> r is Ok && r->Ok_0@ == exported(store@.tip(), now),
{
    let issues = match load_issues(store) {
        Err(e) => { return Err(e); },
        Ok(issues) => issues,
    };
    let edges = match load_edges(store) {
        Err(e) => { return Err(e); },
        Ok(edges) => edges,
    };
    Ok(Document { version: DOCUMENT_VERSION, exported_at: now, issues, edges })
}

} // verus!
