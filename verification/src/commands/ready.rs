//! The ready set of the current snapshot.

use vstd::prelude::*;
use crate::error::{Error, ErrorView};
use crate::query::{ready, ready_set};
use crate::snapshot::{load_edges, load_issues, Store};
use crate::types::{issue_views, Issue};

verus! {

/// The issues that are ready for work: open, unclaimed and not blocked, by
/// priority rank and then by creation time.
pub fn run(store: &Store) -> (r: Result<Vec<Issue>, Error>)
    ensures
        !store@.initialized() ==> r is Err && r->Err_0@ == ErrorView::NotInitialized,
        store@.initialized() ==> r is Ok && issue_views(r->Ok_0@) == ready_set(
            store@.tip().issues,
            store@.tip().edges,
        ),
{
    let issues = match load_issues(store) {
        Err(e) => { return Err(e); },
        Ok(issues) => issues,
    };
    let edges = match load_edges(store) {
        Err(e) => { return Err(e); },
        Ok(edges) => edges,
    };
    Ok(ready(&issues, &edges))
}

} // verus!
