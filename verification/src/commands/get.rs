//! Looking one issue up.

use vstd::prelude::*;
use crate::error::{Error, ErrorView};
use crate::resolve::resolution;
use crate::snapshot::{ids_of, load_issue, Store};
use crate::types::Issue;

verus! {

/// The issue that the prefix stands for in the current snapshot.
pub fn run(store: &Store, id_prefix: &str) -> (r: Result<Issue, Error>)
    ensures
        !store@.initialized() ==> r is Err && r->Err_0@ == ErrorView::NotInitialized,
        store@.initialized() ==> match resolution(ids_of(store@.tip().issues), id_prefix@) {
            Ok(id) => r is Ok && Some(r->Ok_0@) == store@.tip().issue(id) && r->Ok_0@.id == id,
            Err(e) => r is Err && r->Err_0@ == e,
        },
{
    load_issue(store, id_prefix)
}

} // verus!
