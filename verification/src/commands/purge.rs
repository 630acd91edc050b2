//! Purging: the snapshot is exported as a backup and its reference removed.

use vstd::prelude::*;
use crate::commands::export::{exported, Document};
use crate::error::{Error, ErrorView};
use crate::snapshot::{delete_snapshot, Store};

verus! {

/// Removes all data of the engine from the repository. The backup of the
/// current snapshot is made first and comes back in any case; the reference
/// is removed only where the removal is confirmed.
pub fn run(store: &mut Store, now: i64, confirmed: bool) -> (r: Result<Document, Error>)
    ensures
        !old(store)@.initialized() ==> r is Err && r->Err_0@ == ErrorView::NotInitialized
            && final(store)@ == old(store)@,
        old(store)@.initialized() ==> r is Ok && r->Ok_0@ == exported(old(store)@.tip(), now),
        old(store)@.initialized() && confirmed ==> !final(store)@.initialized(),
        old(store)@.initialized() && !confirmed ==> final(store)@ == old(store)@,
{
    let backup = match crate::commands::export::run(store, now) {
        Err(e) => { return Err(e); },
        Ok(document) => document,
    };
    if confirmed {
        match delete_snapshot(store) {
            Err(e) => { return Err(e); },
            Ok(()) => {},
        }
    }
    Ok(backup)
}

} // verus!
