//! Importing an export document: its issues and edges are merged into the
//! current snapshot by the rules of the merge engine.

use vstd::prelude::*;
use vstd::string::StringExecFns;
use crate::commands::export::{exported, Document, DocumentView};
use crate::error::{Error, ErrorView};
use crate::types::SCHEMA_VERSION;
use crate::merge::{
    batch_mismatch,
    count_new,
    cycle_skips,
    merge_snapshot,
    merged,
    new_count,
    select_edges,
    select_issues,
    selected_edges,
    selected_issues,
    MergeReport,
};
use crate::merge_laws::lemma_merge_self;
use crate::snapshot::{load_edges, load_issues, Store, StoreView};
use crate::text::{decimal, decimal_text, owned};

verus! {

/// The message of the commit of an import.
pub open spec fn import_message(issues: nat, edges: nat) -> Seq<char> {
    "Import: "@ + decimal(issues) + " issues, "@ + decimal(edges) + " edges"@
}

/// What importing a document into a store reports.
pub open spec fn import_report(store: StoreView, doc: DocumentView) -> MergeReport {
    let chosen = selected_issues(store.tip().issues, doc.issues);
    let added = new_count(store.tip().issues, chosen);
    MergeReport {
        issues_added: added as usize,
        issues_updated: (chosen.len() - added) as usize,
        edges_added: selected_edges(store.tip().edges, doc.edges).len() as usize,
        edges_skipped: cycle_skips(store.tip().edges, doc.edges) as usize,
    }
}

/// The store after a document is imported: one commit with the merged
/// snapshot, or the store as it was where the document brings nothing new.
pub open spec fn imported(store: StoreView, doc: DocumentView) -> StoreView {
    let chosen = selected_issues(store.tip().issues, doc.issues);
    let to_add = selected_edges(store.tip().edges, doc.edges);
    if chosen.len() == 0 && to_add.len() == 0 {
        store
    } else {
        store.committed(
            import_message(chosen.len(), to_add.len()),
            merged(store.tip(), doc.issues, doc.edges),
        )
    }
}

/// The schema version that stops an import, where one does: that of the
/// first record to be written that is not of the engine's version.
pub open spec fn import_mismatch(store: StoreView, doc: DocumentView) -> Option<u32> {
    batch_mismatch(
        selected_issues(store.tip().issues, doc.issues),
        selected_edges(store.tip().edges, doc.edges),
    )
}

/// The message of the commit of an import.
fn message_of(issues: usize, edges: usize) -> (r: String)
    ensures
        r@ == import_message(issues as nat, edges as nat),
{
    let mut out = owned("Import: ");
    let n = decimal_text(issues as u64);
    out.append(n.as_str());
    out.append(" issues, ");
    let m = decimal_text(edges as u64);
    out.append(m.as_str());
    out.append(" edges");
    out
}

/// Imports a document. Its issues are taken last writer wins; its edges are
/// added unless they are present or would close a cycle, in which case they
/// are left out and counted. All that is taken is written in one commit. A
/// record of another schema version than the engine's among what is taken
/// stops the import before anything is written.
pub fn run(store: &mut Store, document: &Document) -> (r: Result<MergeReport, Error>)
    ensures
        !old(store)@.initialized() ==> r is Err && r->Err_0@ == ErrorView::NotInitialized
            && final(store)@ == old(store)@,
        old(store)@.initialized() ==> match import_mismatch(old(store)@, document@) {
            Some(found) => r is Err && r->Err_0@ == (ErrorView::SchemaMismatch {
                expected: SCHEMA_VERSION,
                found,
            }) && final(store)@ == old(store)@,
            None => r is Ok && r->Ok_0 == import_report(old(store)@, document@) && final(store)@
                == imported(old(store)@, document@),
        },
{
    let existing_issues = match load_issues(store) {
        Err(e) => { return Err(e); },
        Ok(issues) => issues,
    };
    let existing_edges = match load_edges(store) {
        Err(e) => { return Err(e); },
        Ok(edges) => edges,
    };
    let issues_to_save = select_issues(&existing_issues, &document.issues);
    let picked = select_edges(&existing_edges, &document.edges);
    let edges_to_add = picked.0;
    let issues_added = count_new(&existing_issues, &issues_to_save);
    let report = MergeReport {
        issues_added,
        issues_updated: issues_to_save.len() - issues_added,
        edges_added: edges_to_add.len(),
        edges_skipped: picked.1,
    };
    if issues_to_save.len() > 0 || edges_to_add.len() > 0 {
        let message = message_of(issues_to_save.len(), edges_to_add.len());
        match merge_snapshot(store, &issues_to_save, &edges_to_add, message.as_str()) {
            Err(e) => { return Err(e); },
            Ok(()) => {},
        }
    }
    Ok(report)
}

/// The round trip: importing what was just exported changes nothing. No
/// record of the document beats the record it came from, so nothing is
/// written, neither to the snapshot nor to the chain of commits.
pub proof fn lemma_import_of_export(store: StoreView, now: i64)
    requires
        store.initialized(),
        store.tip().wf(),
    ensures
        import_mismatch(store, exported(store.tip(), now)) is None,
        imported(store, exported(store.tip(), now)) == store,
        merged(store.tip(), store.tip().issues, store.tip().edges) == store.tip(),
{
    let a = store.tip();
    lemma_merge_self(a);
    crate::merge_laws::lemma_self_selects_nothing(a);
}

} // verus!
