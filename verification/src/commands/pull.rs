//! Pulling: the snapshot of a peer is merged into the local one, in a
//! single commit on top of the local chain.

use vstd::prelude::*;
use crate::error::{Error, ErrorView};
use crate::merge::{
    count_new, cycle_skips, lemma_edge_mismatch, lemma_issue_mismatch,
    lemma_selected_edges_versioned, lemma_selected_issues_versioned, merge_snapshot, merged,
    new_count, select_edges, select_issues, selected_edges, selected_issues, MergeReport,
};
use crate::types::{edge_views, issue_views};
use crate::snapshot::{load_edges, load_issues, Store, StoreView};

verus! {

/// The message of the commit of a pull.
pub open spec fn pull_message() -> Seq<char> {
    "Merge remote snapshot"@
}

/// What a pull reports.
pub open spec fn pull_report(local: StoreView, remote: StoreView) -> MergeReport {
    let chosen = selected_issues(local.tip().issues, remote.tip().issues);
    let added = new_count(local.tip().issues, chosen);
    MergeReport {
        issues_added: added as usize,
        issues_updated: (chosen.len() - added) as usize,
        edges_added: selected_edges(local.tip().edges, remote.tip().edges).len() as usize,
        edges_skipped: cycle_skips(local.tip().edges, remote.tip().edges) as usize,
    }
}

/// The local store after a pull: one more commit, whose snapshot is the
/// merge of the two current snapshots and whose parent is the local tip.
pub open spec fn pulled(local: StoreView, remote: StoreView) -> StoreView {
    local.committed(
        pull_message(),
        merged(local.tip(), remote.tip().issues, remote.tip().edges),
    )
}

/// Pulls from a peer. A peer without a snapshot is an invalid snapshot; a
/// local side without one is not initialized. Otherwise the peer's issues
/// and edges are merged in and committed; the peer's commits do not become
/// part of the local chain.
pub fn run(local: &mut Store, remote: &Store) -> (r: Result<MergeReport, Error>)
    ensures
        !remote@.initialized() ==> r is Err && r->Err_0@ == ErrorView::InvalidSnapshot
            && final(local)@ == old(local)@,
        remote@.initialized() && !old(local)@.initialized() ==> r is Err && r->Err_0@
            == ErrorView::NotInitialized && final(local)@ == old(local)@,
        remote@.initialized() && old(local)@.initialized() ==> r is Ok && r->Ok_0 == pull_report(
            old(local)@,
            remote@,
        ) && final(local)@ == pulled(old(local)@, remote@),
{
    let remote_issues = match load_issues(remote) {
        Err(_) => { return Err(Error::InvalidSnapshot); },
        Ok(issues) => issues,
    };
    let remote_edges = match load_edges(remote) {
        Err(_) => { return Err(Error::InvalidSnapshot); },
        Ok(edges) => edges,
    };
    let local_issues = match load_issues(local) {
        Err(e) => { return Err(e); },
        Ok(issues) => issues,
    };
    let local_edges = match load_edges(local) {
        Err(e) => { return Err(e); },
        Ok(edges) => edges,
    };
    let issues_to_save = select_issues(&local_issues, &remote_issues);
    let picked = select_edges(&local_edges, &remote_edges);
    let edges_to_add = picked.0;
    let issues_added = count_new(&local_issues, &issues_to_save);
    let report = MergeReport {
        issues_added,
        issues_updated: issues_to_save.len() - issues_added,
        edges_added: edges_to_add.len(),
        edges_skipped: picked.1,
    };
    proof {
        lemma_selected_issues_versioned(issue_views(local_issues@), issue_views(remote_issues@));
        lemma_selected_edges_versioned(edge_views(local_edges@), edge_views(remote_edges@));
        lemma_issue_mismatch(issue_views(issues_to_save@));
        lemma_edge_mismatch(edge_views(edges_to_add@));
    }
    match merge_snapshot(local, &issues_to_save, &edges_to_add, "Merge remote snapshot") {
        Err(e) => Err(e),
        Ok(()) => Ok(report),
    }
}

} // verus!
