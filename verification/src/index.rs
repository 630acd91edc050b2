//! Indexes that pair identifiers and edges with the object that holds each
//! record, and the lookups on them.

use vstd::prelude::*;
use crate::dag::proposed;
use crate::error::{Error, ErrorView};
use crate::resolve::{lemma_match_is_present, matches_of, matching_ids};
use crate::text::{owned, views};
use crate::seqs::{lemma_filter_next, lemma_filter_none, lemma_subrange_all};
use crate::text::str_eq;
use crate::types::{edge_views, Edge, EdgeType, EdgeView, SCHEMA_VERSION};

verus! {

#[verifier::external_type_specification]
#[verifier::external_body]
pub struct ExOid(git2::Oid);

/// `Clone` of `git2::Oid`, which the crate derives beside `Copy`: the copy
/// is the same object identifier.
pub assume_specification[ <git2::Oid as Clone>::clone ](oid: &git2::Oid) -> (r: git2::Oid)
    ensures
        r == *oid,
;

/// An edge of the index: its triple and the object that holds its record.
#[derive(Debug, Clone)]
pub struct EdgeEntry {
    pub source: String,
    pub target: String,
    pub edge_type: EdgeType,
    pub oid: git2::Oid,
}

impl EdgeEntry {
    /// The edge that this entry stands for, as the graph sees it.
    pub open spec fn arc(self) -> EdgeView {
        proposed(self.source@, self.target@, self.edge_type)
    }
}

/// The edges that the entries of an index stand for, in order.
pub open spec fn entry_arcs(v: Seq<EdgeEntry>) -> Seq<EdgeView> {
    v.map_values(|e: EdgeEntry| e.arc())
}

/// The edges of a snapshot, each with the object that holds it.
pub struct EdgeIndex {
    pub entries: Vec<EdgeEntry>,
}

impl EdgeIndex {
    /// The entries that leave `source`, in the order of the index.
    pub fn find_by_source(&self, source: &str) -> (r: Vec<&EdgeEntry>)
        ensures
            r@.map_values(|e: &EdgeEntry| *e) == self.entries@.filter(
                |e: EdgeEntry| e.source@ == source@,
            ),
    {
        let ghost pred = |e: EdgeEntry| e.source@ == source@;
        let mut out: Vec<&EdgeEntry> = Vec::new();
        let mut i: usize = 0;
        proof {
            lemma_filter_none(self.entries@, pred);
            assert(out@.map_values(|e: &EdgeEntry| *e) =~= Seq::<EdgeEntry>::empty());
        }
        while i < self.entries.len()
            invariant
                i <= self.entries.len(),
                pred == |e: EdgeEntry| e.source@ == source@,
                out@.map_values(|e: &EdgeEntry| *e) == self.entries@.subrange(0, i as int).filter(
                    pred,
                ),
            decreases self.entries.len() - i,
        {
            let ghost before = out@.map_values(|e: &EdgeEntry| *e);
            proof {
                lemma_filter_next(self.entries@, i as int, pred);
            }
            if str_eq(self.entries[i].source.as_str(), source) {
                out.push(&self.entries[i]);
                assert(out@.map_values(|e: &EdgeEntry| *e) =~= before.push(self.entries@[i as int]));
            }
            i += 1;
        }
        proof {
            lemma_subrange_all(self.entries@);
        }
        out
    }

    /// The entries that arrive at `target`, in the order of the index.
    pub fn find_by_target(&self, target: &str) -> (r: Vec<&EdgeEntry>)
        ensures
            r@.map_values(|e: &EdgeEntry| *e) == self.entries@.filter(
                |e: EdgeEntry| e.target@ == target@,
            ),
    {
        let ghost pred = |e: EdgeEntry| e.target@ == target@;
        let mut out: Vec<&EdgeEntry> = Vec::new();
        let mut i: usize = 0;
        proof {
            lemma_filter_none(self.entries@, pred);
            assert(out@.map_values(|e: &EdgeEntry| *e) =~= Seq::<EdgeEntry>::empty());
        }
        while i < self.entries.len()
            invariant
                i <= self.entries.len(),
                pred == |e: EdgeEntry| e.target@ == target@,
                out@.map_values(|e: &EdgeEntry| *e) == self.entries@.subrange(0, i as int).filter(
                    pred,
                ),
            decreases self.entries.len() - i,
        {
            let ghost before = out@.map_values(|e: &EdgeEntry| *e);
            proof {
                lemma_filter_next(self.entries@, i as int, pred);
            }
            if str_eq(self.entries[i].target.as_str(), target) {
                out.push(&self.entries[i]);
                assert(out@.map_values(|e: &EdgeEntry| *e) =~= before.push(self.entries@[i as int]));
            }
            i += 1;
        }
        proof {
            lemma_subrange_all(self.entries@);
        }
        out
    }

    /// True when the index holds the edge from `source` to `target` of type
    /// `edge_type`.
    pub fn has_edge(&self, source: &str, target: &str, edge_type: EdgeType) -> (r: bool)
        ensures
            r == exists|k: int|
                0 <= k < self.entries@.len() && (#[trigger] self.entries@[k]).arc().is_triple(
                    source@,
                    target@,
                    edge_type,
                ),
    {
        let mut i: usize = 0;
        while i < self.entries.len()
            invariant
                i <= self.entries.len(),
                forall|k: int|
                    0 <= k < i ==> !(#[trigger] self.entries@[k]).arc().is_triple(
                        source@,
                        target@,
                        edge_type,
                    ),
            decreases self.entries.len() - i,
        {
            let e = &self.entries[i];
            if str_eq(e.source.as_str(), source) && str_eq(e.target.as_str(), target)
                && e.edge_type == edge_type {
                return true;
            }
            i += 1;
        }
        false
    }

    /// The edges of the index as plain records, in order.
    pub fn to_edges(&self) -> (r: Vec<Edge>)
        ensures
            edge_views(r@) == entry_arcs(self.entries@),
    {
        let mut out: Vec<Edge> = Vec::new();
        let mut i: usize = 0;
        while i < self.entries.len()
            invariant
                i <= self.entries.len(),
                out@.len() == i,
                forall|k: int| 0 <= k < i ==> (#[trigger] out@[k])@ == self.entries@[k].arc(),
            decreases self.entries.len() - i,
        {
            let e = &self.entries[i];
            out.push(
                Edge {
                    schema_version: SCHEMA_VERSION,
                    source: e.source.clone(),
                    target: e.target.clone(),
                    edge_type: e.edge_type,
                    created_at: 0,
                },
            );
            i += 1;
        }
        assert(edge_views(out@) =~= entry_arcs(self.entries@));
        out
    }
}

/// An issue of the index: its identifier and the object that holds its
/// record.
#[derive(Debug, Clone)]
pub struct IssueEntry {
    pub id: String,
    pub oid: git2::Oid,
}

/// The issues of a snapshot, each with the object that holds it.
pub struct IssueIndex {
    pub entries: Vec<IssueEntry>,
}

/// The identifiers of the entries of an index, in order.
pub open spec fn entry_ids(v: Seq<IssueEntry>) -> Seq<Seq<char>> {
    v.map_values(|e: IssueEntry| e.id@)
}

impl IssueIndex {
    /// The identifiers of the index, in order.
    pub fn ids(&self) -> (r: Vec<String>)
        ensures
            views(r@) == entry_ids(self.entries@),
    {
        let mut out: Vec<String> = Vec::new();
        let mut i: usize = 0;
        while i < self.entries.len()
            invariant
                i <= self.entries.len(),
                out@.len() == i,
                forall|k: int| 0 <= k < i ==> (#[trigger] out@[k])@ == self.entries@[k].id@,
            decreases self.entries.len() - i,
        {
            out.push(self.entries[i].id.clone());
            i += 1;
        }
        assert(views(out@) =~= entry_ids(self.entries@));
        out
    }

    /// The one entry whose identifier begins with `prefix`: its identifier
    /// and its object. No such entry is `NotFound`; several are
    /// `AmbiguousId`, which carries their identifiers.
    pub fn find_unique(&self, prefix: &str) -> (r: Result<(String, git2::Oid), Error>)
        ensures
            ({
                let found = matches_of(entry_ids(self.entries@), prefix@);
                &&& found.len() == 0 ==> r is Err && r->Err_0@ == ErrorView::NotFound(prefix@)
                &&& found.len() > 1 ==> r is Err && r->Err_0@ == ErrorView::AmbiguousId(
                    prefix@,
                    found,
                )
                &&& found.len() == 1 ==> r is Ok && r->Ok_0.0@ == found[0] && exists|k: int|
                    0 <= k < self.entries@.len() && (#[trigger] self.entries@[k]).id@ == found[0]
                        && self.entries@[k].oid == r->Ok_0.1
            }),
    {
        let ids = self.ids();
        let mut found = matching_ids(&ids, prefix);
        if found.len() == 0 {
            return Err(Error::NotFound(owned(prefix)));
        }
        if found.len() > 1 {
            return Err(Error::AmbiguousId(owned(prefix), found));
        }
        let ghost hits = views(found@);
        let id = found.remove(0);
        proof {
            assert(id@ == hits[0]);
            lemma_match_is_present(entry_ids(self.entries@), prefix@, 0);
        }
        let mut i: usize = 0;
        while i < self.entries.len()
            invariant
                i <= self.entries.len(),
                forall|k: int| 0 <= k < i ==> (#[trigger] self.entries@[k]).id@ != id@,
                entry_ids(self.entries@).contains(id@),
                hits == matches_of(entry_ids(self.entries@), prefix@),
                hits.len() == 1,
                id@ == hits[0],
            decreases self.entries.len() - i,
        {
            if self.entries[i].id == id {
                let oid = self.entries[i].oid.clone();
                assert(self.entries@[i as int].id@ == hits[0]);
                return Ok((id, oid));
            }
            i += 1;
        }
        proof {
            let k = choose|k: int|
                0 <= k < entry_ids(self.entries@).len() && entry_ids(self.entries@)[k] == id@;
            assert(self.entries@[k].id@ == id@);
        }
        Err(Error::NotFound(owned(prefix)))
    }
}

} // verus!
