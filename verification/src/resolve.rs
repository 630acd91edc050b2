//! Identifier prefix resolution: a prefix stands for an identifier when
//! exactly one present identifier begins with it.

use vstd::prelude::*;
use crate::error::{Error, ErrorView};
use crate::seqs::{lemma_filter_next, lemma_filter_none, lemma_subrange_all};
use crate::text::{owned, starts_with, views};

verus! {

/// The identifiers that begin with `prefix`, in their order.
pub open spec fn matches_of(ids: Seq<Seq<char>>, prefix: Seq<char>) -> Seq<Seq<char>> {
    ids.filter(|id: Seq<char>| prefix.is_prefix_of(id))
}

/// What a prefix resolves to among the given identifiers: the one
/// identifier that begins with it, or the reason why there is none.
pub open spec fn resolution(
    ids: Seq<Seq<char>>,
    prefix: Seq<char>,
) -> Result<Seq<char>, ErrorView> {
    let found = matches_of(ids, prefix);
    if found.len() == 0 {
        Err(ErrorView::NotFound(prefix))
    } else if found.len() == 1 {
        Ok(found[0])
    } else {
        Err(ErrorView::AmbiguousId(prefix, found))
    }
}

/// True when the result `r` of a resolution says what `expected` says.
pub open spec fn resolves_as(
    r: Result<String, Error>,
    expected: Result<Seq<char>, ErrorView>,
) -> bool {
    match r {
        Ok(id) => expected == Ok::<Seq<char>, ErrorView>(id@),
        Err(e) => expected == Err::<Seq<char>, ErrorView>(e@),
    }
}

/// An identifier that a prefix matches is one of the identifiers given, and
/// begins with the prefix.
pub proof fn lemma_match_is_present(ids: Seq<Seq<char>>, prefix: Seq<char>, k: int)
    requires
        0 <= k < matches_of(ids, prefix).len(),
    ensures
        ids.contains(matches_of(ids, prefix)[k]),
        prefix.is_prefix_of(matches_of(ids, prefix)[k]),
{
    let pred = |id: Seq<char>| prefix.is_prefix_of(id);
    let found = ids.filter(pred);
    assert(found.contains(found[k]));
    ids.lemma_filter_contains_rev(pred, found[k]);
    ids.lemma_filter_pred(pred, k);
}

/// The identifiers that begin with `prefix`, in their order.
pub fn matching_ids(ids: &Vec<String>, prefix: &str) -> (r: Vec<String>)
    ensures
        views(r@) == matches_of(views(ids@), prefix@),
{
    let ghost s = views(ids@);
    let ghost pred = |id: Seq<char>| prefix@.is_prefix_of(id);
    let mut out: Vec<String> = Vec::new();
    let mut i: usize = 0;
    proof {
        lemma_filter_none(s, pred);
        assert(views(out@) =~= Seq::<Seq<char>>::empty());
    }
    while i < ids.len()
        invariant
            i <= ids.len(),
            s == views(ids@),
            pred == |id: Seq<char>| prefix@.is_prefix_of(id),
            views(out@) == s.subrange(0, i as int).filter(pred),
        decreases ids.len() - i,
    {
        let ghost before = views(out@);
        proof {
            lemma_filter_next(s, i as int, pred);
            assert(s[i as int] == ids@[i as int]@);
        }
        if starts_with(ids[i].as_str(), prefix) {
            out.push(ids[i].clone());
            assert(views(out@) =~= before.push(ids@[i as int]@));
        }
        i += 1;
    }
    proof {
        lemma_subrange_all(s);
    }
    out
}

/// Resolves a prefix among the given identifiers. No match is `NotFound`;
/// several are `AmbiguousId`, which carries them all.
pub fn resolve_prefix(ids: &Vec<String>, prefix: &str) -> (r: Result<String, Error>)
    ensures
        resolves_as(r, resolution(views(ids@), prefix@)),
{
    let mut found = matching_ids(ids, prefix);
    let ghost f = views(found@);
    if found.len() == 0 {
        Err(Error::NotFound(owned(prefix)))
    } else if found.len() == 1 {
        let id = found.remove(0);
        assert(id@ == f[0]);
        Ok(id)
    } else {
        Err(Error::AmbiguousId(owned(prefix), found))
    }
}

} // verus!
