//! Releasing a claimed issue back to open.

use vstd::prelude::*;
use crate::engine::{bumpable, mutate, mutated, mutation_result, Mutation, MutationView};
use crate::error::Error;
use crate::resolve::resolves_as;
use crate::snapshot::Store;
use crate::text::opt_view;

verus! {

/// Releases the issue that the prefix stands for: it becomes open and
/// unclaimed, and the reason is recorded. An issue that is not claimed is
/// refused.
pub fn run(
    store: &mut Store,
    id_prefix: &str,
    reason: Option<String>,
    now: i64,
    editor: String,
) -> (r: Result<String, Error>)
    requires
        bumpable(old(store)@, id_prefix@, MutationView::Release(opt_view(reason))),
    ensures
        resolves_as(
            r,
            mutation_result(
                old(store)@,
                id_prefix@,
                MutationView::Release(opt_view(reason)),
                now,
                editor@,
            ),
        ),
        final(store)@ == mutated(
            old(store)@,
            id_prefix@,
            MutationView::Release(opt_view(reason)),
            now,
            editor@,
        ),
{
    mutate(store, id_prefix, Mutation::Release(reason), now, editor)
}

} // verus!
