//! Closing an issue.

use vstd::prelude::*;
use crate::engine::{bumpable, mutate, mutated, mutation_result, Mutation, MutationView};
use crate::error::Error;
use crate::resolve::resolves_as;
use crate::snapshot::Store;
use crate::text::opt_view;

verus! {

/// Closes the issue that the prefix stands for and records the reason. An
/// issue that is closed already is refused.
pub fn run(
    store: &mut Store,
    id_prefix: &str,
    reason: Option<String>,
    now: i64,
    editor: String,
) -> (r: Result<String, Error>)
    requires
        bumpable(old(store)@, id_prefix@, MutationView::Close(opt_view(reason))),
    ensures
        resolves_as(
            r,
            mutation_result(
                old(store)@,
                id_prefix@,
                MutationView::Close(opt_view(reason)),
                now,
                editor@,
            ),
        ),
        final(store)@ == mutated(
            old(store)@,
            id_prefix@,
            MutationView::Close(opt_view(reason)),
            now,
            editor@,
        ),
{
    mutate(store, id_prefix, Mutation::Close(reason), now, editor)
}

} // verus!
