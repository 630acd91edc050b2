//! Claiming an issue to work on.

use vstd::prelude::*;
use crate::engine::{bumpable, mutate, mutated, mutation_result, Mutation, MutationView};
use crate::error::Error;
use crate::resolve::resolves_as;
use crate::snapshot::Store;
use crate::text::opt_view;

verus! {

/// Claims the issue that the prefix stands for: it becomes claimed and in
/// progress, with the context and the time of the claim. The identifier of
/// the issue comes back. A claimed or closed issue is refused.
pub fn run(
    store: &mut Store,
    id_prefix: &str,
    context: Option<String>,
    now: i64,
    editor: String,
) -> (r: Result<String, Error>)
    requires
        bumpable(old(store)@, id_prefix@, MutationView::Claim(opt_view(context))),
    ensures
        resolves_as(
            r,
            mutation_result(
                old(store)@,
                id_prefix@,
                MutationView::Claim(opt_view(context)),
                now,
                editor@,
            ),
        ),
        final(store)@ == mutated(
            old(store)@,
            id_prefix@,
            MutationView::Claim(opt_view(context)),
            now,
            editor@,
        ),
{
    mutate(store, id_prefix, Mutation::Claim(context), now, editor)
}

} // verus!
