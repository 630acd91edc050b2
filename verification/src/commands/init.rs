//! Initializing the engine in a repository.

use vstd::prelude::*;
use crate::error::{Error, ErrorView};
use crate::snapshot::{empty_snapshot, init, init_message, Store};

verus! {

/// Initializes the engine: one parentless commit with an empty snapshot.
/// Fails where the engine is initialized already.
pub fn run(store: &mut Store) -> (r: Result<(), Error>)
    ensures
        old(store)@.initialized() ==> r is Err && r->Err_0@ == ErrorView::AlreadyInitialized
            && final(store)@ == old(store)@,
        !old(store)@.initialized() ==> r is Ok && final(store)@ == old(store)@.committed(
            init_message(),
            empty_snapshot(),
        ),
{
    init(store)
}

} // verus!
