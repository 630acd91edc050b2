//! The mutations of an issue as operations of the engine: resolve the
//! prefix, change the issue, commit once.

use vstd::prelude::*;
use crate::dag::Node;
use crate::error::{Error, ErrorView};
use crate::lifecycle::{
    after_claim,
    after_close,
    after_release,
    after_reopen,
    after_update,
    Changes,
    ChangesView,
};
use crate::merge_laws::lemma_lookup_with_issue;
use crate::resolve::{lemma_match_is_present, resolution, resolves_as};
use crate::snapshot::{
    ids_of,
    issue_pos,
    lemma_issue_pos,
    load_issue,
    lookup,
    save_issue,
    with_issue,
    SnapshotView,
    Store,
    StoreView,
};
use crate::text::{join2, opt_view};
use crate::types::{IssueView, Status};

verus! {

/// One of the five mutations of an issue.
pub enum Mutation {
    Claim(Option<String>),
    Release(Option<String>),
    Close(Option<String>),
    Reopen(Option<String>),
    Update(Changes),
}

/// A mutation as a mathematical value.
pub enum MutationView {
    Claim(Option<Seq<char>>),
    Release(Option<Seq<char>>),
    Close(Option<Seq<char>>),
    Reopen(Option<Seq<char>>),
    Update(ChangesView),
}

impl View for Mutation {
    type V = MutationView;

    open spec fn view(&self) -> MutationView {
        match *self {
            Mutation::Claim(c) => MutationView::Claim(opt_view(c)),
            Mutation::Release(r) => MutationView::Release(opt_view(r)),
            Mutation::Close(r) => MutationView::Close(opt_view(r)),
            Mutation::Reopen(r) => MutationView::Reopen(opt_view(r)),
            Mutation::Update(c) => MutationView::Update(c@),
        }
    }
}

/// What a mutation makes of an issue: the issue after it, or why it is
/// refused.
pub open spec fn outcome(x: IssueView, m: MutationView, now: i64, editor: Seq<char>) -> Result<
    IssueView,
    ErrorView,
> {
    match m {
        MutationView::Claim(context) => if x.claimed {
            Err(ErrorView::AlreadyClaimed(x.id))
        } else if x.status == Status::Closed {
            Err(ErrorView::IsClosed(x.id))
        } else {
            Ok(after_claim(x, context, now, editor))
        },
        MutationView::Release(reason) => if !x.claimed {
            Err(ErrorView::NotClaimed(x.id))
        } else {
            Ok(after_release(x, reason, now, editor))
        },
        MutationView::Close(reason) => if x.status == Status::Closed {
            Err(ErrorView::AlreadyClosed(x.id))
        } else {
            Ok(after_close(x, reason, now, editor))
        },
        MutationView::Reopen(reason) => if x.status != Status::Closed {
            Err(ErrorView::NotClosed(x.id))
        } else {
            Ok(after_reopen(x, reason, now, editor))
        },
        MutationView::Update(changes) => Ok(after_update(x, changes, now, editor)),
    }
}

/// The first words of the commit message of a mutation.
pub open spec fn verb(m: MutationView) -> Seq<char> {
    match m {
        MutationView::Claim(_) => "Claim issue "@,
        MutationView::Release(_) => "Release issue "@,
        MutationView::Close(_) => "Close issue "@,
        MutationView::Reopen(_) => "Reopen issue "@,
        MutationView::Update(_) => "Update issue "@,
    }
}

/// What a mutation returns: the identifier of the issue it changed, or why
/// it did nothing.
pub open spec fn mutation_result(
    store: StoreView,
    prefix: Seq<char>,
    m: MutationView,
    now: i64,
    editor: Seq<char>,
) -> Result<Seq<char>, ErrorView> {
    if !store.initialized() {
        Err(ErrorView::NotInitialized)
    } else {
        match resolution(ids_of(store.tip().issues), prefix) {
            Err(e) => Err(e),
            Ok(id) => match outcome(store.tip().issue(id)->Some_0, m, now, editor) {
                Err(e) => Err(e),
                Ok(_) => Ok(id),
            },
        }
    }
}

/// The store after a mutation: one more commit where the mutation is done,
/// and the store as it was where it is refused.
pub open spec fn mutated(
    store: StoreView,
    prefix: Seq<char>,
    m: MutationView,
    now: i64,
    editor: Seq<char>,
) -> StoreView {
    match mutation_result(store, prefix, m, now, editor) {
        Err(_) => store,
        Ok(id) => store.committed(
            verb(m) + id,
            SnapshotView {
                issues: with_issue(
                    store.tip().issues,
                    outcome(store.tip().issue(id)->Some_0, m, now, editor)->Ok_0,
                ),
                edges: store.tip().edges,
            },
        ),
    }
}

/// True when the state of the issue lets the mutation through, whatever
/// the time and the editor.
pub open spec fn lets_through(x: IssueView, m: MutationView) -> bool {
    outcome(x, m, 0, Seq::<char>::empty()) is Ok
}

/// True when the mutation can be carried out without the clock of its issue
/// running over: where the prefix resolves to an issue whose state lets the
/// mutation through, the `lamport` of that issue is not yet the greatest
/// number.
pub open spec fn bumpable(store: StoreView, prefix: Seq<char>, m: MutationView) -> bool {
    store.initialized() ==> match resolution(ids_of(store.tip().issues), prefix) {
        Err(_) => true,
        Ok(id) => lets_through(store.tip().issue(id)->Some_0, m) ==> store.tip().issue(
            id,
        )->Some_0.lamport < u64::MAX,
    }
}

/// The first words of the commit message of a mutation.
fn verb_text(m: &Mutation) -> (r: &'static str)
    ensures
        r@ == verb(m@),
{
    match m {
        Mutation::Claim(_) => "Claim issue ",
        Mutation::Release(_) => "Release issue ",
        Mutation::Close(_) => "Close issue ",
        Mutation::Reopen(_) => "Reopen issue ",
        Mutation::Update(_) => "Update issue ",
    }
}

/// True when `mutate` can be called: the mutation would not run the clock
/// of its issue over.
pub fn can_mutate(store: &Store, id_prefix: &str, m: &Mutation) -> (r: bool)
    ensures
        r == bumpable(store@, id_prefix@, m@),
{
    let issue = match load_issue(store, id_prefix) {
        Err(_) => { return true; },
        Ok(issue) => issue,
    };
    let through = match m {
        Mutation::Claim(_) => !issue.claimed && issue.status != Status::Closed,
        Mutation::Release(_) => issue.claimed,
        Mutation::Close(_) => issue.status != Status::Closed,
        Mutation::Reopen(_) => issue.status == Status::Closed,
        Mutation::Update(_) => true,
    };
    !through || issue.lamport < u64::MAX
}

/// Carries out one mutation: resolves the prefix, changes the issue and
/// writes one commit. Where the prefix does not resolve or the issue is in
/// the wrong state, nothing is written.
pub fn mutate(
    store: &mut Store,
    id_prefix: &str,
    m: Mutation,
    now: i64,
    editor: String,
) -> (r: Result<String, Error>)
    requires
        bumpable(old(store)@, id_prefix@, m@),
    ensures
        resolves_as(r, mutation_result(old(store)@, id_prefix@, m@, now, editor@)),
        final(store)@ == mutated(old(store)@, id_prefix@, m@, now, editor@),
{
    let mut issue = match load_issue(store, id_prefix) {
        Err(e) => { return Err(e); },
        Ok(issue) => issue,
    };
    let words = verb_text(&m);
    let done = match m {
        Mutation::Claim(context) => issue.claim(context, now, editor),
        Mutation::Release(reason) => issue.release(reason, now, editor),
        Mutation::Close(reason) => issue.close(reason, now, editor),
        Mutation::Reopen(reason) => issue.reopen(reason, now, editor),
        Mutation::Update(changes) => {
            issue.update(changes, now, editor);
            Ok(())
        },
    };
    match done {
        Err(e) => Err(e),
        Ok(()) => {
            let message = join2(words, issue.id.as_str());
            let id = issue.id.clone();
            match save_issue(store, &issue, message.as_str()) {
                Err(e) => Err(e),
                Ok(()) => Ok(id),
            }
        },
    }
}

/// The logical clock of an identifier never falls in a mutation: every
/// issue is still there afterwards, with a `lamport` that is no smaller.
pub proof fn lemma_mutation_lamport_rises(
    store: StoreView,
    prefix: Seq<char>,
    m: MutationView,
    now: i64,
    editor: Seq<char>,
    id: Node,
)
    requires
        store.initialized(),
        bumpable(store, prefix, m),
        store.tip().issue(id) is Some,
    ensures
        mutated(store, prefix, m, now, editor).tip().issue(id) is Some,
        mutated(store, prefix, m, now, editor).tip().issue(id)->Some_0.lamport >= store.tip().issue(
            id,
        )->Some_0.lamport,
{
    let s = store.tip().issues;
    match mutation_result(store, prefix, m, now, editor) {
        Err(_) => {},
        Ok(target) => {
            lemma_match_is_present(ids_of(s), prefix, 0);
            let k = choose|k: int| 0 <= k < ids_of(s).len() && ids_of(s)[k] == target;
            assert(s[k].id == target);
            lemma_issue_pos(s, target);
            let x = lookup(s, target)->Some_0;
            assert(x == s[issue_pos(s, target)]);
            let y = outcome(x, m, now, editor)->Ok_0;
            assert(y.id == x.id);
            lemma_lookup_with_issue(s, y, id);
        },
    }
}

/// A mutation changes the issue that its prefix stands for and no other:
/// every other identifier finds afterwards what it found before, and the
/// edges stay as they are.
pub proof fn lemma_mutation_leaves_others(
    store: StoreView,
    prefix: Seq<char>,
    m: MutationView,
    now: i64,
    editor: Seq<char>,
    other: Node,
)
    requires
        store.initialized(),
        mutation_result(store, prefix, m, now, editor) is Ok,
        other != mutation_result(store, prefix, m, now, editor)->Ok_0,
    ensures
        mutated(store, prefix, m, now, editor).tip().issue(other) == store.tip().issue(other),
        mutated(store, prefix, m, now, editor).tip().edges == store.tip().edges,
        mutated(store, prefix, m, now, editor).history.len() == store.history.len() + 1,
{
    let s = store.tip().issues;
    let target = mutation_result(store, prefix, m, now, editor)->Ok_0;
    lemma_match_is_present(ids_of(s), prefix, 0);
    let k = choose|k: int| 0 <= k < ids_of(s).len() && ids_of(s)[k] == target;
    assert(s[k].id == target);
    lemma_issue_pos(s, target);
    let x = lookup(s, target)->Some_0;
    let y = outcome(x, m, now, editor)->Ok_0;
    assert(y.id == target);
    lemma_lookup_with_issue(s, y, other);
}

} // verus!
