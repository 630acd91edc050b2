//! Creating an issue.

use vstd::prelude::*;
use vstd::string::StringExecFns;
use crate::commands::list::{read_type_filter, type_filter};
use crate::commands::update::{priority_change, read_priority};
use crate::error::{Error, ErrorView};
use crate::id::{first_free, generate_id, try_generate_id, well_shaped};
use crate::lifecycle::created;
use crate::snapshot::{
    get_existing_ids, ids_of, is_initialized, lemma_issue_pos, save_issue, SnapshotView, Store,
    StoreView,
};
use crate::text::{opt_view, owned, views};
use crate::types::{Issue, IssueType, IssueView, Priority};

verus! {

/// The description of a new issue: the one given, or none.
pub open spec fn description_or_empty(d: Option<Seq<char>>) -> Seq<char> {
    match d {
        Some(t) => t,
        None => Seq::<char>::empty(),
    }
}

/// The priority of a new issue: the one given, or medium.
pub open spec fn priority_or_default(p: Option<Priority>) -> Priority {
    match p {
        Some(v) => v,
        None => Priority::Medium,
    }
}

/// The type of a new issue: the one given, or task.
pub open spec fn type_or_default(t: Option<IssueType>) -> IssueType {
    match t {
        Some(v) => v,
        None => IssueType::Task,
    }
}

/// The identifier that a new issue gets in a store, if an attempt is free.
pub open spec fn fresh_id(
    store: StoreView,
    title: Seq<char>,
    description: Option<Seq<char>>,
    now: i64,
    editor: Seq<char>,
) -> Option<Seq<char>> {
    first_free(
        title,
        description_or_empty(description),
        editor,
        now,
        ids_of(store.tip().issues),
        4,
    )
}

/// What `create` decides before it writes: the issue to write, or the error
/// that stops it.
pub open spec fn create_plan(
    store: StoreView,
    title: Seq<char>,
    description: Option<Seq<char>>,
    priority: Option<Seq<char>>,
    issue_type: Option<Seq<char>>,
    labels: Seq<Seq<char>>,
    now: i64,
    editor: Seq<char>,
) -> Result<IssueView, ErrorView> {
    if !store.initialized() {
        Err(ErrorView::NotInitialized)
    } else {
        match priority_change(priority) {
            Err(e) => Err(e),
            Ok(p) => match type_filter(issue_type) {
                Err(e) => Err(e),
                Ok(t) => Ok(
                    created(
                        fresh_id(store, title, description, now, editor)->Some_0,
                        title,
                        description_or_empty(description),
                        priority_or_default(p),
                        type_or_default(t),
                        labels,
                        now,
                        editor,
                    ),
                ),
            },
        }
    }
}

/// The message of the commit that creates an issue.
pub open spec fn create_message(id: Seq<char>) -> Seq<char> {
    "Create issue "@ + id
}

/// Creates an issue: open, unclaimed, with its clock at 1, under a new
/// identifier that is derived from its content. The priority is medium and
/// the type is task where none is given. The identifier comes back. The
/// caller has seen to it that an identifier is free.
pub fn run(
    store: &mut Store,
    title: String,
    description: Option<String>,
    priority: Option<String>,
    issue_type: Option<String>,
    labels: Vec<String>,
    now: i64,
    editor: String,
) -> (r: Result<String, Error>)
    requires
        old(store)@.initialized() ==> fresh_id(
            old(store)@,
            title@,
            opt_view(description),
            now,
            editor@,
        ) is Some,
    ensures
        match create_plan(
            old(store)@,
            title@,
            opt_view(description),
            opt_view(priority),
            opt_view(issue_type),
            views(labels@),
            now,
            editor@,
        ) {
            Err(e) => r is Err && r->Err_0@ == e && final(store)@ == old(store)@,
            Ok(issue) => r is Ok && r->Ok_0@ == issue.id && well_shaped(issue.id) && final(store)@
                == old(store)@.committed(
                create_message(issue.id),
                SnapshotView {
                    issues: old(store)@.tip().issues.push(issue),
                    edges: old(store)@.tip().edges,
                },
            ),
        },
{
    if !is_initialized(store) {
        return Err(Error::NotInitialized);
    }
    let existing = match get_existing_ids(store) {
        Err(e) => { return Err(e); },
        Ok(ids) => ids,
    };
    let text = match description {
        Some(d) => d,
        None => String::new(),
    };
    let id = generate_id(title.as_str(), text.as_str(), editor.as_str(), now, &existing);
    let new_priority = match read_priority(&priority) {
        Err(e) => { return Err(e); },
        Ok(Some(p)) => p,
        Ok(None) => Priority::Medium,
    };
    let new_type = match read_type_filter(&issue_type) {
        Err(e) => { return Err(e); },
        Ok(Some(t)) => t,
        Ok(None) => IssueType::Task,
    };
    let issue = Issue::create(id.clone(), title, text, new_priority, new_type, labels, now, editor);
    let mut message = owned("Create issue ");
    message.append(id.as_str());
    proof {
        let s = store@.tip().issues;
        lemma_issue_pos(s, id@);
        if crate::snapshot::has_issue(s, id@) {
            let k = choose|k: int| 0 <= k < s.len() && (#[trigger] s[k]).id == id@;
            assert(ids_of(s)[k] == id@);
        }
    }
    match save_issue(store, &issue, message.as_str()) {
        Err(e) => Err(e),
        Ok(()) => Ok(id),
    }
}

/// Creates an issue where an identifier is free, and says `None` where the
/// attempts of all lengths collide with identifiers of the snapshot.
pub fn try_run(
    store: &mut Store,
    title: String,
    description: Option<String>,
    priority: Option<String>,
    issue_type: Option<String>,
    labels: Vec<String>,
    now: i64,
    editor: String,
) -> (r: Result<Option<String>, Error>)
    ensures
        old(store)@.initialized() && fresh_id(
            old(store)@,
            title@,
            opt_view(description),
            now,
            editor@,
        ) is None ==> r is Ok && r->Ok_0 is None && final(store)@ == old(store)@,
        !(old(store)@.initialized() && fresh_id(
            old(store)@,
            title@,
            opt_view(description),
            now,
            editor@,
        ) is None) ==> match create_plan(
            old(store)@,
            title@,
            opt_view(description),
            opt_view(priority),
            opt_view(issue_type),
            views(labels@),
            now,
            editor@,
        ) {
            Err(e) => r is Err && r->Err_0@ == e && final(store)@ == old(store)@,
            Ok(issue) => r is Ok && r->Ok_0 is Some && r->Ok_0->Some_0@ == issue.id
                && final(store)@ == old(store)@.committed(
                create_message(issue.id),
                SnapshotView {
                    issues: old(store)@.tip().issues.push(issue),
                    edges: old(store)@.tip().edges,
                },
            ),
        },
{
    if is_initialized(store) {
        let existing = match get_existing_ids(store) {
            Err(e) => { return Err(e); },
            Ok(ids) => ids,
        };
        let empty = String::new();
        let text: &str = match &description {
            Some(d) => d.as_str(),
            None => empty.as_str(),
        };
        assert(text@ == description_or_empty(opt_view(description)));
        let probe = try_generate_id(title.as_str(), text, editor.as_str(), now, &existing);
        if probe.is_none() {
            return Ok(None);
        }
    }
    match run(store, title, description, priority, issue_type, labels, now, editor) {
        Err(e) => Err(e),
        Ok(id) => Ok(Some(id)),
    }
}

} // verus!
