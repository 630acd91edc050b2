//! Updating the fields of an issue.

use vstd::prelude::*;
use crate::engine::{bumpable, mutate, mutated, mutation_result, Mutation, MutationView};
use crate::error::{Error, ErrorView};
use crate::commands::list::{read_type_filter, type_filter};
use crate::lifecycle::{Changes, ChangesView};
use crate::resolve::{resolution, resolves_as};
use crate::snapshot::{find_issue_id, ids_of, Store, StoreView};
use crate::text::{lowercase_of, opt_view, views};
use crate::types::{priority_of_token, Priority};

verus! {

/// What a new priority says: no change, a priority, or the error for a
/// word that names none.
pub open spec fn priority_change(s: Option<Seq<char>>) -> Result<Option<Priority>, ErrorView> {
    match s {
        None => Ok(None),
        Some(t) => match priority_of_token(lowercase_of(t)) {
            Some(p) => Ok(Some(p)),
            None => Err(ErrorView::InvalidPriority(t)),
        },
    }
}

/// What an update decides before it writes: the changes to make, or the
/// error that stops it. The prefix is resolved first, then the priority is
/// read, then the type.
pub open spec fn update_plan(
    store: StoreView,
    prefix: Seq<char>,
    title: Option<Seq<char>>,
    description: Option<Seq<char>>,
    priority: Option<Seq<char>>,
    issue_type: Option<Seq<char>>,
    labels: Option<Seq<Seq<char>>>,
) -> Result<ChangesView, ErrorView> {
    if !store.initialized() {
        Err(ErrorView::NotInitialized)
    } else {
        match resolution(ids_of(store.tip().issues), prefix) {
            Err(e) => Err(e),
            Ok(_) => match priority_change(priority) {
                Err(e) => Err(e),
                Ok(p) => match type_filter(issue_type) {
                    Err(e) => Err(e),
                    Ok(t) => Ok(
                        ChangesView { title, description, priority: p, issue_type: t, labels },
                    ),
                },
            },
        }
    }
}

/// The views of an optional list of labels.
pub open spec fn labels_view(l: Option<Vec<String>>) -> Option<Seq<Seq<char>>> {
    match l {
        Some(v) => Some(views(v@)),
        None => None,
    }
}

/// Reads an optional new priority.
pub fn read_priority(priority: &Option<String>) -> (r: Result<Option<Priority>, Error>)
    ensures
        match priority_change(opt_view(*priority)) {
            Ok(p) => r == Ok::<Option<Priority>, Error>(p),
            Err(e) => r is Err && r->Err_0@ == e,
        },
{
    match priority {
        None => Ok(None),
        Some(text) => match Priority::from_str(text.as_str()) {
            Ok(p) => Ok(Some(p)),
            Err(e) => Err(e),
        },
    }
}

/// Updates the issue that the prefix stands for: sets the fields that are
/// given, stamps the issue once and commits. A priority or a type that
/// names none stops the update before anything is written.
pub fn run(
    store: &mut Store,
    id_prefix: &str,
    title: Option<String>,
    description: Option<String>,
    priority: Option<String>,
    issue_type: Option<String>,
    labels: Option<Vec<String>>,
    now: i64,
    editor: String,
) -> (r: Result<String, Error>)
    requires
        bumpable(
            old(store)@,
            id_prefix@,
            MutationView::Update(
                ChangesView {
                    title: None,
                    description: None,
                    priority: None,
                    issue_type: None,
                    labels: None,
                },
            ),
        ),
    ensures
        match update_plan(
            old(store)@,
            id_prefix@,
            opt_view(title),
            opt_view(description),
            opt_view(priority),
            opt_view(issue_type),
            labels_view(labels),
        ) {
            Err(e) => r is Err && r->Err_0@ == e && final(store)@ == old(store)@,
            Ok(changes) => resolves_as(
                r,
                mutation_result(
                    old(store)@,
                    id_prefix@,
                    MutationView::Update(changes),
                    now,
                    editor@,
                ),
            ) && final(store)@ == mutated(
                old(store)@,
                id_prefix@,
                MutationView::Update(changes),
                now,
                editor@,
            ),
        },
{
    match find_issue_id(store, id_prefix) {
        Err(e) => { return Err(e); },
        Ok(_) => {},
    }
    let new_priority = match read_priority(&priority) {
        Err(e) => { return Err(e); },
        Ok(p) => p,
    };
    let new_type = match read_type_filter(&issue_type) {
        Err(e) => { return Err(e); },
        Ok(t) => t,
    };
    let changes = Changes {
        title,
        description,
        priority: new_priority,
        issue_type: new_type,
        labels,
    };
    mutate(store, id_prefix, Mutation::Update(changes), now, editor)
}

} // verus!
