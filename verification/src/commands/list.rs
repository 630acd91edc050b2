//! Listing the issues of the current snapshot.

use vstd::prelude::*;
use crate::error::{Error, ErrorView};
use crate::query::{list, listing};
use crate::snapshot::{load_issues, Store, StoreView};
use crate::text::{lowercase_of, opt_view};
use crate::types::{
    issue_type_of_token, issue_views, parse_status, status_of_token, unknown_status_text, Issue,
    IssueType, IssueView, Status,
};

verus! {

/// What a status filter says: no filter, a status, or the error for a word
/// that names none.
pub open spec fn status_filter(s: Option<Seq<char>>) -> Result<Option<Status>, ErrorView> {
    match s {
        None => Ok(None),
        Some(t) => match status_of_token(lowercase_of(t)) {
            Some(st) => Ok(Some(st)),
            None => Err(ErrorView::InvalidPriority(unknown_status_text(t))),
        },
    }
}

/// What a type filter says: no filter, a type, or the error for a word
/// that names none.
pub open spec fn type_filter(s: Option<Seq<char>>) -> Result<Option<IssueType>, ErrorView> {
    match s {
        None => Ok(None),
        Some(t) => match issue_type_of_token(lowercase_of(t)) {
            Some(ty) => Ok(Some(ty)),
            None => Err(ErrorView::InvalidIssueType(t)),
        },
    }
}

/// What a listing gives: the issues, or the first error on the way. The
/// filters are read before the snapshot is.
pub open spec fn listed_result(
    store: StoreView,
    status: Option<Seq<char>>,
    issue_type: Option<Seq<char>>,
) -> Result<Seq<IssueView>, ErrorView> {
    match status_filter(status) {
        Err(e) => Err(e),
        Ok(s) => match type_filter(issue_type) {
            Err(e) => Err(e),
            Ok(t) => if !store.initialized() {
                Err(ErrorView::NotInitialized)
            } else {
                Ok(listing(store.tip().issues, s, t))
            },
        },
    }
}

/// Reads an optional status filter.
pub fn read_status_filter(status: &Option<String>) -> (r: Result<Option<Status>, Error>)
    ensures
        match status_filter(opt_view(*status)) {
            Ok(s) => r == Ok::<Option<Status>, Error>(s),
            Err(e) => r is Err && r->Err_0@ == e,
        },
{
    match status {
        None => Ok(None),
        Some(text) => match parse_status(text.as_str()) {
            Ok(s) => Ok(Some(s)),
            Err(e) => Err(e),
        },
    }
}

/// Reads an optional type filter.
pub fn read_type_filter(issue_type: &Option<String>) -> (r: Result<Option<IssueType>, Error>)
    ensures
        match type_filter(opt_view(*issue_type)) {
            Ok(t) => r == Ok::<Option<IssueType>, Error>(t),
            Err(e) => r is Err && r->Err_0@ == e,
        },
{
    match issue_type {
        None => Ok(None),
        Some(text) => match IssueType::from_str(text.as_str()) {
            Ok(t) => Ok(Some(t)),
            Err(e) => Err(e),
        },
    }
}

/// Lists the issues with the given status and type, where one is given, by
/// priority rank and then by creation time.
pub fn run(
    store: &Store,
    status: Option<String>,
    issue_type: Option<String>,
) -> (r: Result<Vec<Issue>, Error>)
    ensures
        match listed_result(store@, opt_view(status), opt_view(issue_type)) {
            Ok(rows) => r is Ok && issue_views(r->Ok_0@) == rows,
            Err(e) => r is Err && r->Err_0@ == e,
        },
{
    let status_filter = match read_status_filter(&status) {
        Err(e) => { return Err(e); },
        Ok(s) => s,
    };
    let type_filter = match read_type_filter(&issue_type) {
        Err(e) => { return Err(e); },
        Ok(t) => t,
    };
    let issues = match load_issues(store) {
        Err(e) => { return Err(e); },
        Ok(issues) => issues,
    };
    Ok(list(&issues, status_filter, type_filter))
}

} // verus!
