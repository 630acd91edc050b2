//! The error type of the engine.

use vstd::prelude::*;
use vstd::string::StringExecFns;
use crate::text::{decimal, decimal_text, join2, owned, views};

verus! {

/// Everything that an engine operation can fail with.
#[derive(Debug)]
pub enum Error {
    /// The host source-control library failed; the text is its message.
    Git(String),
    /// A file operation failed; the text is the system's message.
    Io(String),
    /// A record or document is not well-formed; the text says where.
    Json(String),
    /// A record carries another schema version than the engine's.
    SchemaMismatch { expected: u32, found: u32 },
    /// The host has no configured identity.
    NoIdentity(String),
    /// An identifier prefix matches nothing.
    NotFound(String),
    /// An identifier prefix matches several identifiers.
    AmbiguousId(String, Vec<String>),
    /// The snapshot reference is absent.
    NotInitialized,
    /// The snapshot reference exists already.
    AlreadyInitialized,
    /// The snapshot tree lacks a required subtree or entry.
    CorruptedSnapshot(String),
    AlreadyClaimed(String),
    NotClaimed(String),
    IsClosed(String),
    AlreadyClosed(String),
    NotClosed(String),
    InvalidPriority(String),
    InvalidIssueType(String),
    InvalidEdgeType(String),
    /// No target was given where an edge needs one.
    NoEdgeTarget,
    /// The two endpoints of an edge are the same issue.
    SelfReference(String),
    /// The edge is present already.
    DuplicateEdge(String, String),
    /// The edge would close a cycle of directed edges.
    WouldCreateCycle(String, String),
    /// A remote snapshot lacks the expected structure.
    InvalidSnapshot,
    /// The snapshot lock could not be taken.
    LockFailed(String),
}

/// What an error says, with every string taken by its characters.
pub enum ErrorView {
    Git(Seq<char>),
    Io(Seq<char>),
    Json(Seq<char>),
    SchemaMismatch { expected: u32, found: u32 },
    NoIdentity(Seq<char>),
    NotFound(Seq<char>),
    AmbiguousId(Seq<char>, Seq<Seq<char>>),
    NotInitialized,
    AlreadyInitialized,
    CorruptedSnapshot(Seq<char>),
    AlreadyClaimed(Seq<char>),
    NotClaimed(Seq<char>),
    IsClosed(Seq<char>),
    AlreadyClosed(Seq<char>),
    NotClosed(Seq<char>),
    InvalidPriority(Seq<char>),
    InvalidIssueType(Seq<char>),
    InvalidEdgeType(Seq<char>),
    NoEdgeTarget,
    SelfReference(Seq<char>),
    DuplicateEdge(Seq<char>, Seq<char>),
    WouldCreateCycle(Seq<char>, Seq<char>),
    InvalidSnapshot,
    LockFailed(Seq<char>),
}

impl View for Error {
    type V = ErrorView;

    open spec fn view(&self) -> ErrorView {
        match *self {
            Error::Git(s) => ErrorView::Git(s@),
            Error::Io(s) => ErrorView::Io(s@),
            Error::Json(s) => ErrorView::Json(s@),
            Error::SchemaMismatch { expected, found } => ErrorView::SchemaMismatch {
                expected,
                found,
            },
            Error::NoIdentity(s) => ErrorView::NoIdentity(s@),
            Error::NotFound(s) => ErrorView::NotFound(s@),
            Error::AmbiguousId(s, c) => ErrorView::AmbiguousId(s@, views(c@)),
            Error::NotInitialized => ErrorView::NotInitialized,
            Error::AlreadyInitialized => ErrorView::AlreadyInitialized,
            Error::CorruptedSnapshot(s) => ErrorView::CorruptedSnapshot(s@),
            Error::AlreadyClaimed(s) => ErrorView::AlreadyClaimed(s@),
            Error::NotClaimed(s) => ErrorView::NotClaimed(s@),
            Error::IsClosed(s) => ErrorView::IsClosed(s@),
            Error::AlreadyClosed(s) => ErrorView::AlreadyClosed(s@),
            Error::NotClosed(s) => ErrorView::NotClosed(s@),
            Error::InvalidPriority(s) => ErrorView::InvalidPriority(s@),
            Error::InvalidIssueType(s) => ErrorView::InvalidIssueType(s@),
            Error::InvalidEdgeType(s) => ErrorView::InvalidEdgeType(s@),
            Error::NoEdgeTarget => ErrorView::NoEdgeTarget,
            Error::SelfReference(s) => ErrorView::SelfReference(s@),
            Error::DuplicateEdge(s, t) => ErrorView::DuplicateEdge(s@, t@),
            Error::WouldCreateCycle(s, t) => ErrorView::WouldCreateCycle(s@, t@),
            Error::InvalidSnapshot => ErrorView::InvalidSnapshot,
            Error::LockFailed(s) => ErrorView::LockFailed(s@),
        }
    }
}

/// A list of strings as `Debug` formats it: in square brackets, each string
/// in double quotes with its special characters escaped.
pub uninterp spec fn debug_list_of(list: Seq<Seq<char>>) -> Seq<char>;

/// Formats a list of strings with `{:?}`. The result is known only by its
/// name, `debug_list_of`: the escaping rules of `Debug` are not restated
/// here.
#[verifier::external_body]
fn debug_list(list: &Vec<String>) -> (r: String)
    ensures
        r@ == debug_list_of(views(list@)),
{
    format!("{:?}", list)
}

/// The diagnostic line for a prefix that matches several identifiers, given
/// the formatted list of the matches.
pub open spec fn ambiguous_line(prefix: Seq<char>, listed: Seq<char>) -> Seq<char> {
    "Ambiguous ID '"@ + prefix + "': matches "@ + listed
}

/// The diagnostic line for a record of the wrong schema version.
pub open spec fn mismatch_line(expected: u32, found: u32) -> Seq<char> {
    "Schema mismatch: expected "@ + decimal(expected as nat) + ", found "@ + decimal(found as nat)
}

/// The diagnostic line of an error.
pub open spec fn message_of(e: ErrorView) -> Seq<char> {
    match e {
        ErrorView::Git(s) => "Git error: "@ + s,
        ErrorView::Io(s) => "IO error: "@ + s,
        ErrorView::Json(s) => "JSON error: "@ + s,
        ErrorView::SchemaMismatch { expected, found } => mismatch_line(expected, found),
        ErrorView::NoIdentity(s) => "No identity: "@ + s,
        ErrorView::NotFound(s) => "Issue not found: "@ + s,
        ErrorView::AmbiguousId(s, c) => ambiguous_line(s, debug_list_of(c)),
        ErrorView::NotInitialized => "Sterna not initialized. Run 'st init' first."@,
        ErrorView::AlreadyInitialized => "Sterna is already initialized"@,
        ErrorView::CorruptedSnapshot(s) => "Corrupted snapshot: "@ + s,
        ErrorView::AlreadyClaimed(s) => "Issue "@ + s + " is already claimed"@,
        ErrorView::NotClaimed(s) => "Issue "@ + s + " is not claimed"@,
        ErrorView::IsClosed(s) => "Issue "@ + s + " is closed"@,
        ErrorView::AlreadyClosed(s) => "Issue "@ + s + " is already closed"@,
        ErrorView::NotClosed(s) => "Issue "@ + s + " is not closed"@,
        ErrorView::InvalidPriority(s) => "Invalid priority: "@ + s,
        ErrorView::InvalidIssueType(s) => "Invalid issue type: "@ + s,
        ErrorView::InvalidEdgeType(s) => "Invalid edge type: "@ + s,
        ErrorView::NoEdgeTarget =>
            "Must specify one of: --needs, --blocks, --relates-to, --parent, --duplicates"@,
        ErrorView::SelfReference(s) => "Cannot create edge to self: "@ + s,
        ErrorView::DuplicateEdge(s, t) => "Edge already exists: "@ + s + " -> "@ + t,
        ErrorView::WouldCreateCycle(s, t) => "Would create cycle: "@ + s + " -> "@ + t,
        ErrorView::InvalidSnapshot => "Invalid snapshot format"@,
        ErrorView::LockFailed(s) => "Failed to acquire lock: "@ + s,
    }
}

/// The diagnostic line for a prefix that matches several identifiers, given
/// the formatted list of the matches.
pub fn ambiguous_text(prefix: &str, listed: &str) -> (r: String)
    ensures
        r@ == ambiguous_line(prefix@, listed@),
{
    let mut out = owned("Ambiguous ID '");
    out.append(prefix);
    out.append("': matches ");
    out.append(listed);
    out
}

/// The diagnostic line for a record of the wrong schema version.
pub fn mismatch_text(expected: u32, found: u32) -> (r: String)
    ensures
        r@ == mismatch_line(expected, found),
{
    let mut out = owned("Schema mismatch: expected ");
    let a = decimal_text(expected as u64);
    out.append(a.as_str());
    out.append(", found ");
    let b = decimal_text(found as u64);
    out.append(b.as_str());
    out
}

/// Three pieces of text, one after the other.
fn join3(a: &str, b: &str, c: &str) -> (r: String)
    ensures
        r@ == a@ + b@ + c@,
{
    let mut out = owned(a);
    out.append(b);
    out.append(c);
    out
}

impl Error {
    /// The single diagnostic line that stands for this error.
    pub fn message(&self) -> (r: String)
        ensures
            r@ == message_of(self@),
    {
        match self {
            Error::Git(s) => join2("Git error: ", s.as_str()),
            Error::Io(s) => join2("IO error: ", s.as_str()),
            Error::Json(s) => join2("JSON error: ", s.as_str()),
            Error::SchemaMismatch { expected, found } => mismatch_text(*expected, *found),
            Error::NoIdentity(s) => join2("No identity: ", s.as_str()),
            Error::NotFound(s) => join2("Issue not found: ", s.as_str()),
            Error::AmbiguousId(s, c) => {
                let listed = debug_list(c);
                ambiguous_text(s.as_str(), listed.as_str())
            },
            Error::NotInitialized => owned("Sterna not initialized. Run 'st init' first."),
            Error::AlreadyInitialized => owned("Sterna is already initialized"),
            Error::CorruptedSnapshot(s) => join2("Corrupted snapshot: ", s.as_str()),
            Error::AlreadyClaimed(s) => join3("Issue ", s.as_str(), " is already claimed"),
            Error::NotClaimed(s) => join3("Issue ", s.as_str(), " is not claimed"),
            Error::IsClosed(s) => join3("Issue ", s.as_str(), " is closed"),
            Error::AlreadyClosed(s) => join3("Issue ", s.as_str(), " is already closed"),
            Error::NotClosed(s) => join3("Issue ", s.as_str(), " is not closed"),
            Error::InvalidPriority(s) => join2("Invalid priority: ", s.as_str()),
            Error::InvalidIssueType(s) => join2("Invalid issue type: ", s.as_str()),
            Error::InvalidEdgeType(s) => join2("Invalid edge type: ", s.as_str()),
            Error::NoEdgeTarget => owned(
                "Must specify one of: --needs, --blocks, --relates-to, --parent, --duplicates",
            ),
            Error::SelfReference(s) => join2("Cannot create edge to self: ", s.as_str()),
            Error::DuplicateEdge(s, t) => {
                let mut out = join3("Edge already exists: ", s.as_str(), " -> ");
                out.append(t.as_str());
                out
            },
            Error::WouldCreateCycle(s, t) => {
                let mut out = join3("Would create cycle: ", s.as_str(), " -> ");
                out.append(t.as_str());
                out
            },
            Error::InvalidSnapshot => owned("Invalid snapshot format"),
            Error::LockFailed(s) => join2("Failed to acquire lock: ", s.as_str()),
        }
    }
}

} // verus!
