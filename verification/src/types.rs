//! The entity model: issues, edges and the small enumerations they carry.

use vstd::prelude::*;
use crate::error::{Error, ErrorView};
use crate::text::{
    copy_list, copy_opt, join2, lowercase_of, opt_view, owned, str_eq, to_lowercase, views,
};

verus! {

/// The schema version this engine reads and writes.
pub const SCHEMA_VERSION: u32 = 1;

/// Where an issue stands in its lifecycle.
#[derive(Debug, Clone, Copy, PartialEq, Eq, Structural)]
pub enum Status {
    Open,
    InProgress,
    Closed,
}

/// How urgent an issue is. The variants are declared from most to least
/// urgent, so the derived order agrees with `rank`.
#[derive(Debug, Clone, Copy, PartialEq, Eq, Structural, PartialOrd, Ord)]
pub enum Priority {
    Critical,
    High,
    Medium,
    Low,
    Backlog,
}

/// What kind of work an issue is.
#[derive(Debug, Clone, Copy, PartialEq, Eq, Structural)]
pub enum IssueType {
    Epic,
    Task,
    Bug,
    Feature,
    Chore,
}

/// What relation an edge states between its source and its target.
#[derive(Debug, Clone, Copy, PartialEq, Eq, Structural)]
pub enum EdgeType {
    DependsOn,
    Blocks,
    ParentChild,
    RelatesTo,
    Duplicates,
}

/// The status that a lower-case token names, if any.
pub open spec fn status_of_token(t: Seq<char>) -> Option<Status> {
    if t == "open"@ {
        Some(Status::Open)
    } else if t == "in_progress"@ || t == "inprogress"@ || t == "in-progress"@ {
        Some(Status::InProgress)
    } else if t == "closed"@ {
        Some(Status::Closed)
    } else {
        None
    }
}

/// The token that a status has on the wire and in listings.
pub open spec fn status_token(s: Status) -> Seq<char> {
    match s {
        Status::Open => "open"@,
        Status::InProgress => "in_progress"@,
        Status::Closed => "closed"@,
    }
}

/// The priority that a lower-case token names, if any: its word or its rank.
pub open spec fn priority_of_token(t: Seq<char>) -> Option<Priority> {
    if t == "critical"@ || t == "0"@ {
        Some(Priority::Critical)
    } else if t == "high"@ || t == "1"@ {
        Some(Priority::High)
    } else if t == "medium"@ || t == "2"@ {
        Some(Priority::Medium)
    } else if t == "low"@ || t == "3"@ {
        Some(Priority::Low)
    } else if t == "backlog"@ || t == "4"@ {
        Some(Priority::Backlog)
    } else {
        None
    }
}

/// The word for a priority.
pub open spec fn priority_token(p: Priority) -> Seq<char> {
    match p {
        Priority::Critical => "critical"@,
        Priority::High => "high"@,
        Priority::Medium => "medium"@,
        Priority::Low => "low"@,
        Priority::Backlog => "backlog"@,
    }
}

/// The integer rank of a priority: 0 is the most urgent.
pub open spec fn priority_rank(p: Priority) -> int {
    match p {
        Priority::Critical => 0,
        Priority::High => 1,
        Priority::Medium => 2,
        Priority::Low => 3,
        Priority::Backlog => 4,
    }
}

/// The priority with the given rank, if there is one.
pub open spec fn priority_of_rank(rank: u8) -> Option<Priority> {
    if rank == 0 {
        Some(Priority::Critical)
    } else if rank == 1 {
        Some(Priority::High)
    } else if rank == 2 {
        Some(Priority::Medium)
    } else if rank == 3 {
        Some(Priority::Low)
    } else if rank == 4 {
        Some(Priority::Backlog)
    } else {
        None
    }
}

/// The issue type that a lower-case token names, if any.
pub open spec fn issue_type_of_token(t: Seq<char>) -> Option<IssueType> {
    if t == "epic"@ {
        Some(IssueType::Epic)
    } else if t == "task"@ {
        Some(IssueType::Task)
    } else if t == "bug"@ {
        Some(IssueType::Bug)
    } else if t == "feature"@ {
        Some(IssueType::Feature)
    } else if t == "chore"@ {
        Some(IssueType::Chore)
    } else {
        None
    }
}

/// The token that an issue type has on the wire.
pub open spec fn issue_type_token(t: IssueType) -> Seq<char> {
    match t {
        IssueType::Epic => "epic"@,
        IssueType::Task => "task"@,
        IssueType::Bug => "bug"@,
        IssueType::Feature => "feature"@,
        IssueType::Chore => "chore"@,
    }
}

/// The edge type that a lower-case token names, if any.
pub open spec fn edge_type_of_token(t: Seq<char>) -> Option<EdgeType> {
    if t == "depends_on"@ || t == "dependson"@ || t == "needs"@ {
        Some(EdgeType::DependsOn)
    } else if t == "blocks"@ {
        Some(EdgeType::Blocks)
    } else if t == "parent_child"@ || t == "parentchild"@ || t == "parent"@ {
        Some(EdgeType::ParentChild)
    } else if t == "relates_to"@ || t == "relatesto"@ || t == "relates"@ {
        Some(EdgeType::RelatesTo)
    } else if t == "duplicates"@ {
        Some(EdgeType::Duplicates)
    } else {
        None
    }
}

/// The token that an edge type has on the wire and in entry names.
pub open spec fn edge_type_token(t: EdgeType) -> Seq<char> {
    match t {
        EdgeType::DependsOn => "depends_on"@,
        EdgeType::Blocks => "blocks"@,
        EdgeType::ParentChild => "parent_child"@,
        EdgeType::RelatesTo => "relates_to"@,
        EdgeType::Duplicates => "duplicates"@,
    }
}

/// True for the three directed edge types, through which a cycle is refused.
pub open spec fn cycle_forming(t: EdgeType) -> bool {
    t == EdgeType::DependsOn || t == EdgeType::Blocks || t == EdgeType::ParentChild
}

impl Status {
    /// The status named by a token that is already in lower case.
    pub fn from_token(token: &str) -> (r: Option<Status>)
        ensures
            r == status_of_token(token@),
    {
        if str_eq(token, "open") {
            Some(Status::Open)
        } else if str_eq(token, "in_progress") || str_eq(token, "inprogress") || str_eq(
            token,
            "in-progress",
        ) {
            Some(Status::InProgress)
        } else if str_eq(token, "closed") {
            Some(Status::Closed)
        } else {
            None
        }
    }

    /// The wire token of this status.
    pub fn as_str(&self) -> (r: &'static str)
        ensures
            r@ == status_token(*self),
    {
        match self {
            Status::Open => "open",
            Status::InProgress => "in_progress",
            Status::Closed => "closed",
        }
    }
}

/// The text of the error that an unknown status gives.
pub open spec fn unknown_status_text(s: Seq<char>) -> Seq<char> {
    "Unknown status: "@ + s
}

/// Reads a status filter, whatever its letter case. An unknown word is
/// reported as an invalid value, with the word in the message.
pub fn parse_status(s: &str) -> (r: Result<Status, Error>)
    ensures
        match status_of_token(lowercase_of(s@)) {
            Some(st) => r == Ok::<Status, Error>(st),
            None => r is Err && r->Err_0@ == ErrorView::InvalidPriority(unknown_status_text(s@)),
        },
{
    let lowered = to_lowercase(s);
    match Status::from_token(lowered.as_str()) {
        Some(st) => Ok(st),
        None => {
            Err(Error::InvalidPriority(join2("Unknown status: ", s)))
        },
    }
}

/// The listing token of a status.
pub fn status_str(s: Status) -> (r: &'static str)
    ensures
        r@ == status_token(s),
{
    s.as_str()
}

impl Priority {
    /// The priority named by a token that is already in lower case.
    pub fn from_token(token: &str) -> (r: Option<Priority>)
        ensures
            r == priority_of_token(token@),
    {
        if str_eq(token, "critical") || str_eq(token, "0") {
            Some(Priority::Critical)
        } else if str_eq(token, "high") || str_eq(token, "1") {
            Some(Priority::High)
        } else if str_eq(token, "medium") || str_eq(token, "2") {
            Some(Priority::Medium)
        } else if str_eq(token, "low") || str_eq(token, "3") {
            Some(Priority::Low)
        } else if str_eq(token, "backlog") || str_eq(token, "4") {
            Some(Priority::Backlog)
        } else {
            None
        }
    }

    /// Reads a priority by its word or its rank, whatever the letter case.
    /// Anything else is refused, with the text as it was given.
    pub fn from_str(s: &str) -> (r: Result<Priority, Error>)
        ensures
            match priority_of_token(lowercase_of(s@)) {
                Some(p) => r == Ok::<Priority, Error>(p),
                None => r is Err && r->Err_0@ == ErrorView::InvalidPriority(s@),
            },
    {
        let lowered = to_lowercase(s);
        match Priority::from_token(lowered.as_str()) {
            Some(p) => Ok(p),
            None => Err(Error::InvalidPriority(owned(s))),
        }
    }

    /// The word for this priority.
    pub fn as_str(&self) -> (r: &'static str)
        ensures
            r@ == priority_token(*self),
    {
        match self {
            Priority::Critical => "critical",
            Priority::High => "high",
            Priority::Medium => "medium",
            Priority::Low => "low",
            Priority::Backlog => "backlog",
        }
    }

    /// The rank of this priority, which is also its form on the wire.
    pub fn rank(&self) -> (r: u8)
        ensures
            r == priority_rank(*self),
    {
        match self {
            Priority::Critical => 0,
            Priority::High => 1,
            Priority::Medium => 2,
            Priority::Low => 3,
            Priority::Backlog => 4,
        }
    }

    /// The priority with the given rank, if there is one.
    pub fn from_rank(rank: u8) -> (r: Option<Priority>)
        ensures
            r == priority_of_rank(rank),
    {
        if rank == 0 {
            Some(Priority::Critical)
        } else if rank == 1 {
            Some(Priority::High)
        } else if rank == 2 {
            Some(Priority::Medium)
        } else if rank == 3 {
            Some(Priority::Low)
        } else if rank == 4 {
            Some(Priority::Backlog)
        } else {
            None
        }
    }
}

impl IssueType {
    /// The issue type named by a token that is already in lower case.
    pub fn from_token(token: &str) -> (r: Option<IssueType>)
        ensures
            r == issue_type_of_token(token@),
    {
        if str_eq(token, "epic") {
            Some(IssueType::Epic)
        } else if str_eq(token, "task") {
            Some(IssueType::Task)
        } else if str_eq(token, "bug") {
            Some(IssueType::Bug)
        } else if str_eq(token, "feature") {
            Some(IssueType::Feature)
        } else if str_eq(token, "chore") {
            Some(IssueType::Chore)
        } else {
            None
        }
    }

    /// Reads an issue type, whatever the letter case. Anything else is
    /// refused, with the text as it was given.
    pub fn from_str(s: &str) -> (r: Result<IssueType, Error>)
        ensures
            match issue_type_of_token(lowercase_of(s@)) {
                Some(t) => r == Ok::<IssueType, Error>(t),
                None => r is Err && r->Err_0@ == ErrorView::InvalidIssueType(s@),
            },
    {
        let lowered = to_lowercase(s);
        match IssueType::from_token(lowered.as_str()) {
            Some(t) => Ok(t),
            None => Err(Error::InvalidIssueType(owned(s))),
        }
    }

    /// The wire token of this issue type.
    pub fn as_str(&self) -> (r: &'static str)
        ensures
            r@ == issue_type_token(*self),
    {
        match self {
            IssueType::Epic => "epic",
            IssueType::Task => "task",
            IssueType::Bug => "bug",
            IssueType::Feature => "feature",
            IssueType::Chore => "chore",
        }
    }
}

impl EdgeType {
    /// The edge type named by a token that is already in lower case.
    pub fn from_token(token: &str) -> (r: Option<EdgeType>)
        ensures
            r == edge_type_of_token(token@),
    {
        if str_eq(token, "depends_on") || str_eq(token, "dependson") || str_eq(token, "needs") {
            Some(EdgeType::DependsOn)
        } else if str_eq(token, "blocks") {
            Some(EdgeType::Blocks)
        } else if str_eq(token, "parent_child") || str_eq(token, "parentchild") || str_eq(
            token,
            "parent",
        ) {
            Some(EdgeType::ParentChild)
        } else if str_eq(token, "relates_to") || str_eq(token, "relatesto") || str_eq(
            token,
            "relates",
        ) {
            Some(EdgeType::RelatesTo)
        } else if str_eq(token, "duplicates") {
            Some(EdgeType::Duplicates)
        } else {
            None
        }
    }

    /// Reads an edge type, whatever the letter case. Anything else is
    /// refused, with the text as it was given.
    pub fn from_str(s: &str) -> (r: Result<EdgeType, Error>)
        ensures
            match edge_type_of_token(lowercase_of(s@)) {
                Some(t) => r == Ok::<EdgeType, Error>(t),
                None => r is Err && r->Err_0@ == ErrorView::InvalidEdgeType(s@),
            },
    {
        let lowered = to_lowercase(s);
        match EdgeType::from_token(lowered.as_str()) {
            Some(t) => Ok(t),
            None => Err(Error::InvalidEdgeType(owned(s))),
        }
    }

    /// The wire token of this edge type.
    pub fn as_str(&self) -> (r: &'static str)
        ensures
            r@ == edge_type_token(*self),
    {
        match self {
            EdgeType::DependsOn => "depends_on",
            EdgeType::Blocks => "blocks",
            EdgeType::ParentChild => "parent_child",
            EdgeType::RelatesTo => "relates_to",
            EdgeType::Duplicates => "duplicates",
        }
    }

    /// True for the three directed types, through which a cycle is refused.
    pub fn is_cycle_forming(&self) -> (r: bool)
        ensures
            r == cycle_forming(*self),
    {
        match self {
            EdgeType::DependsOn => true,
            EdgeType::Blocks => true,
            EdgeType::ParentChild => true,
            EdgeType::RelatesTo => false,
            EdgeType::Duplicates => false,
        }
    }
}

/// A mutable record addressed by its identifier.
#[derive(Debug, Clone)]
pub struct Issue {
    pub schema_version: u32,
    pub id: String,
    pub title: String,
    pub description: String,
    pub status: Status,
    pub priority: Priority,
    pub issue_type: IssueType,
    pub labels: Vec<String>,
    pub created_at: i64,
    pub updated_at: i64,
    pub lamport: u64,
    pub editor: String,
    pub claimed: bool,
    pub claim_context: Option<String>,
    pub claimed_at: Option<u64>,
    pub reason: Option<String>,
}

/// An issue as a mathematical value: each string by its characters.
pub struct IssueView {
    pub schema_version: u32,
    pub id: Seq<char>,
    pub title: Seq<char>,
    pub description: Seq<char>,
    pub status: Status,
    pub priority: Priority,
    pub issue_type: IssueType,
    pub labels: Seq<Seq<char>>,
    pub created_at: i64,
    pub updated_at: i64,
    pub lamport: u64,
    pub editor: Seq<char>,
    pub claimed: bool,
    pub claim_context: Option<Seq<char>>,
    pub claimed_at: Option<u64>,
    pub reason: Option<Seq<char>>,
}

impl View for Issue {
    type V = IssueView;

    open spec fn view(&self) -> IssueView {
        IssueView {
            schema_version: self.schema_version,
            id: self.id@,
            title: self.title@,
            description: self.description@,
            status: self.status,
            priority: self.priority,
            issue_type: self.issue_type,
            labels: views(self.labels@),
            created_at: self.created_at,
            updated_at: self.updated_at,
            lamport: self.lamport,
            editor: self.editor@,
            claimed: self.claimed,
            claim_context: opt_view(self.claim_context),
            claimed_at: self.claimed_at,
            reason: opt_view(self.reason),
        }
    }
}

impl Issue {
    /// A copy of this issue, field by field.
    pub fn duplicate(&self) -> (r: Issue)
        ensures
            r@ == self@,
    {
        Issue {
            schema_version: self.schema_version,
            id: self.id.clone(),
            title: self.title.clone(),
            description: self.description.clone(),
            status: self.status,
            priority: self.priority,
            issue_type: self.issue_type,
            labels: copy_list(&self.labels),
            created_at: self.created_at,
            updated_at: self.updated_at,
            lamport: self.lamport,
            editor: self.editor.clone(),
            claimed: self.claimed,
            claim_context: copy_opt(&self.claim_context),
            claimed_at: self.claimed_at,
            reason: copy_opt(&self.reason),
        }
    }
}

/// A directed relation between two issue identifiers.
#[derive(Debug, Clone)]
pub struct Edge {
    pub schema_version: u32,
    pub source: String,
    pub target: String,
    pub edge_type: EdgeType,
    pub created_at: i64,
}

/// An edge as a mathematical value.
pub struct EdgeView {
    pub schema_version: u32,
    pub source: Seq<char>,
    pub target: Seq<char>,
    pub edge_type: EdgeType,
    pub created_at: i64,
}

impl View for Edge {
    type V = EdgeView;

    open spec fn view(&self) -> EdgeView {
        EdgeView {
            schema_version: self.schema_version,
            source: self.source@,
            target: self.target@,
            edge_type: self.edge_type,
            created_at: self.created_at,
        }
    }
}

impl EdgeView {
    /// True when this edge is the one from `source` to `target` of type
    /// `edge_type`: an edge is identified by these three.
    pub open spec fn is_triple(
        self,
        source: Seq<char>,
        target: Seq<char>,
        edge_type: EdgeType,
    ) -> bool {
        self.source == source && self.target == target && self.edge_type == edge_type
    }

    /// True when the two edges have the same source, target and type.
    pub open spec fn same_triple(self, other: EdgeView) -> bool {
        self.is_triple(other.source, other.target, other.edge_type)
    }
}

impl Edge {
    /// A copy of this edge, field by field.
    pub fn duplicate(&self) -> (r: Edge)
        ensures
            r@ == self@,
    {
        Edge {
            schema_version: self.schema_version,
            source: self.source.clone(),
            target: self.target.clone(),
            edge_type: self.edge_type,
            created_at: self.created_at,
        }
    }

    /// True when this edge is the one from `source` to `target` of type
    /// `edge_type`.
    pub fn is_triple(&self, source: &str, target: &str, edge_type: EdgeType) -> (r: bool)
        ensures
            r == self@.is_triple(source@, target@, edge_type),
    {
        str_eq(self.source.as_str(), source) && str_eq(self.target.as_str(), target)
            && self.edge_type == edge_type
    }
}

/// The views of the issues of a sequence, in order.
pub open spec fn issue_views(v: Seq<Issue>) -> Seq<IssueView> {
    v.map_values(|i: Issue| i@)
}

/// The views of the edges of a sequence, in order.
pub open spec fn edge_views(v: Seq<Edge>) -> Seq<EdgeView> {
    v.map_values(|e: Edge| e@)
}

} // verus!
