//! The storage form of the records: what an issue and an edge look like
//! in the blob that holds them.
//!
//! A record is one JSON object with its members in a fixed order. Status,
//! type and edge type are lower-case snake-case tokens; the priority is its
//! integer rank. A record is read only where its schema version is the
//! engine's, and the version is looked at before anything else.

use vstd::prelude::*;
use vstd::string::StrSliceExecFns;
use crate::error::{Error, ErrorView};
use crate::text::{decimal, owned, signed_decimal, str_eq};
use crate::types::{
    edge_type_token, issue_type_token, priority_of_rank, priority_rank, status_token, Edge,
    EdgeType, EdgeView, Issue, IssueType, IssueView, Priority, Status, SCHEMA_VERSION,
};
use crate::wire::{
    flag_in, json_of, lemma_fields_read_back, list_as_field, list_field, list_in, member_at,
    members_of, optional_text_as_field, optional_text_field, optional_text_in,
    optional_unsigned_as_field, optional_unsigned_field, optional_unsigned_in, out_of_range,
    out_of_range_error, parse, put, put_list, put_optional_string, put_signed, put_string,
    put_unsigned, read_flag, read_list, read_optional_text, read_optional_unsigned, read_signed,
    read_text, read_unsigned, signed_as_field, signed_field, signed_in, text_in, unfit,
    unknown_rank, unknown_rank_error, unknown_variant, unknown_variant_error, unsigned_as_field,
    unsigned_field, unsigned_in, with_list, with_optional_string, with_piece, with_string, written,
    Field, FieldView,
};

verus! {

/// The status that a wire token names: the token must be exact.
pub open spec fn status_of_wire(t: Seq<char>) -> Option<Status> {
    if t == "open"@ {
        Some(Status::Open)
    } else if t == "in_progress"@ {
        Some(Status::InProgress)
    } else if t == "closed"@ {
        Some(Status::Closed)
    } else {
        None
    }
}

/// The issue type that a wire token names: the token must be exact.
pub open spec fn issue_type_of_wire(t: Seq<char>) -> Option<IssueType> {
    if t == "epic"@ {
        Some(IssueType::Epic)
    } else if t == "task"@ {
        Some(IssueType::Task)
    } else if t == "bug"@ {
        Some(IssueType::Bug)
    } else if t == "feature"@ {
        Some(IssueType::Feature)
    } else if t == "chore"@ {
        Some(IssueType::Chore)
    } else {
        None
    }
}

/// The edge type that a wire token names: the token must be exact.
pub open spec fn edge_type_of_wire(t: Seq<char>) -> Option<EdgeType> {
    if t == "depends_on"@ {
        Some(EdgeType::DependsOn)
    } else if t == "blocks"@ {
        Some(EdgeType::Blocks)
    } else if t == "parent_child"@ {
        Some(EdgeType::ParentChild)
    } else if t == "relates_to"@ {
        Some(EdgeType::RelatesTo)
    } else if t == "duplicates"@ {
        Some(EdgeType::Duplicates)
    } else {
        None
    }
}

/// The status that a wire token names.
pub fn status_from_wire(token: &str) -> (r: Option<Status>)
    ensures
        r == status_of_wire(token@),
{
    if str_eq(token, "open") {
        Some(Status::Open)
    } else if str_eq(token, "in_progress") {
        Some(Status::InProgress)
    } else if str_eq(token, "closed") {
        Some(Status::Closed)
    } else {
        None
    }
}

/// The issue type that a wire token names.
pub fn issue_type_from_wire(token: &str) -> (r: Option<IssueType>)
    ensures
        r == issue_type_of_wire(token@),
{
    if str_eq(token, "epic") {
        Some(IssueType::Epic)
    } else if str_eq(token, "task") {
        Some(IssueType::Task)
    } else if str_eq(token, "bug") {
        Some(IssueType::Bug)
    } else if str_eq(token, "feature") {
        Some(IssueType::Feature)
    } else if str_eq(token, "chore") {
        Some(IssueType::Chore)
    } else {
        None
    }
}

/// The edge type that a wire token names.
pub fn edge_type_from_wire(token: &str) -> (r: Option<EdgeType>)
    ensures
        r == edge_type_of_wire(token@),
{
    if str_eq(token, "depends_on") {
        Some(EdgeType::DependsOn)
    } else if str_eq(token, "blocks") {
        Some(EdgeType::Blocks)
    } else if str_eq(token, "parent_child") {
        Some(EdgeType::ParentChild)
    } else if str_eq(token, "relates_to") {
        Some(EdgeType::RelatesTo)
    } else if str_eq(token, "duplicates") {
        Some(EdgeType::Duplicates)
    } else {
        None
    }
}

/// Each status token names the status it was written for.
pub proof fn lemma_status_reads_back(s: Status)
    ensures
        status_of_wire(status_token(s)) == Some(s),
{
    reveal_strlit("open");
    reveal_strlit("in_progress");
    reveal_strlit("closed");
    assert("open"@.len() == 4);
    assert("in_progress"@.len() == 11);
    assert("closed"@.len() == 6);
}

/// Each type token names the issue type it was written for.
pub proof fn lemma_issue_type_reads_back(t: IssueType)
    ensures
        issue_type_of_wire(issue_type_token(t)) == Some(t),
{
    reveal_strlit("epic");
    reveal_strlit("task");
    reveal_strlit("bug");
    reveal_strlit("feature");
    reveal_strlit("chore");
    assert("epic"@.len() == 4 && "epic"@[0] == 'e');
    assert("task"@.len() == 4 && "task"@[0] == 't');
    assert("bug"@.len() == 3);
    assert("feature"@.len() == 7);
    assert("chore"@.len() == 5);
}

/// Each edge type token names the edge type it was written for.
pub proof fn lemma_edge_type_reads_back(e: EdgeType)
    ensures
        edge_type_of_wire(edge_type_token(e)) == Some(e),
{
    reveal_strlit("depends_on");
    reveal_strlit("blocks");
    reveal_strlit("parent_child");
    reveal_strlit("relates_to");
    reveal_strlit("duplicates");
    assert("depends_on"@.len() == 10 && "depends_on"@[0] == 'd' && "depends_on"@[1] == 'e');
    assert("blocks"@.len() == 6);
    assert("parent_child"@.len() == 12);
    assert("relates_to"@.len() == 10 && "relates_to"@[0] == 'r');
    assert("duplicates"@.len() == 10 && "duplicates"@[0] == 'd' && "duplicates"@[1] == 'u');
}

/// Each rank names the priority it was written for.
pub proof fn lemma_rank_reads_back(p: Priority)
    ensures
        priority_of_rank(priority_rank(p) as u8) == Some(p),
{
}

/// The low 32 bits of a number.
pub open spec fn low_32(x: u64) -> u32 {
    (x % 0x1_0000_0000) as u32
}

/// The schema version that a record states: the low 32 bits of its member
/// `schema_version`, and 0 where it has no such number.
pub open spec fn stated_version(f: FieldView) -> u32 {
    match f {
        FieldView::Number(Some(x), _) => low_32(x),
        _ => 0,
    }
}

/// What the schema check says of the member `schema_version`: the version,
/// where it is the engine's and the member holds no more than it.
pub open spec fn version_in(f: FieldView) -> Result<u32, ErrorView> {
    if stated_version(f) != SCHEMA_VERSION {
        Err(ErrorView::SchemaMismatch { expected: SCHEMA_VERSION, found: stated_version(f) })
    } else {
        match f {
            FieldView::Number(Some(x), _) => if x <= u32::MAX {
                Ok(x as u32)
            } else {
                Err(ErrorView::Json(out_of_range("schema_version"@)))
            },
            _ => Err(unfit(f, "schema_version"@)),
        }
    }
}

/// The status that a member names.
pub open spec fn status_in(f: FieldView) -> Result<Status, ErrorView> {
    match text_in(f, "status"@) {
        Err(e) => Err(e),
        Ok(t) => match status_of_wire(t) {
            Some(s) => Ok(s),
            None => Err(ErrorView::Json(unknown_variant(t))),
        },
    }
}

/// The priority whose rank a member holds.
pub open spec fn priority_in(f: FieldView) -> Result<Priority, ErrorView> {
    match unsigned_in(f, "priority"@) {
        Err(e) => Err(e),
        Ok(u) => if u <= 4 {
            Ok(priority_of_rank(u as u8)->Some_0)
        } else {
            Err(ErrorView::Json(unknown_rank(u)))
        },
    }
}

/// The issue type that a member names.
pub open spec fn issue_type_in(f: FieldView) -> Result<IssueType, ErrorView> {
    match text_in(f, "issue_type"@) {
        Err(e) => Err(e),
        Ok(t) => match issue_type_of_wire(t) {
            Some(s) => Ok(s),
            None => Err(ErrorView::Json(unknown_variant(t))),
        },
    }
}

/// The edge type that a member names.
pub open spec fn edge_type_in(f: FieldView) -> Result<EdgeType, ErrorView> {
    match text_in(f, "edge_type"@) {
        Err(e) => Err(e),
        Ok(t) => match edge_type_of_wire(t) {
            Some(s) => Ok(s),
            None => Err(ErrorView::Json(unknown_variant(t))),
        },
    }
}

/// Judges the member `schema_version`: the version that it states must be
/// the engine's.
pub fn read_version(f: Field) -> (r: Result<u32, Error>)
    ensures
        match version_in(f@) {
            Ok(v) => r == Ok::<u32, Error>(v),
            Err(e) => r is Err && r->Err_0@ == e,
        },
{
    let found: u32 = match &f {
        Field::Number(Some(x), _) => (*x % 0x1_0000_0000u64) as u32,
        _ => 0,
    };
    if found != SCHEMA_VERSION {
        return Err(Error::SchemaMismatch { expected: SCHEMA_VERSION, found });
    }
    match f {
        Field::Number(Some(x), _) => if x <= 0xffff_ffff {
            Ok(x as u32)
        } else {
            Err(out_of_range_error("schema_version"))
        },
        _ => Err(out_of_range_error("schema_version")),
    }
}

/// Reads the member `status`.
pub fn read_status(f: Field) -> (r: Result<Status, Error>)
    ensures
        match status_in(f@) {
            Ok(s) => r == Ok::<Status, Error>(s),
            Err(e) => r is Err && r->Err_0@ == e,
        },
{
    let token = match read_text(f, "status") {
        Ok(t) => t,
        Err(e) => { return Err(e); },
    };
    match status_from_wire(token.as_str()) {
        Some(s) => Ok(s),
        None => Err(unknown_variant_error(token.as_str())),
    }
}

/// Reads the member `priority`.
pub fn read_priority(f: Field) -> (r: Result<Priority, Error>)
    ensures
        match priority_in(f@) {
            Ok(p) => r == Ok::<Priority, Error>(p),
            Err(e) => r is Err && r->Err_0@ == e,
        },
{
    let rank = match read_unsigned(f, "priority") {
        Ok(u) => u,
        Err(e) => { return Err(e); },
    };
    if rank > 4 {
        return Err(unknown_rank_error(rank));
    }
    match Priority::from_rank(rank as u8) {
        Some(p) => Ok(p),
        None => Err(unknown_rank_error(rank)),
    }
}

/// Reads the member `issue_type`.
pub fn read_issue_type(f: Field) -> (r: Result<IssueType, Error>)
    ensures
        match issue_type_in(f@) {
            Ok(t) => r == Ok::<IssueType, Error>(t),
            Err(e) => r is Err && r->Err_0@ == e,
        },
{
    let token = match read_text(f, "issue_type") {
        Ok(t) => t,
        Err(e) => { return Err(e); },
    };
    match issue_type_from_wire(token.as_str()) {
        Some(t) => Ok(t),
        None => Err(unknown_variant_error(token.as_str())),
    }
}

/// Reads the member `edge_type`.
pub fn read_edge_type(f: Field) -> (r: Result<EdgeType, Error>)
    ensures
        match edge_type_in(f@) {
            Ok(t) => r == Ok::<EdgeType, Error>(t),
            Err(e) => r is Err && r->Err_0@ == e,
        },
{
    let token = match read_text(f, "edge_type") {
        Ok(t) => t,
        Err(e) => { return Err(e); },
    };
    match edge_type_from_wire(token.as_str()) {
        Some(t) => Ok(t),
        None => Err(unknown_variant_error(token.as_str())),
    }
}

/// The members of the record of an issue.
#[derive(Debug, Clone)]
pub struct IssueFields {
    pub schema_version: Field,
    pub id: Field,
    pub title: Field,
    pub description: Field,
    pub status: Field,
    pub priority: Field,
    pub issue_type: Field,
    pub labels: Field,
    pub created_at: Field,
    pub updated_at: Field,
    pub lamport: Field,
    pub editor: Field,
    pub claimed: Field,
    pub claim_context: Field,
    pub claimed_at: Field,
    pub reason: Field,
}

/// The members of a record as mathematical values.
pub struct IssueFieldsView {
    pub schema_version: FieldView,
    pub id: FieldView,
    pub title: FieldView,
    pub description: FieldView,
    pub status: FieldView,
    pub priority: FieldView,
    pub issue_type: FieldView,
    pub labels: FieldView,
    pub created_at: FieldView,
    pub updated_at: FieldView,
    pub lamport: FieldView,
    pub editor: FieldView,
    pub claimed: FieldView,
    pub claim_context: FieldView,
    pub claimed_at: FieldView,
    pub reason: FieldView,
}

impl View for IssueFields {
    type V = IssueFieldsView;

    open spec fn view(&self) -> IssueFieldsView {
        IssueFieldsView {
            schema_version: self.schema_version@,
            id: self.id@,
            title: self.title@,
            description: self.description@,
            status: self.status@,
            priority: self.priority@,
            issue_type: self.issue_type@,
            labels: self.labels@,
            created_at: self.created_at@,
            updated_at: self.updated_at@,
            lamport: self.lamport@,
            editor: self.editor@,
            claimed: self.claimed@,
            claim_context: self.claim_context@,
            claimed_at: self.claimed_at@,
            reason: self.reason@,
        }
    }
}

/// The members of the record of an edge.
#[derive(Debug, Clone)]
pub struct EdgeFields {
    pub schema_version: Field,
    pub source: Field,
    pub target: Field,
    pub edge_type: Field,
    pub created_at: Field,
}

/// The members of a record as mathematical values.
pub struct EdgeFieldsView {
    pub schema_version: FieldView,
    pub source: FieldView,
    pub target: FieldView,
    pub edge_type: FieldView,
    pub created_at: FieldView,
}

impl View for EdgeFields {
    type V = EdgeFieldsView;

    open spec fn view(&self) -> EdgeFieldsView {
        EdgeFieldsView {
            schema_version: self.schema_version@,
            source: self.source@,
            target: self.target@,
            edge_type: self.edge_type@,
            created_at: self.created_at@,
        }
    }
}

/// The members that the record of an issue looks at, each under its key.
pub open spec fn issue_fields_in(m: Map<Seq<char>, FieldView>) -> IssueFieldsView {
    IssueFieldsView {
        schema_version: member_at(m, "schema_version"@),
        id: member_at(m, "id"@),
        title: member_at(m, "title"@),
        description: member_at(m, "description"@),
        status: member_at(m, "status"@),
        priority: member_at(m, "priority"@),
        issue_type: member_at(m, "issue_type"@),
        labels: member_at(m, "labels"@),
        created_at: member_at(m, "created_at"@),
        updated_at: member_at(m, "updated_at"@),
        lamport: member_at(m, "lamport"@),
        editor: member_at(m, "editor"@),
        claimed: member_at(m, "claimed"@),
        claim_context: member_at(m, "claim_context"@),
        claimed_at: member_at(m, "claimed_at"@),
        reason: member_at(m, "reason"@),
    }
}

/// The members that the record of an edge looks at, each under its key.
pub open spec fn edge_fields_in(m: Map<Seq<char>, FieldView>) -> EdgeFieldsView {
    EdgeFieldsView {
        schema_version: member_at(m, "schema_version"@),
        source: member_at(m, "source"@),
        target: member_at(m, "target"@),
        edge_type: member_at(m, "edge_type"@),
        created_at: member_at(m, "created_at"@),
    }
}

/// What reading an issue from its members gives: the record, or the first
/// error. The schema version is judged first, then the members in their
/// order.
pub open spec fn issue_of_fields(f: IssueFieldsView) -> Result<IssueView, ErrorView> {
    if version_in(f.schema_version) is Err {
        Err(version_in(f.schema_version)->Err_0)
    }     else if text_in(f.id, "id"@) is Err {
        Err(text_in(f.id, "id"@)->Err_0)
    }     else if text_in(f.title, "title"@) is Err {
        Err(text_in(f.title, "title"@)->Err_0)
    }     else if text_in(f.description, "description"@) is Err {
        Err(text_in(f.description, "description"@)->Err_0)
    }     else if status_in(f.status) is Err {
        Err(status_in(f.status)->Err_0)
    }     else if priority_in(f.priority) is Err {
        Err(priority_in(f.priority)->Err_0)
    }     else if issue_type_in(f.issue_type) is Err {
        Err(issue_type_in(f.issue_type)->Err_0)
    }     else if list_in(f.labels, "labels"@) is Err {
        Err(list_in(f.labels, "labels"@)->Err_0)
    }     else if signed_in(f.created_at, "created_at"@) is Err {
        Err(signed_in(f.created_at, "created_at"@)->Err_0)
    }     else if signed_in(f.updated_at, "updated_at"@) is Err {
        Err(signed_in(f.updated_at, "updated_at"@)->Err_0)
    }     else if unsigned_in(f.lamport, "lamport"@) is Err {
        Err(unsigned_in(f.lamport, "lamport"@)->Err_0)
    }     else if text_in(f.editor, "editor"@) is Err {
        Err(text_in(f.editor, "editor"@)->Err_0)
    }     else if flag_in(f.claimed, "claimed"@) is Err {
        Err(flag_in(f.claimed, "claimed"@)->Err_0)
    }     else if optional_text_in(f.claim_context, "claim_context"@) is Err {
        Err(optional_text_in(f.claim_context, "claim_context"@)->Err_0)
    }     else if optional_unsigned_in(f.claimed_at, "claimed_at"@) is Err {
        Err(optional_unsigned_in(f.claimed_at, "claimed_at"@)->Err_0)
    }     else if optional_text_in(f.reason, "reason"@) is Err {
        Err(optional_text_in(f.reason, "reason"@)->Err_0)
    } else {
        Ok(
            IssueView {
                schema_version: version_in(f.schema_version)->Ok_0,
                id: text_in(f.id, "id"@)->Ok_0,
                title: text_in(f.title, "title"@)->Ok_0,
                description: text_in(f.description, "description"@)->Ok_0,
                status: status_in(f.status)->Ok_0,
                priority: priority_in(f.priority)->Ok_0,
                issue_type: issue_type_in(f.issue_type)->Ok_0,
                labels: list_in(f.labels, "labels"@)->Ok_0,
                created_at: signed_in(f.created_at, "created_at"@)->Ok_0,
                updated_at: signed_in(f.updated_at, "updated_at"@)->Ok_0,
                lamport: unsigned_in(f.lamport, "lamport"@)->Ok_0,
                editor: text_in(f.editor, "editor"@)->Ok_0,
                claimed: flag_in(f.claimed, "claimed"@)->Ok_0,
                claim_context: optional_text_in(f.claim_context, "claim_context"@)->Ok_0,
                claimed_at: optional_unsigned_in(f.claimed_at, "claimed_at"@)->Ok_0,
                reason: optional_text_in(f.reason, "reason"@)->Ok_0,
            },
        )
    }
}

/// What reading an edge from its members gives: the record, or the first
/// error. The schema version is judged first, then the members in their
/// order.
pub open spec fn edge_of_fields(f: EdgeFieldsView) -> Result<EdgeView, ErrorView> {
    if version_in(f.schema_version) is Err {
        Err(version_in(f.schema_version)->Err_0)
    }     else if text_in(f.source, "source"@) is Err {
        Err(text_in(f.source, "source"@)->Err_0)
    }     else if text_in(f.target, "target"@) is Err {
        Err(text_in(f.target, "target"@)->Err_0)
    }     else if edge_type_in(f.edge_type) is Err {
        Err(edge_type_in(f.edge_type)->Err_0)
    }     else if signed_in(f.created_at, "created_at"@) is Err {
        Err(signed_in(f.created_at, "created_at"@)->Err_0)
    } else {
        Ok(
            EdgeView {
                schema_version: version_in(f.schema_version)->Ok_0,
                source: text_in(f.source, "source"@)->Ok_0,
                target: text_in(f.target, "target"@)->Ok_0,
                edge_type: edge_type_in(f.edge_type)->Ok_0,
                created_at: signed_in(f.created_at, "created_at"@)->Ok_0,
            },
        )
    }
}

/// The members of the record of an issue.
pub open spec fn fields_of_issue(x: IssueView) -> IssueFieldsView {
    IssueFieldsView {
        schema_version: unsigned_field(x.schema_version as u64),
        id: FieldView::Text(x.id),
        title: FieldView::Text(x.title),
        description: FieldView::Text(x.description),
        status: FieldView::Text(status_token(x.status)),
        priority: unsigned_field(priority_rank(x.priority) as u64),
        issue_type: FieldView::Text(issue_type_token(x.issue_type)),
        labels: list_field(x.labels),
        created_at: signed_field(x.created_at),
        updated_at: signed_field(x.updated_at),
        lamport: unsigned_field(x.lamport),
        editor: FieldView::Text(x.editor),
        claimed: FieldView::Flag(x.claimed),
        claim_context: optional_text_field(x.claim_context),
        claimed_at: optional_unsigned_field(x.claimed_at),
        reason: optional_text_field(x.reason),
    }
}

/// The members of the record of an edge.
pub open spec fn fields_of_edge(e: EdgeView) -> EdgeFieldsView {
    EdgeFieldsView {
        schema_version: unsigned_field(e.schema_version as u64),
        source: FieldView::Text(e.source),
        target: FieldView::Text(e.target),
        edge_type: FieldView::Text(edge_type_token(e.edge_type)),
        created_at: signed_field(e.created_at),
    }
}

/// The text of a `true` or a `false`.
pub open spec fn flag_text(b: bool) -> Seq<char> {
    if b {
        "true"@
    } else {
        "false"@
    }
}

/// The text with an optional number appended: in decimal digits, or `null`.
pub open spec fn with_optional_unsigned(
    acc: Result<Seq<char>, ErrorView>,
    o: Option<u64>,
) -> Result<Seq<char>, ErrorView> {
    match o {
        Some(u) => with_piece(acc, decimal(u as nat)),
        None => with_piece(acc, "null"@),
    }
}

/// The text of the record of an issue: one object, its members in the
/// order of the fields and without blanks between them; or the error that
/// stops the writing.
pub open spec fn issue_json(x: IssueView) -> Result<Seq<char>, ErrorView> {
    let a = Ok::<Seq<char>, ErrorView>(Seq::<char>::empty());
    let a = with_piece(a, "{\"schema_version\":"@);
    let a = with_piece(a, decimal(x.schema_version as nat));
    let a = with_piece(a, ",\"id\":"@);
    let a = with_string(a, x.id);
    let a = with_piece(a, ",\"title\":"@);
    let a = with_string(a, x.title);
    let a = with_piece(a, ",\"description\":"@);
    let a = with_string(a, x.description);
    let a = with_piece(a, ",\"status\":"@);
    let a = with_string(a, status_token(x.status));
    let a = with_piece(a, ",\"priority\":"@);
    let a = with_piece(a, decimal(priority_rank(x.priority) as nat));
    let a = with_piece(a, ",\"issue_type\":"@);
    let a = with_string(a, issue_type_token(x.issue_type));
    let a = with_piece(a, ",\"labels\":"@);
    let a = with_list(a, x.labels);
    let a = with_piece(a, ",\"created_at\":"@);
    let a = with_piece(a, signed_decimal(x.created_at));
    let a = with_piece(a, ",\"updated_at\":"@);
    let a = with_piece(a, signed_decimal(x.updated_at));
    let a = with_piece(a, ",\"lamport\":"@);
    let a = with_piece(a, decimal(x.lamport as nat));
    let a = with_piece(a, ",\"editor\":"@);
    let a = with_string(a, x.editor);
    let a = with_piece(a, ",\"claimed\":"@);
    let a = with_piece(a, flag_text(x.claimed));
    let a = with_piece(a, ",\"claim_context\":"@);
    let a = with_optional_string(a, x.claim_context);
    let a = with_piece(a, ",\"claimed_at\":"@);
    let a = with_optional_unsigned(a, x.claimed_at);
    let a = with_piece(a, ",\"reason\":"@);
    let a = with_optional_string(a, x.reason);
    with_piece(a, "}"@)
}

/// The text of the record of an edge.
pub open spec fn edge_json(e: EdgeView) -> Result<Seq<char>, ErrorView> {
    let a = Ok::<Seq<char>, ErrorView>(Seq::<char>::empty());
    let a = with_piece(a, "{\"schema_version\":"@);
    let a = with_piece(a, decimal(e.schema_version as nat));
    let a = with_piece(a, ",\"source\":"@);
    let a = with_string(a, e.source);
    let a = with_piece(a, ",\"target\":"@);
    let a = with_string(a, e.target);
    let a = with_piece(a, ",\"edge_type\":"@);
    let a = with_string(a, edge_type_token(e.edge_type));
    let a = with_piece(a, ",\"created_at\":"@);
    let a = with_piece(a, signed_decimal(e.created_at));
    with_piece(a, "}"@)
}

/// The bytes of a text, or the error that stopped the writing.
pub open spec fn as_bytes(t: Result<Seq<char>, ErrorView>) -> Result<Seq<u8>, ErrorView> {
    match t {
        Ok(s) => Ok(vstd::utf8::encode_utf8(s)),
        Err(e) => Err(e),
    }
}

/// The bytes that were written, or the error that stopped the writing.
pub open spec fn bytes_written(r: Result<Vec<u8>, Error>) -> Result<Seq<u8>, ErrorView> {
    match r {
        Ok(b) => Ok(b@),
        Err(e) => Err(e@),
    }
}

/// Appends an optional number to the text: in decimal digits, or `null`.
fn put_optional_unsigned(acc: Result<String, Error>, o: Option<u64>) -> (r: Result<String, Error>)
    ensures
        written(r) == with_optional_unsigned(written(acc), o),
{
    match o {
        Some(u) => put_unsigned(acc, u),
        None => put(acc, "null"),
    }
}

/// The bytes of the text that was written.
fn finish(acc: Result<String, Error>) -> (r: Result<Vec<u8>, Error>)
    ensures
        bytes_written(r) == as_bytes(written(acc)),
{
    match acc {
        Ok(text) => Ok(text.as_str().as_bytes_vec()),
        Err(e) => Err(e),
    }
}

impl Issue {
    /// Reads an issue from the members of its record. A record of another
    /// schema version is a mismatch, whatever else it holds; a member that is
    /// missing, of the wrong type or out of range is reported as malformed.
    pub fn from_fields(fields: IssueFields) -> (r: Result<Issue, Error>)
        ensures
            match issue_of_fields(fields@) {
                Ok(x) => r is Ok && r->Ok_0@ == x,
                Err(e) => r is Err && r->Err_0@ == e,
            },
    {
        let schema_version = match read_version(fields.schema_version) {
            Ok(v) => v,
            Err(e) => { return Err(e); },
        };
        let id = match read_text(fields.id, "id") {
            Ok(v) => v,
            Err(e) => { return Err(e); },
        };
        let title = match read_text(fields.title, "title") {
            Ok(v) => v,
            Err(e) => { return Err(e); },
        };
        let description = match read_text(fields.description, "description") {
            Ok(v) => v,
            Err(e) => { return Err(e); },
        };
        let status = match read_status(fields.status) {
            Ok(v) => v,
            Err(e) => { return Err(e); },
        };
        let priority = match read_priority(fields.priority) {
            Ok(v) => v,
            Err(e) => { return Err(e); },
        };
        let issue_type = match read_issue_type(fields.issue_type) {
            Ok(v) => v,
            Err(e) => { return Err(e); },
        };
        let labels = match read_list(fields.labels, "labels") {
            Ok(v) => v,
            Err(e) => { return Err(e); },
        };
        let created_at = match read_signed(fields.created_at, "created_at") {
            Ok(v) => v,
            Err(e) => { return Err(e); },
        };
        let updated_at = match read_signed(fields.updated_at, "updated_at") {
            Ok(v) => v,
            Err(e) => { return Err(e); },
        };
        let lamport = match read_unsigned(fields.lamport, "lamport") {
            Ok(v) => v,
            Err(e) => { return Err(e); },
        };
        let editor = match read_text(fields.editor, "editor") {
            Ok(v) => v,
            Err(e) => { return Err(e); },
        };
        let claimed = match read_flag(fields.claimed, "claimed") {
            Ok(v) => v,
            Err(e) => { return Err(e); },
        };
        let claim_context = match read_optional_text(fields.claim_context, "claim_context") {
            Ok(v) => v,
            Err(e) => { return Err(e); },
        };
        let claimed_at = match read_optional_unsigned(fields.claimed_at, "claimed_at") {
            Ok(v) => v,
            Err(e) => { return Err(e); },
        };
        let reason = match read_optional_text(fields.reason, "reason") {
            Ok(v) => v,
            Err(e) => { return Err(e); },
        };
        Ok(
            Issue {
                schema_version,
                id,
                title,
                description,
                status,
                priority,
                issue_type,
                labels,
                created_at,
                updated_at,
                lamport,
                editor,
                claimed,
                claim_context,
                claimed_at,
                reason,
            },
        )
    }

    /// Reads an issue from the text of its record.
    pub fn from_json(data: &[u8]) -> (r: Result<Issue, Error>)
        ensures
            match json_of(data@) {
                Err(text) => r is Err && r->Err_0@ == ErrorView::Json(text),
                Ok(v) => match issue_of_fields(issue_fields_in(members_of(v))) {
                    Ok(x) => r is Ok && r->Ok_0@ == x,
                    Err(e) => r is Err && r->Err_0@ == e,
                },
            },
    {
        let parsed = match parse(data) {
            Ok(p) => p,
            Err(e) => { return Err(e); },
        };
        let fields = IssueFields {
            schema_version: parsed.member("schema_version"),
            id: parsed.member("id"),
            title: parsed.member("title"),
            description: parsed.member("description"),
            status: parsed.member("status"),
            priority: parsed.member("priority"),
            issue_type: parsed.member("issue_type"),
            labels: parsed.member("labels"),
            created_at: parsed.member("created_at"),
            updated_at: parsed.member("updated_at"),
            lamport: parsed.member("lamport"),
            editor: parsed.member("editor"),
            claimed: parsed.member("claimed"),
            claim_context: parsed.member("claim_context"),
            claimed_at: parsed.member("claimed_at"),
            reason: parsed.member("reason"),
        };
        Issue::from_fields(fields)
    }

    /// The members of the record of this issue.
    pub fn to_fields(&self) -> (r: IssueFields)
        ensures
            r@ == fields_of_issue(self@),
    {
        IssueFields {
            schema_version: unsigned_as_field(self.schema_version as u64),
            id: Field::Text(self.id.clone()),
            title: Field::Text(self.title.clone()),
            description: Field::Text(self.description.clone()),
            status: Field::Text(owned(self.status.as_str())),
            priority: unsigned_as_field(self.priority.rank() as u64),
            issue_type: Field::Text(owned(self.issue_type.as_str())),
            labels: list_as_field(&self.labels),
            created_at: signed_as_field(self.created_at),
            updated_at: signed_as_field(self.updated_at),
            lamport: unsigned_as_field(self.lamport),
            editor: Field::Text(self.editor.clone()),
            claimed: Field::Flag(self.claimed),
            claim_context: optional_text_as_field(&self.claim_context),
            claimed_at: optional_unsigned_as_field(self.claimed_at),
            reason: optional_text_as_field(&self.reason),
        }
    }
}

impl Edge {
    /// Reads an edge from the members of its record. A record of another
    /// schema version is a mismatch, whatever else it holds; a member that is
    /// missing, of the wrong type or out of range is reported as malformed.
    pub fn from_fields(fields: EdgeFields) -> (r: Result<Edge, Error>)
        ensures
            match edge_of_fields(fields@) {
                Ok(x) => r is Ok && r->Ok_0@ == x,
                Err(e) => r is Err && r->Err_0@ == e,
            },
    {
        let schema_version = match read_version(fields.schema_version) {
            Ok(v) => v,
            Err(e) => { return Err(e); },
        };
        let source = match read_text(fields.source, "source") {
            Ok(v) => v,
            Err(e) => { return Err(e); },
        };
        let target = match read_text(fields.target, "target") {
            Ok(v) => v,
            Err(e) => { return Err(e); },
        };
        let edge_type = match read_edge_type(fields.edge_type) {
            Ok(v) => v,
            Err(e) => { return Err(e); },
        };
        let created_at = match read_signed(fields.created_at, "created_at") {
            Ok(v) => v,
            Err(e) => { return Err(e); },
        };
        Ok(
            Edge {
                schema_version,
                source,
                target,
                edge_type,
                created_at,
            },
        )
    }

    /// Reads an edge from the text of its record.
    pub fn from_json(data: &[u8]) -> (r: Result<Edge, Error>)
        ensures
            match json_of(data@) {
                Err(text) => r is Err && r->Err_0@ == ErrorView::Json(text),
                Ok(v) => match edge_of_fields(edge_fields_in(members_of(v))) {
                    Ok(x) => r is Ok && r->Ok_0@ == x,
                    Err(e) => r is Err && r->Err_0@ == e,
                },
            },
    {
        let parsed = match parse(data) {
            Ok(p) => p,
            Err(e) => { return Err(e); },
        };
        let fields = EdgeFields {
            schema_version: parsed.member("schema_version"),
            source: parsed.member("source"),
            target: parsed.member("target"),
            edge_type: parsed.member("edge_type"),
            created_at: parsed.member("created_at"),
        };
        Edge::from_fields(fields)
    }

    /// The members of the record of this edge.
    pub fn to_fields(&self) -> (r: EdgeFields)
        ensures
            r@ == fields_of_edge(self@),
    {
        EdgeFields {
            schema_version: unsigned_as_field(self.schema_version as u64),
            source: Field::Text(self.source.clone()),
            target: Field::Text(self.target.clone()),
            edge_type: Field::Text(owned(self.edge_type.as_str())),
            created_at: signed_as_field(self.created_at),
        }
    }
}

/// Writes the record of an issue: the bytes of its text.
pub fn serialize_issue(issue: &Issue) -> (r: Result<Vec<u8>, Error>)
    ensures
        bytes_written(r) == as_bytes(issue_json(issue@)),
{
    let a: Result<String, Error> = Ok(String::new());
    let a = put(a, "{\"schema_version\":");
    let a = put_unsigned(a, issue.schema_version as u64);
    let a = put(a, ",\"id\":");
    let a = put_string(a, issue.id.as_str());
    let a = put(a, ",\"title\":");
    let a = put_string(a, issue.title.as_str());
    let a = put(a, ",\"description\":");
    let a = put_string(a, issue.description.as_str());
    let a = put(a, ",\"status\":");
    let a = put_string(a, issue.status.as_str());
    let a = put(a, ",\"priority\":");
    let a = put_unsigned(a, issue.priority.rank() as u64);
    let a = put(a, ",\"issue_type\":");
    let a = put_string(a, issue.issue_type.as_str());
    let a = put(a, ",\"labels\":");
    let a = put_list(a, &issue.labels);
    let a = put(a, ",\"created_at\":");
    let a = put_signed(a, issue.created_at);
    let a = put(a, ",\"updated_at\":");
    let a = put_signed(a, issue.updated_at);
    let a = put(a, ",\"lamport\":");
    let a = put_unsigned(a, issue.lamport);
    let a = put(a, ",\"editor\":");
    let a = put_string(a, issue.editor.as_str());
    let a = put(a, ",\"claimed\":");
    let a = put(a, if issue.claimed { "true" } else { "false" });
    let a = put(a, ",\"claim_context\":");
    let a = put_optional_string(a, &issue.claim_context);
    let a = put(a, ",\"claimed_at\":");
    let a = put_optional_unsigned(a, issue.claimed_at);
    let a = put(a, ",\"reason\":");
    let a = put_optional_string(a, &issue.reason);
    let a = put(a, "}");
    finish(a)
}

/// Writes the record of an edge: the bytes of its text.
pub fn serialize_edge(edge: &Edge) -> (r: Result<Vec<u8>, Error>)
    ensures
        bytes_written(r) == as_bytes(edge_json(edge@)),
{
    let a: Result<String, Error> = Ok(String::new());
    let a = put(a, "{\"schema_version\":");
    let a = put_unsigned(a, edge.schema_version as u64);
    let a = put(a, ",\"source\":");
    let a = put_string(a, edge.source.as_str());
    let a = put(a, ",\"target\":");
    let a = put_string(a, edge.target.as_str());
    let a = put(a, ",\"edge_type\":");
    let a = put_string(a, edge.edge_type.as_str());
    let a = put(a, ",\"created_at\":");
    let a = put_signed(a, edge.created_at);
    let a = put(a, "}");
    finish(a)
}

/// A record that is read has the engine's schema version: a record of
/// another version fails to parse.
pub proof fn lemma_read_record_has_version(f: IssueFieldsView, g: EdgeFieldsView)
    ensures
        issue_of_fields(f) is Ok ==> issue_of_fields(f)->Ok_0.schema_version == SCHEMA_VERSION,
        edge_of_fields(g) is Ok ==> edge_of_fields(g)->Ok_0.schema_version == SCHEMA_VERSION,
        stated_version(f.schema_version) != SCHEMA_VERSION ==> issue_of_fields(f)
            == Err::<IssueView, ErrorView>(
            ErrorView::SchemaMismatch {
                expected: SCHEMA_VERSION,
                found: stated_version(f.schema_version),
            },
        ),
        stated_version(g.schema_version) != SCHEMA_VERSION ==> edge_of_fields(g)
            == Err::<EdgeView, ErrorView>(
            ErrorView::SchemaMismatch {
                expected: SCHEMA_VERSION,
                found: stated_version(g.schema_version),
            },
        ),
{
    lemma_version_read(f.schema_version);
    lemma_version_read(g.schema_version);
}

/// A version that passes the schema check is the engine's.
pub proof fn lemma_version_read(f: FieldView)
    ensures
        version_in(f) is Ok ==> version_in(f)->Ok_0 == SCHEMA_VERSION,
{
    if version_in(f) is Ok {
        let x = f->Number_0->Some_0;
        assert(x <= u32::MAX);
        assert(low_32(x) == x);
    }
}

/// The members of an issue of the engine's schema version read back as the
/// issue.
pub proof fn lemma_issue_fields_round_trip(x: IssueView)
    requires
        x.schema_version == SCHEMA_VERSION,
    ensures
        issue_of_fields(fields_of_issue(x)) == Ok::<IssueView, ErrorView>(x),
{
    lemma_status_reads_back(x.status);
    lemma_issue_type_reads_back(x.issue_type);
    lemma_rank_reads_back(x.priority);
    lemma_fields_read_back(
        x.id,
        x.lamport,
        x.created_at,
        x.claimed,
        x.labels,
        x.claim_context,
        x.claimed_at,
        "id"@,
    );
    lemma_fields_read_back(
        x.title,
        x.schema_version as u64,
        x.updated_at,
        x.claimed,
        x.labels,
        x.reason,
        x.claimed_at,
        "labels"@,
    );
    lemma_fields_read_back(
        x.description,
        priority_rank(x.priority) as u64,
        x.updated_at,
        x.claimed,
        x.labels,
        x.reason,
        x.claimed_at,
        "reason"@,
    );
    assert(low_32(1) == 1);
}

/// The members of an edge of the engine's schema version read back as the
/// edge.
pub proof fn lemma_edge_fields_round_trip(e: EdgeView)
    requires
        e.schema_version == SCHEMA_VERSION,
    ensures
        edge_of_fields(fields_of_edge(e)) == Ok::<EdgeView, ErrorView>(e),
{
    lemma_edge_type_reads_back(e.edge_type);
    assert(low_32(1) == 1);
}

} // verus!
