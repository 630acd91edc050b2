//! What holds of every run of the engine: whatever operations are carried
//! out, in whatever order, the directed edges stay acyclic, the logical
//! clock of an identifier never falls, and the snapshot stays well formed.

use vstd::prelude::*;
use crate::commands::create::{create_plan, fresh_id, priority_or_default, type_or_default};
use crate::commands::list::type_filter;
use crate::commands::update::priority_change;
use crate::id::lemma_first_free_has_prefix;
use crate::query::{listing, ordered, place};
use crate::types::Status;
use crate::commands::dep::{add_plan, lemma_remove_keeps_acyclic, new_edge, refusal};
use crate::engine::{bumpable, lets_through, mutated, mutation_result};
use crate::id::lemma_first_free_is_new;
use crate::resolve::lemma_match_is_present;
use crate::snapshot::{
    edges_versioned, ids_of, issue_pos, issues_versioned, lemma_with_edge_versioned,
    lemma_with_issue_versioned, lemma_without_edge_versioned, versioned, StoreView,
};
use crate::dag::{
    acyclic,
    lemma_admitted_edge_keeps_acyclic,
    lemma_closes_cycle_by_triple,
    lemma_empty_acyclic,
    proposed,
    Node,
};
use crate::engine::{outcome, MutationView};
use crate::merge::{
    lemma_selected_edges_versioned, lemma_selected_issues_versioned, lemma_with_edges_versioned,
    lemma_with_issues_versioned, merged, selected_edges, selected_issues,
};
use crate::merge_laws::{
    all_issues, lemma_merge_keeps, lemma_with_issue_keeps,
    lemma_lookup_with_issue,
    lemma_merge_keeps_acyclic,
    lemma_merge_keeps_wf,
    lemma_merge_lamport_rises,
};
use crate::snapshot::{
    empty_snapshot,
    has_issue,
    lemma_edge_pos,
    lemma_issue_pos,
    lemma_with_edge_unique,
    lemma_with_issue_unique,
    lemma_without_edge_unique,
    lookup,
    with_edge,
    with_issue,
    without_edge,
    SnapshotView,
};
use crate::types::{EdgeType, EdgeView, IssueView, SCHEMA_VERSION};

verus! {

/// One operation of the engine, as it acts on a snapshot.
pub enum Operation {
    /// A new issue is written.
    Create(IssueView),
    /// The issue with the given identifier is claimed, released, closed,
    /// reopened or updated, at a time and by an editor.
    Mutate(Node, MutationView, i64, Seq<char>),
    /// An edge is added.
    AddEdge(EdgeView),
    /// The edge from a source to a target of a type is removed.
    RemoveEdge(Node, Node, EdgeType),
    /// Incoming issues and edges are merged in, by an import or a pull.
    Merge(Seq<IssueView>, Seq<EdgeView>),
}

/// True when the engine carries the operation out on the snapshot: a new
/// issue has a new identifier, a mutation finds its issue in the right
/// state and with room on its clock, and an edge passes the admission
/// rules. Removing and merging are always carried out.
pub open spec fn permitted(op: Operation, s: SnapshotView) -> bool {
    match op {
        Operation::Create(x) => !has_issue(s.issues, x.id),
        Operation::Mutate(id, m, now, editor) => {
            &&& lookup(s.issues, id) is Some
            &&& lookup(s.issues, id)->Some_0.lamport < u64::MAX
            &&& outcome(lookup(s.issues, id)->Some_0, m, now, editor) is Ok
        },
        Operation::AddEdge(e) => refusal(s.edges, e.source, e.target, e.edge_type) is None,
        Operation::RemoveEdge(_, _, _) => true,
        Operation::Merge(_, _) => true,
    }
}

/// The snapshot after an operation.
pub open spec fn applied(op: Operation, s: SnapshotView) -> SnapshotView {
    match op {
        Operation::Create(x) => SnapshotView { issues: s.issues.push(x), edges: s.edges },
        Operation::Mutate(id, m, now, editor) => SnapshotView {
            issues: with_issue(
                s.issues,
                outcome(lookup(s.issues, id)->Some_0, m, now, editor)->Ok_0,
            ),
            edges: s.edges,
        },
        Operation::AddEdge(e) => SnapshotView { issues: s.issues, edges: s.edges.push(e) },
        Operation::RemoveEdge(source, target, edge_type) => SnapshotView {
            issues: s.issues,
            edges: without_edge(s.edges, source, target, edge_type),
        },
        Operation::Merge(issues, edges) => merged(s, issues, edges),
    }
}

/// True when each operation of `ops` is carried out on the snapshot that
/// the operations before it have made of `s`.
pub open spec fn runs(ops: Seq<Operation>, s: SnapshotView) -> bool
    decreases ops.len(),
{
    if ops.len() == 0 {
        true
    } else {
        runs(ops.drop_last(), s) && permitted(ops.last(), after(ops.drop_last(), s))
    }
}

/// The snapshot after a sequence of operations.
pub open spec fn after(ops: Seq<Operation>, s: SnapshotView) -> SnapshotView
    decreases ops.len(),
{
    if ops.len() == 0 {
        s
    } else {
        applied(ops.last(), after(ops.drop_last(), s))
    }
}

/// One operation keeps the directed edges acyclic.
pub proof fn lemma_step_keeps_acyclic(op: Operation, s: SnapshotView)
    requires
        permitted(op, s),
        acyclic(s.edges),
    ensures
        acyclic(applied(op, s).edges),
{
    match op {
        Operation::Create(_) => {},
        Operation::Mutate(_, _, _, _) => {},
        Operation::AddEdge(e) => {
            lemma_closes_cycle_by_triple(s.edges, proposed(e.source, e.target, e.edge_type), e);
            lemma_admitted_edge_keeps_acyclic(s.edges, e);
        },
        Operation::RemoveEdge(source, target, edge_type) => {
            lemma_remove_keeps_acyclic(s.edges, source, target, edge_type);
        },
        Operation::Merge(issues, edges) => {
            lemma_merge_keeps_acyclic(s, issues, edges);
        },
    }
}

/// One operation keeps a snapshot well formed.
pub proof fn lemma_step_keeps_wf(op: Operation, s: SnapshotView)
    requires
        permitted(op, s),
        s.wf(),
    ensures
        applied(op, s).wf(),
{
    match op {
        Operation::Create(x) => {
            lemma_issue_pos(s.issues, x.id);
            lemma_with_issue_unique(s.issues, x);
            assert(with_issue(s.issues, x) == s.issues.push(x));
        },
        Operation::Mutate(id, m, now, editor) => {
            lemma_with_issue_unique(
                s.issues,
                outcome(lookup(s.issues, id)->Some_0, m, now, editor)->Ok_0,
            );
        },
        Operation::AddEdge(e) => {
            lemma_edge_pos(s.edges, e.source, e.target, e.edge_type);
            lemma_with_edge_unique(s.edges, e);
            assert(with_edge(s.edges, e) == s.edges.push(e));
        },
        Operation::RemoveEdge(source, target, edge_type) => {
            lemma_without_edge_unique(s.edges, source, target, edge_type);
        },
        Operation::Merge(issues, edges) => {
            lemma_merge_keeps_wf(s, issues, edges);
        },
    }
}

/// One operation never lets the clock of an identifier fall: an issue of
/// the snapshot is still there afterwards, with a `lamport` that is no
/// smaller.
pub proof fn lemma_step_lamport_rises(op: Operation, s: SnapshotView, id: Node)
    requires
        permitted(op, s),
        s.issue(id) is Some,
    ensures
        applied(op, s).issue(id) is Some,
        applied(op, s).issue(id)->Some_0.lamport >= s.issue(id)->Some_0.lamport,
{
    match op {
        Operation::Create(x) => {
            lemma_issue_pos(s.issues, x.id);
            lemma_issue_pos(s.issues, id);
            assert(with_issue(s.issues, x) == s.issues.push(x));
            lemma_lookup_with_issue(s.issues, x, id);
        },
        Operation::Mutate(target, m, now, editor) => {
            lemma_issue_pos(s.issues, target);
            let x = lookup(s.issues, target)->Some_0;
            let y = outcome(x, m, now, editor)->Ok_0;
            assert(y.id == x.id);
            assert(y.lamport == x.lamport + 1);
            lemma_lookup_with_issue(s.issues, y, id);
        },
        Operation::AddEdge(_) => {},
        Operation::RemoveEdge(_, _, _) => {},
        Operation::Merge(issues, edges) => {
            lemma_merge_lamport_rises(s, issues, edges, id);
        },
    }
}

/// The snapshot that initialization writes is well formed and acyclic.
pub proof fn lemma_initial_snapshot()
    ensures
        empty_snapshot().wf(),
        acyclic(empty_snapshot().edges),
{
    lemma_empty_acyclic();
}

/// For any sequence of engine operations, the directed edges of the
/// resulting snapshot are acyclic and the snapshot is well formed.
pub proof fn lemma_run_keeps_acyclic(ops: Seq<Operation>, s: SnapshotView)
    requires
        runs(ops, s),
        s.wf(),
        acyclic(s.edges),
    ensures
        after(ops, s).wf(),
        acyclic(after(ops, s).edges),
    decreases ops.len(),
{
    if ops.len() > 0 {
        lemma_run_keeps_acyclic(ops.drop_last(), s);
        lemma_step_keeps_acyclic(ops.last(), after(ops.drop_last(), s));
        lemma_step_keeps_wf(ops.last(), after(ops.drop_last(), s));
    }
}

/// For any identifier, `lamport` never falls along a sequence of engine
/// operations: between any two points of the run, the later record of the
/// identifier has a clock that is no smaller.
pub proof fn lemma_run_lamport_rises(ops: Seq<Operation>, s: SnapshotView, cut: int, id: Node)
    requires
        runs(ops, s),
        0 <= cut <= ops.len(),
        after(ops.subrange(0, cut), s).issue(id) is Some,
    ensures
        after(ops, s).issue(id) is Some,
        after(ops, s).issue(id)->Some_0.lamport >= after(ops.subrange(0, cut), s).issue(
            id,
        )->Some_0.lamport,
    decreases ops.len(),
{
    if cut == ops.len() {
        assert(ops.subrange(0, cut) =~= ops);
    } else {
        assert(ops.drop_last().subrange(0, cut) =~= ops.subrange(0, cut));
        lemma_run_lamport_rises(ops.drop_last(), s, cut, id);
        lemma_step_lamport_rises(ops.last(), after(ops.drop_last(), s), id);
    }
}

/// A mutation that the engine commits is a permitted operation, and the
/// snapshot of its commit is the snapshot after that operation.
pub proof fn lemma_mutation_is_operation(
    store: StoreView,
    prefix: Seq<char>,
    m: MutationView,
    now: i64,
    editor: Seq<char>,
)
    requires
        bumpable(store, prefix, m),
        mutation_result(store, prefix, m, now, editor) is Ok,
    ensures
        ({
            let id = mutation_result(store, prefix, m, now, editor)->Ok_0;
            let op = Operation::Mutate(id, m, now, editor);
            &&& permitted(op, store.tip())
            &&& mutated(store, prefix, m, now, editor).tip() == applied(op, store.tip())
        }),
{
    let s = store.tip().issues;
    let id = mutation_result(store, prefix, m, now, editor)->Ok_0;
    lemma_match_is_present(ids_of(s), prefix, 0);
    let k = choose|k: int| 0 <= k < ids_of(s).len() && ids_of(s)[k] == id;
    assert(s[k].id == id);
    lemma_issue_pos(s, id);
    assert(lets_through(s[issue_pos(s, id)], m));
}

/// An edge that `add` commits is a permitted operation.
pub proof fn lemma_add_is_operation(
    store: StoreView,
    source: Seq<char>,
    choice: Option<(Seq<char>, EdgeType)>,
    now: i64,
)
    requires
        add_plan(store, source, choice) is Ok,
    ensures
        ({
            let (s, t, ty) = add_plan(store, source, choice)->Ok_0;
            permitted(Operation::AddEdge(new_edge(s, t, ty, now)), store.tip())
        }),
{
}

/// An issue that `create` commits is a permitted operation: its identifier
/// is new to the snapshot.
pub proof fn lemma_create_is_operation(
    store: StoreView,
    title: Seq<char>,
    description: Option<Seq<char>>,
    priority: Option<Seq<char>>,
    issue_type: Option<Seq<char>>,
    labels: Seq<Seq<char>>,
    now: i64,
    editor: Seq<char>,
)
    requires
        fresh_id(store, title, description, now, editor) is Some,
        create_plan(store, title, description, priority, issue_type, labels, now, editor) is Ok,
    ensures
        permitted(
            Operation::Create(
                create_plan(
                    store,
                    title,
                    description,
                    priority,
                    issue_type,
                    labels,
                    now,
                    editor,
                )->Ok_0,
            ),
            store.tip(),
        ),
{
    let s = store.tip().issues;
    let id = fresh_id(store, title, description, now, editor)->Some_0;
    lemma_first_free_is_new(
        title,
        crate::commands::create::description_or_empty(description),
        editor,
        now,
        ids_of(s),
        4,
    );
    if has_issue(s, id) {
        let k = choose|k: int| 0 <= k < s.len() && (#[trigger] s[k]).id == id;
        assert(ids_of(s)[k] == id);
    }
}

/// True of an issue that was not updated before it was created.
pub open spec fn timely_issue(x: IssueView) -> bool {
    x.created_at <= x.updated_at
}

/// True when no issue of the snapshot was updated before it was created.
pub open spec fn timely(s: SnapshotView) -> bool {
    all_issues(s.issues, |x: IssueView| timely_issue(x))
}

/// True when the operation brings only records of the engine's schema
/// version into the snapshot. The engine's own records are such: a created
/// issue, an added edge, and every record that was read from its text.
pub open spec fn brings_versioned(op: Operation) -> bool {
    match op {
        Operation::Create(x) => x.schema_version == SCHEMA_VERSION,
        Operation::Mutate(_, _, _, _) => true,
        Operation::AddEdge(e) => e.schema_version == SCHEMA_VERSION,
        Operation::RemoveEdge(_, _, _) => true,
        Operation::Merge(issues, edges) => issues_versioned(issues) && edges_versioned(edges),
    }
}

/// True when the operation keeps time in order: a record that it brings
/// was not updated before it was created, and a mutation happens at a time
/// that is not before the creation of its issue.
pub open spec fn keeps_time(op: Operation, s: SnapshotView) -> bool {
    match op {
        Operation::Create(x) => timely_issue(x),
        Operation::Mutate(id, _, now, _) => lookup(s.issues, id) is Some ==> lookup(
            s.issues,
            id,
        )->Some_0.created_at <= now,
        Operation::AddEdge(_) => true,
        Operation::RemoveEdge(_, _, _) => true,
        Operation::Merge(issues, _) => all_issues(issues, |x: IssueView| timely_issue(x)),
    }
}

/// True when each operation of `ops` brings only records of the engine's
/// schema version.
pub open spec fn run_brings_versioned(ops: Seq<Operation>) -> bool {
    forall|k: int| 0 <= k < ops.len() ==> brings_versioned(#[trigger] ops[k])
}

/// True when each operation of `ops` keeps time in order on the snapshot
/// that the operations before it have made of `s`.
pub open spec fn run_keeps_time(ops: Seq<Operation>, s: SnapshotView) -> bool
    decreases ops.len(),
{
    if ops.len() == 0 {
        true
    } else {
        run_keeps_time(ops.drop_last(), s) && keeps_time(ops.last(), after(ops.drop_last(), s))
    }
}

/// One operation keeps the schema version of every record: where the
/// snapshot holds only records of the engine's version and the operation
/// brings only such, the snapshot afterwards holds only such.
pub proof fn lemma_step_keeps_versions(op: Operation, s: SnapshotView)
    requires
        permitted(op, s),
        brings_versioned(op),
        versioned(s),
    ensures
        versioned(applied(op, s)),
{
    match op {
        Operation::Create(x) => {
            lemma_issue_pos(s.issues, x.id);
            lemma_with_issue_versioned(s.issues, x);
            assert(with_issue(s.issues, x) == s.issues.push(x));
        },
        Operation::Mutate(id, m, now, editor) => {
            lemma_issue_pos(s.issues, id);
            let x = lookup(s.issues, id)->Some_0;
            assert(s.issues[issue_pos(s.issues, id)].schema_version == SCHEMA_VERSION);
            let y = outcome(x, m, now, editor)->Ok_0;
            assert(y.schema_version == x.schema_version);
            lemma_with_issue_versioned(s.issues, y);
        },
        Operation::AddEdge(e) => {
            lemma_edge_pos(s.edges, e.source, e.target, e.edge_type);
            lemma_with_edge_versioned(s.edges, e);
            assert(with_edge(s.edges, e) == s.edges.push(e));
        },
        Operation::RemoveEdge(source, target, edge_type) => {
            lemma_without_edge_versioned(s.edges, source, target, edge_type);
        },
        Operation::Merge(issues, edges) => {
            lemma_selected_issues_versioned(s.issues, issues);
            lemma_with_issues_versioned(s.issues, selected_issues(s.issues, issues));
            lemma_selected_edges_versioned(s.edges, edges);
            lemma_with_edges_versioned(s.edges, selected_edges(s.edges, edges));
        },
    }
}

/// One operation keeps time in order: where no issue of the snapshot was
/// updated before it was created and the operation keeps time, no issue of
/// the snapshot afterwards was.
pub proof fn lemma_step_keeps_time(op: Operation, s: SnapshotView)
    requires
        permitted(op, s),
        keeps_time(op, s),
        timely(s),
    ensures
        timely(applied(op, s)),
{
    let p = |x: IssueView| timely_issue(x);
    let q = |e: EdgeView| true;
    match op {
        Operation::Create(x) => {
            lemma_issue_pos(s.issues, x.id);
            lemma_with_issue_keeps(s.issues, x, p);
            assert(with_issue(s.issues, x) == s.issues.push(x));
        },
        Operation::Mutate(id, m, now, editor) => {
            let x = lookup(s.issues, id)->Some_0;
            let y = outcome(x, m, now, editor)->Ok_0;
            assert(y.created_at == x.created_at && y.updated_at == now);
            lemma_with_issue_keeps(s.issues, y, p);
        },
        Operation::AddEdge(_) => {},
        Operation::RemoveEdge(_, _, _) => {},
        Operation::Merge(issues, edges) => {
            lemma_merge_keeps(s, issues, edges, p, q);
        },
    }
}

/// For any sequence of engine operations that bring only records of the
/// engine's schema version, every record of the resulting snapshot has that
/// version.
pub proof fn lemma_run_keeps_versions(ops: Seq<Operation>, s: SnapshotView)
    requires
        runs(ops, s),
        run_brings_versioned(ops),
        versioned(s),
    ensures
        versioned(after(ops, s)),
    decreases ops.len(),
{
    if ops.len() > 0 {
        assert forall|k: int| 0 <= k < ops.drop_last().len() implies brings_versioned(
            #[trigger] ops.drop_last()[k],
        ) by {
            assert(ops.drop_last()[k] == ops[k]);
        }
        lemma_run_keeps_versions(ops.drop_last(), s);
        assert(brings_versioned(ops[ops.len() - 1]));
        lemma_step_keeps_versions(ops.last(), after(ops.drop_last(), s));
    }
}

/// For any sequence of engine operations that keep time in order, no issue
/// of the resulting snapshot was updated before it was created.
pub proof fn lemma_run_keeps_time(ops: Seq<Operation>, s: SnapshotView)
    requires
        runs(ops, s),
        run_keeps_time(ops, s),
        timely(s),
    ensures
        timely(after(ops, s)),
    decreases ops.len(),
{
    if ops.len() > 0 {
        lemma_run_keeps_time(ops.drop_last(), s);
        lemma_step_keeps_time(ops.last(), after(ops.drop_last(), s));
    }
}

/// What the engine writes of its own is of its schema version and in time
/// order: the issue of `create`, and the edge of `add`.
pub proof fn lemma_own_records_are_sound(
    id: Seq<char>,
    title: Seq<char>,
    description: Seq<char>,
    priority: crate::types::Priority,
    issue_type: crate::types::IssueType,
    labels: Seq<Seq<char>>,
    source: Node,
    target: Node,
    edge_type: EdgeType,
    now: i64,
    editor: Seq<char>,
)
    ensures
        crate::lifecycle::created(
            id,
            title,
            description,
            priority,
            issue_type,
            labels,
            now,
            editor,
        ).schema_version == SCHEMA_VERSION,
        timely_issue(
            crate::lifecycle::created(
                id,
                title,
                description,
                priority,
                issue_type,
                labels,
                now,
                editor,
            ),
        ),
        new_edge(source, target, edge_type, now).schema_version == SCHEMA_VERSION,
{
}

/// The snapshot that initialization writes holds no record, so none of
/// another version and none out of time order.
pub proof fn lemma_initial_snapshot_is_sound()
    ensures
        versioned(empty_snapshot()),
        timely(empty_snapshot()),
{
}

/// Create, then list: in a store that holds no issue yet, the issue that
/// `create` commits is the one row of the listing without filters. Its
/// identifier begins with `st-`; it is open and unclaimed, with its clock
/// at 1; it has the title that was given, and the priority and the type
/// that the given words name.
pub proof fn lemma_create_then_list(
    store: StoreView,
    title: Seq<char>,
    description: Option<Seq<char>>,
    priority: Option<Seq<char>>,
    issue_type: Option<Seq<char>>,
    labels: Seq<Seq<char>>,
    now: i64,
    editor: Seq<char>,
)
    requires
        store.initialized(),
        store.tip().issues.len() == 0,
        fresh_id(store, title, description, now, editor) is Some,
        create_plan(store, title, description, priority, issue_type, labels, now, editor) is Ok,
    ensures
        ({
            let x = create_plan(
                store,
                title,
                description,
                priority,
                issue_type,
                labels,
                now,
                editor,
            )->Ok_0;
            &&& listing(store.tip().issues.push(x), None, None) == seq![x]
            &&& "st-"@.is_prefix_of(x.id)
            &&& x.title == title
            &&& x.status == Status::Open
            &&& !x.claimed
            &&& x.lamport == 1
            &&& x.priority == priority_or_default(priority_change(priority)->Ok_0)
            &&& x.issue_type == type_or_default(type_filter(issue_type)->Ok_0)
        }),
{
    let x = create_plan(store, title, description, priority, issue_type, labels, now, editor)->Ok_0;
    lemma_first_free_has_prefix(
        title,
        crate::commands::create::description_or_empty(description),
        editor,
        now,
        ids_of(store.tip().issues),
        4,
    );
    let rows = store.tip().issues.push(x);
    let pred = |i: IssueView| crate::query::listed(i, None, None);
    assert(rows =~= seq![x]);
    assert(rows.filter(pred) =~= seq![x]) by {
        reveal(Seq::filter);
        assert(rows.drop_last() =~= Seq::<IssueView>::empty());
        assert(rows.drop_last().filter(pred) =~= Seq::<IssueView>::empty());
        assert(pred(rows.last()));
    }
    assert(ordered(seq![x]) =~= seq![x]) by {
        let one = seq![x];
        assert(one.drop_first() =~= Seq::<IssueView>::empty());
        assert(ordered(one.drop_first()) =~= Seq::<IssueView>::empty());
        assert(place(Seq::<IssueView>::empty(), x) == 0);
    }
}

/// The store after an issue is saved in an initialized store.
pub open spec fn issue_saved(store: StoreView, issue: IssueView, message: Seq<char>) -> StoreView {
    store.committed(
        message,
        SnapshotView { issues: with_issue(store.tip().issues, issue), edges: store.tip().edges },
    )
}

/// Two writers that take their turns, as the lock makes them do: both
/// commits stand on the chain in the order of the turns, and both issues
/// are in the final snapshot.
pub proof fn lemma_writers_in_turn(
    store: StoreView,
    first: IssueView,
    first_message: Seq<char>,
    second: IssueView,
    second_message: Seq<char>,
)
    requires
        store.initialized(),
        first.id != second.id,
    ensures
        ({
            let end = issue_saved(
                issue_saved(store, first, first_message),
                second,
                second_message,
            );
            let n = store.history.len() as int;
            &&& end.history.len() == n + 2
            &&& end.history.subrange(0, n) == store.history
            &&& end.history[n].message == first_message
            &&& end.history[n + 1].message == second_message
            &&& end.history[n].snapshot.issue(first.id) == Some(first)
            &&& end.tip().issue(first.id) == Some(first)
            &&& end.tip().issue(second.id) == Some(second)
        }),
{
    let mid = issue_saved(store, first, first_message);
    let end = issue_saved(mid, second, second_message);
    let n = store.history.len() as int;
    lemma_lookup_with_issue(store.tip().issues, first, first.id);
    lemma_lookup_with_issue(mid.tip().issues, second, first.id);
    lemma_lookup_with_issue(mid.tip().issues, second, second.id);
    assert(end.history.subrange(0, n) =~= store.history);
}

} // verus!
