//! The lifecycle of an issue: creation and the five mutations. Each
//! mutation changes its fields, then adds one to `lamport`, then sets
//! `updated_at` and the editor.

use vstd::prelude::*;
use crate::error::{Error, ErrorView};
use crate::text::{opt_view, views};
use crate::types::{Issue, IssueType, IssueView, Priority, Status, SCHEMA_VERSION};

verus! {

/// A time stamp as an unsigned number: itself where it is not negative, and
/// its two's complement where it is.
pub open spec fn unsigned_time(now: i64) -> u64 {
    if now >= 0 {
        now as u64
    } else {
        (now + 0x1_0000_0000_0000_0000) as u64
    }
}

/// The issue with one more on its clock, edited at `now` by `editor`.
pub open spec fn stamped(x: IssueView, now: i64, editor: Seq<char>) -> IssueView {
    IssueView { lamport: (x.lamport + 1) as u64, updated_at: now, editor, ..x }
}

/// The issue as `create` writes it.
pub open spec fn created(
    id: Seq<char>,
    title: Seq<char>,
    description: Seq<char>,
    priority: Priority,
    issue_type: IssueType,
    labels: Seq<Seq<char>>,
    now: i64,
    editor: Seq<char>,
) -> IssueView {
    IssueView {
        schema_version: SCHEMA_VERSION,
        id,
        title,
        description,
        status: Status::Open,
        priority,
        issue_type,
        labels,
        created_at: now,
        updated_at: now,
        lamport: 1,
        editor,
        claimed: false,
        claim_context: None,
        claimed_at: None,
        reason: None,
    }
}

/// The issue after a claim.
pub open spec fn after_claim(
    x: IssueView,
    context: Option<Seq<char>>,
    now: i64,
    editor: Seq<char>,
) -> IssueView {
    stamped(
        IssueView {
            claimed: true,
            status: Status::InProgress,
            claim_context: context,
            claimed_at: Some(unsigned_time(now)),
            ..x
        },
        now,
        editor,
    )
}

/// The issue after a release.
pub open spec fn after_release(
    x: IssueView,
    reason: Option<Seq<char>>,
    now: i64,
    editor: Seq<char>,
) -> IssueView {
    stamped(
        IssueView {
            claimed: false,
            status: Status::Open,
            claim_context: None,
            claimed_at: None,
            reason,
            ..x
        },
        now,
        editor,
    )
}

/// The issue after it is closed.
pub open spec fn after_close(
    x: IssueView,
    reason: Option<Seq<char>>,
    now: i64,
    editor: Seq<char>,
) -> IssueView {
    stamped(IssueView { status: Status::Closed, reason, ..x }, now, editor)
}

/// The issue after it is reopened.
pub open spec fn after_reopen(
    x: IssueView,
    reason: Option<Seq<char>>,
    now: i64,
    editor: Seq<char>,
) -> IssueView {
    stamped(IssueView { status: Status::Open, reason, ..x }, now, editor)
}

/// The fields that an update may set; `None` leaves a field as it is.
pub struct Changes {
    pub title: Option<String>,
    pub description: Option<String>,
    pub priority: Option<Priority>,
    pub issue_type: Option<IssueType>,
    pub labels: Option<Vec<String>>,
}

/// The changes of an update as a mathematical value.
pub struct ChangesView {
    pub title: Option<Seq<char>>,
    pub description: Option<Seq<char>>,
    pub priority: Option<Priority>,
    pub issue_type: Option<IssueType>,
    pub labels: Option<Seq<Seq<char>>>,
}

impl View for Changes {
    type V = ChangesView;

    open spec fn view(&self) -> ChangesView {
        ChangesView {
            title: opt_view(self.title),
            description: opt_view(self.description),
            priority: self.priority,
            issue_type: self.issue_type,
            labels: match self.labels {
                Some(l) => Some(views(l@)),
                None => None,
            },
        }
    }
}

/// The issue after an update.
pub open spec fn after_update(
    x: IssueView,
    c: ChangesView,
    now: i64,
    editor: Seq<char>,
) -> IssueView {
    stamped(
        IssueView {
            title: match c.title {
                Some(t) => t,
                None => x.title,
            },
            description: match c.description {
                Some(d) => d,
                None => x.description,
            },
            priority: match c.priority {
                Some(p) => p,
                None => x.priority,
            },
            issue_type: match c.issue_type {
                Some(t) => t,
                None => x.issue_type,
            },
            labels: match c.labels {
                Some(l) => l,
                None => x.labels,
            },
            ..x
        },
        now,
        editor,
    )
}

/// A time stamp as an unsigned number, as a cast keeps its bits.
pub fn time_bits(now: i64) -> (r: u64)
    ensures
        r == unsigned_time(now),
{
    if now >= 0 {
        now as u64
    } else {
        let back: i64 = -(now + 1);
        u64::MAX - (back as u64)
    }
}

impl Issue {
    /// A new issue: open, unclaimed, with its clock at 1 and both time
    /// stamps at `now`.
    pub fn create(
        id: String,
        title: String,
        description: String,
        priority: Priority,
        issue_type: IssueType,
        labels: Vec<String>,
        now: i64,
        editor: String,
    ) -> (r: Issue)
        ensures
            r@ == created(
                id@,
                title@,
                description@,
                priority,
                issue_type,
                views(labels@),
                now,
                editor@,
            ),
    {
        Issue {
            schema_version: SCHEMA_VERSION,
            id,
            title,
            description,
            status: Status::Open,
            priority,
            issue_type,
            labels,
            created_at: now,
            updated_at: now,
            lamport: 1,
            editor,
            claimed: false,
            claim_context: None,
            claimed_at: None,
            reason: None,
        }
    }

    /// The end of every mutation: one more on the clock, then the time
    /// stamp, then the editor.
    fn stamp(&mut self, now: i64, editor: String)
        requires
            old(self).lamport < u64::MAX,
        ensures
            final(self)@ == stamped(old(self)@, now, editor@),
    {
        self.lamport = self.lamport + 1;
        self.updated_at = now;
        self.editor = editor;
    }

    /// Claims the issue. An issue that is claimed already, or closed, is
    /// left as it is and the claim is refused.
    pub fn claim(
        &mut self,
        context: Option<String>,
        now: i64,
        editor: String,
    ) -> (r: Result<(), Error>)
        requires
            !old(self).claimed && old(self).status != Status::Closed ==> old(self).lamport
                < u64::MAX,
        ensures
            old(self).claimed ==> r is Err && r->Err_0@ == ErrorView::AlreadyClaimed(old(self).id@)
                && final(self)@ == old(self)@,
            !old(self).claimed && old(self).status == Status::Closed ==> r is Err && r->Err_0@
                == ErrorView::IsClosed(old(self).id@) && final(self)@ == old(self)@,
            !old(self).claimed && old(self).status != Status::Closed ==> r is Ok && final(self)@
                == after_claim(old(self)@, opt_view(context), now, editor@),
    {
        if self.claimed {
            return Err(Error::AlreadyClaimed(self.id.clone()));
        }
        if self.status == Status::Closed {
            return Err(Error::IsClosed(self.id.clone()));
        }
        self.claimed = true;
        self.status = Status::InProgress;
        self.claim_context = context;
        self.claimed_at = Some(time_bits(now));
        self.stamp(now, editor);
        Ok(())
    }

    /// Releases a claimed issue back to open. An issue that is not claimed
    /// is left as it is and the release is refused.
    pub fn release(
        &mut self,
        reason: Option<String>,
        now: i64,
        editor: String,
    ) -> (r: Result<(), Error>)
        requires
            old(self).claimed ==> old(self).lamport < u64::MAX,
        ensures
            !old(self).claimed ==> r is Err && r->Err_0@ == ErrorView::NotClaimed(old(self).id@)
                && final(self)@ == old(self)@,
            old(self).claimed ==> r is Ok && final(self)@ == after_release(
                old(self)@,
                opt_view(reason),
                now,
                editor@,
            ),
    {
        if !self.claimed {
            return Err(Error::NotClaimed(self.id.clone()));
        }
        self.claimed = false;
        self.status = Status::Open;
        self.claim_context = None;
        self.claimed_at = None;
        self.reason = reason;
        self.stamp(now, editor);
        Ok(())
    }

    /// Closes the issue. An issue that is closed already is left as it is
    /// and the request is refused.
    pub fn close(
        &mut self,
        reason: Option<String>,
        now: i64,
        editor: String,
    ) -> (r: Result<(), Error>)
        requires
            old(self).status != Status::Closed ==> old(self).lamport < u64::MAX,
        ensures
            old(self).status == Status::Closed ==> r is Err && r->Err_0@
                == ErrorView::AlreadyClosed(old(self).id@) && final(self)@ == old(self)@,
            old(self).status != Status::Closed ==> r is Ok && final(self)@ == after_close(
                old(self)@,
                opt_view(reason),
                now,
                editor@,
            ),
    {
        if self.status == Status::Closed {
            return Err(Error::AlreadyClosed(self.id.clone()));
        }
        self.status = Status::Closed;
        self.reason = reason;
        self.stamp(now, editor);
        Ok(())
    }

    /// Reopens a closed issue. An issue that is not closed is left as it is
    /// and the request is refused.
    pub fn reopen(
        &mut self,
        reason: Option<String>,
        now: i64,
        editor: String,
    ) -> (r: Result<(), Error>)
        requires
            old(self).status == Status::Closed ==> old(self).lamport < u64::MAX,
        ensures
            old(self).status != Status::Closed ==> r is Err && r->Err_0@ == ErrorView::NotClosed(
                old(self).id@,
            ) && final(self)@ == old(self)@,
            old(self).status == Status::Closed ==> r is Ok && final(self)@ == after_reopen(
                old(self)@,
                opt_view(reason),
                now,
                editor@,
            ),
    {
        if self.status != Status::Closed {
            return Err(Error::NotClosed(self.id.clone()));
        }
        self.status = Status::Open;
        self.reason = reason;
        self.stamp(now, editor);
        Ok(())
    }

    /// Sets the fields that `changes` names and stamps the issue once,
    /// however many fields change.
    pub fn update(&mut self, changes: Changes, now: i64, editor: String)
        requires
            old(self).lamport < u64::MAX,
        ensures
            final(self)@ == after_update(old(self)@, changes@, now, editor@),
    {
        let Changes { title, description, priority, issue_type, labels } = changes;
        if let Some(t) = title {
            self.title = t;
        }
        if let Some(d) = description {
            self.description = d;
        }
        if let Some(p) = priority {
            self.priority = p;
        }
        if let Some(t) = issue_type {
            self.issue_type = t;
        }
        if let Some(l) = labels {
            self.labels = l;
        }
        self.stamp(now, editor);
    }
}

/// A mutation at a time that is not before the creation leaves the issue
/// with `updated_at` no earlier than `created_at`, and never moves the
/// creation time or the identifier.
pub proof fn lemma_times_stay_ordered(
    x: IssueView,
    context: Option<Seq<char>>,
    reason: Option<Seq<char>>,
    c: ChangesView,
    now: i64,
    editor: Seq<char>,
)
    requires
        x.created_at <= now,
    ensures
        after_claim(x, context, now, editor).created_at <= after_claim(
            x,
            context,
            now,
            editor,
        ).updated_at,
        after_release(x, reason, now, editor).created_at <= after_release(
            x,
            reason,
            now,
            editor,
        ).updated_at,
        after_close(x, reason, now, editor).created_at <= after_close(
            x,
            reason,
            now,
            editor,
        ).updated_at,
        after_reopen(x, reason, now, editor).created_at <= after_reopen(
            x,
            reason,
            now,
            editor,
        ).updated_at,
        after_update(x, c, now, editor).created_at <= after_update(x, c, now, editor).updated_at,
        after_claim(x, context, now, editor).id == x.id,
        after_release(x, reason, now, editor).id == x.id,
        after_close(x, reason, now, editor).id == x.id,
        after_reopen(x, reason, now, editor).id == x.id,
        after_update(x, c, now, editor).id == x.id,
{
}

/// The life of a claim: a new issue that is claimed and then released. The
/// claim makes it claimed and in progress, with the context and the time of
/// the claim and with its clock at 2; the release makes it open and
/// unclaimed again, with the reason and with its clock at 3. Nothing else
/// of the issue changes but the time stamp and the editor, and `updated_at`
/// never falls behind `created_at` where time does not run backwards.
pub proof fn lemma_claim_then_release(
    x: IssueView,
    context: Option<Seq<char>>,
    reason: Option<Seq<char>>,
    claimed_time: i64,
    claimer: Seq<char>,
    released_time: i64,
    releaser: Seq<char>,
)
    requires
        x.status == Status::Open,
        !x.claimed,
        x.lamport == 1,
        x.created_at <= claimed_time <= released_time,
    ensures
        ({
            let a = after_claim(x, context, claimed_time, claimer);
            let b = after_release(a, reason, released_time, releaser);
            &&& a.status == Status::InProgress
            &&& a.claimed
            &&& a.claim_context == context
            &&& a.claimed_at == Some(unsigned_time(claimed_time))
            &&& a.lamport == 2
            &&& a.updated_at == claimed_time
            &&& a.created_at <= a.updated_at
            &&& a.editor == claimer
            &&& a == IssueView {
                status: a.status,
                claimed: a.claimed,
                claim_context: a.claim_context,
                claimed_at: a.claimed_at,
                lamport: a.lamport,
                updated_at: a.updated_at,
                editor: a.editor,
                ..x
            }
            &&& b.status == Status::Open
            &&& !b.claimed
            &&& b.claim_context is None
            &&& b.claimed_at is None
            &&& b.reason == reason
            &&& b.lamport == 3
            &&& b.created_at <= b.updated_at
            &&& b.id == x.id && b.title == x.title && b.description == x.description
            &&& b.priority == x.priority && b.issue_type == x.issue_type && b.labels == x.labels
        }),
{
}

/// Every mutation adds exactly one to the clock.
pub proof fn lemma_one_increment(
    x: IssueView,
    context: Option<Seq<char>>,
    reason: Option<Seq<char>>,
    c: ChangesView,
    now: i64,
    editor: Seq<char>,
)
    requires
        x.lamport < u64::MAX,
    ensures
        after_claim(x, context, now, editor).lamport == x.lamport + 1,
        after_release(x, reason, now, editor).lamport == x.lamport + 1,
        after_close(x, reason, now, editor).lamport == x.lamport + 1,
        after_reopen(x, reason, now, editor).lamport == x.lamport + 1,
        after_update(x, c, now, editor).lamport == x.lamport + 1,
{
}

} // verus!
