//! Soft delete and restore of a topic: the topic's flag and its tag links'
//! flags change together in one transaction.
use vstd::prelude::*;
use crate::error::{AppError, AppErrorView};
use crate::topic_tx::{Reply, ReplyView, Stmt, StmtView, reply_err, reply_error};

verus! {

/// Where a soft-delete transaction stands.
#[derive(Clone, Copy, PartialEq, Eq, Structural, Debug)]
pub enum MarkPhase {
    Start,
    Opening,
    MarkingTopic,
    MarkingLinks,
    Committing,
    RollingBack,
    Done,
}

/// A transaction that sets the soft-delete flag of a topic and its links.
#[derive(Debug)]
pub struct MarkTx {
    pub id: i64,
    pub is_del: bool,
    pub phase: MarkPhase,
    pub topic_rows: i64,
    pub link_rows: i64,
    pub pending: Option<AppError>,
    pub outcome: Option<Result<(i64, i64), AppError>>,
}

/// Abstract value of a [`MarkTx`].
pub struct MarkView {
    pub id: int,
    pub is_del: bool,
    pub phase: MarkPhase,
    pub topic_rows: int,
    pub link_rows: int,
    pub pending: Option<AppErrorView>,
    pub outcome: Option<Result<(int, int), AppErrorView>>,
}

impl View for MarkTx {
    type V = MarkView;

    open spec fn view(&self) -> MarkView {
        MarkView {
            id: self.id as int,
            is_del: self.is_del,
            phase: self.phase,
            topic_rows: self.topic_rows as int,
            link_rows: self.link_rows as int,
            pending: match self.pending {
                Some(e) => Some(e@),
                None => None,
            },
            outcome: match self.outcome {
                Some(Ok((a, b))) => Some(Ok((a as int, b as int))),
                Some(Err(e)) => Some(Err(e@)),
                None => None,
            },
        }
    }
}

pub open spec fn mark_finish(s: MarkView, o: Result<(int, int), AppErrorView>) -> (MarkView, StmtView) {
    (MarkView { phase: MarkPhase::Done, pending: None, outcome: Some(o), ..s }, StmtView::Idle)
}

pub open spec fn mark_roll_back(s: MarkView, e: AppErrorView) -> (MarkView, StmtView) {
    (MarkView { phase: MarkPhase::RollingBack, pending: Some(e), ..s }, StmtView::Rollback)
}

/// The transition of a soft-delete transaction on the reply to its last statement.
pub open spec fn mark_next(s: MarkView, r: ReplyView) -> (MarkView, StmtView) {
    match s.phase {
        MarkPhase::Start => (MarkView { phase: MarkPhase::Opening, ..s }, StmtView::Begin),
        MarkPhase::Opening => match r {
            ReplyView::Done => (
                MarkView { phase: MarkPhase::MarkingTopic, ..s },
                StmtView::MarkTopic { id: s.id, is_del: s.is_del },
            ),
            _ => mark_finish(s, Err(reply_error(r))),
        },
        MarkPhase::MarkingTopic => match r {
            ReplyView::Count(n) => (
                MarkView { phase: MarkPhase::MarkingLinks, topic_rows: n, ..s },
                StmtView::MarkLinks { topic_id: s.id, is_del: s.is_del },
            ),
            _ => mark_roll_back(s, reply_error(r)),
        },
        MarkPhase::MarkingLinks => match r {
            ReplyView::Count(n) => (
                MarkView { phase: MarkPhase::Committing, link_rows: n, ..s },
                StmtView::Commit,
            ),
            _ => mark_roll_back(s, reply_error(r)),
        },
        MarkPhase::Committing => match r {
            ReplyView::Done => mark_finish(s, Ok((s.topic_rows, s.link_rows))),
            _ => mark_finish(s, Err(reply_error(r))),
        },
        MarkPhase::RollingBack => mark_finish(
            s,
            Err(
                match r {
                    ReplyView::Failed(e) => e,
                    _ => match s.pending {
                        Some(e) => e,
                        None => reply_error(r),
                    },
                },
            ),
        ),
        MarkPhase::Done => (s, StmtView::Idle),
    }
}

/// A fresh transaction that sets the flag of topic `id` and its links to `is_del`.
pub open spec fn mark_start(id: int, is_del: bool) -> MarkView {
    MarkView {
        id,
        is_del,
        phase: MarkPhase::Start,
        topic_rows: 0,
        link_rows: 0,
        pending: None,
        outcome: None,
    }
}

/// Begins soft-deleting (`is_del`) or restoring topic `id` with its tag links.
pub fn del_or_restore(id: i64, is_del: bool) -> (r: MarkTx)
    ensures
        r@ == mark_start(id as int, is_del),
{
    MarkTx { id, is_del, phase: MarkPhase::Start, topic_rows: 0, link_rows: 0, pending: None, outcome: None }
}

impl MarkTx {
    fn finish(&mut self, o: Result<(i64, i64), AppError>) -> (s: Stmt)
        ensures
            (final(self)@, s@) == mark_finish(
                old(self)@,
                match o {
                    Ok((a, b)) => Ok((a as int, b as int)),
                    Err(e) => Err(e@),
                },
            ),
    {
        self.phase = MarkPhase::Done;
        self.pending = None;
        self.outcome = Some(o);
        Stmt::Idle
    }

    fn roll_back(&mut self, e: AppError) -> (s: Stmt)
        ensures
            (final(self)@, s@) == mark_roll_back(old(self)@, e@),
    {
        self.phase = MarkPhase::RollingBack;
        self.pending = Some(e);
        Stmt::Rollback
    }

    /// Takes the reply to the last statement and returns the next statement;
    /// [`Stmt::Idle`] once the transaction is over.
    pub fn step(&mut self, reply: Reply) -> (s: Stmt)
        ensures
            (final(self)@, s@) == mark_next(old(self)@, reply@),
    {
        match self.phase {
            MarkPhase::Start => {
                self.phase = MarkPhase::Opening;
                Stmt::Begin
            },
            MarkPhase::Opening => match reply {
                Reply::Done => {
                    self.phase = MarkPhase::MarkingTopic;
                    Stmt::MarkTopic { id: self.id, is_del: self.is_del }
                },
                other => self.finish(Err(reply_err(other))),
            },
            MarkPhase::MarkingTopic => match reply {
                Reply::Count(n) => {
                    self.phase = MarkPhase::MarkingLinks;
                    self.topic_rows = n;
                    Stmt::MarkLinks { topic_id: self.id, is_del: self.is_del }
                },
                other => self.roll_back(reply_err(other)),
            },
            MarkPhase::MarkingLinks => match reply {
                Reply::Count(n) => {
                    self.phase = MarkPhase::Committing;
                    self.link_rows = n;
                    Stmt::Commit
                },
                other => self.roll_back(reply_err(other)),
            },
            MarkPhase::Committing => match reply {
                Reply::Done => {
                    let o = (self.topic_rows, self.link_rows);
                    self.finish(Ok(o))
                },
                other => self.finish(Err(reply_err(other))),
            },
            MarkPhase::RollingBack => {
                let pending = self.pending.take();
                let e = match reply {
                    Reply::Failed(e) => e,
                    other => match pending {
                        Some(e) => e,
                        None => reply_err(other),
                    },
                };
                self.finish(Err(e))
            },
            MarkPhase::Done => Stmt::Idle,
        }
    }

    /// The rows changed (topic, links), or the error that ended the
    /// transaction; `None` while it runs.
    pub fn into_outcome(self) -> (r: Option<Result<(i64, i64), AppError>>)
        ensures
            match r {
                Some(Ok((a, b))) => self@.outcome == Some(Ok::<(int, int), AppErrorView>((a as int, b as int))),
                Some(Err(e)) => self@.outcome == Some(Err::<(int, int), AppErrorView>(e@)),
                None => self@.outcome is None,
            },
    {
        self.outcome
    }
}

} // verus!
