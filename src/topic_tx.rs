//! Authoring transaction: writes a topic, its content and its tag links as one
//! unit of work. The transaction is a state machine: each call of
//! [`TopicTx::step`] takes the relational store's reply to the previous
//! statement and returns the next statement to run.
use vstd::prelude::*;
use crate::error::{AppError, AppErrorType, AppErrorView, error_with};
use crate::form::{CreateTopic, UpdateTopic};
use crate::tags::{tag_names, tag_list};
use crate::text::views;

verus! {

/// Topic columns written by an authoring transaction.
#[derive(Debug)]
pub struct TopicFields {
    pub subject_id: i32,
    pub title: String,
    pub slug: String,
    pub summary: String,
    pub author: String,
    pub src: String,
}

/// Abstract value of [`TopicFields`].
pub struct FieldsView {
    pub subject_id: int,
    pub title: Seq<char>,
    pub slug: Seq<char>,
    pub summary: Seq<char>,
    pub author: Seq<char>,
    pub src: Seq<char>,
}

impl View for TopicFields {
    type V = FieldsView;

    open spec fn view(&self) -> FieldsView {
        FieldsView {
            subject_id: self.subject_id as int,
            title: self.title@,
            slug: self.slug@,
            summary: self.summary@,
            author: self.author@,
            src: self.src@,
        }
    }
}

impl TopicFields {
    /// A field-by-field copy.
    pub fn copy(&self) -> (r: Self)
        ensures
            r@ == self@,
    {
        TopicFields {
            subject_id: self.subject_id,
            title: self.title.clone(),
            slug: self.slug.clone(),
            summary: self.summary.clone(),
            author: self.author.clone(),
            src: self.src.clone(),
        }
    }
}

/// A statement for the relational store.
#[derive(Debug)]
pub enum Stmt {
    /// Open the transaction.
    Begin,
    /// Count non-deleted topics with this subject and slug, other than `exclude_id`.
    CountSlug { subject_id: i32, slug: String, exclude_id: Option<i64> },
    /// Insert a topic row; the reply carries its new id.
    InsertTopic { fields: TopicFields, dateline: i32 },
    /// Overwrite topic `id` in place.
    UpdateTopic { id: i64, fields: TopicFields },
    /// Insert or overwrite the content row of a topic.
    UpsertContent { topic_id: i64, md: String, html: String },
    /// Delete every tag link of a topic.
    DeleteLinks { topic_id: i64 },
    /// Insert a tag by name, or find the existing one; the reply carries its id.
    UpsertTag { name: String },
    /// Link a topic to a tag; an existing link is kept.
    LinkTag { topic_id: i64, tag_id: i64 },
    /// Set the soft-delete flag of topic `id`; the reply counts the rows changed.
    MarkTopic { id: i64, is_del: bool },
    /// Set the soft-delete flag of every tag link of a topic; the reply counts
    /// the rows changed.
    MarkLinks { topic_id: i64, is_del: bool },
    /// Commit the transaction.
    Commit,
    /// Roll the transaction back.
    Rollback,
    /// Nothing left to run.
    Idle,
}

/// Abstract value of a [`Stmt`].
pub enum StmtView {
    Begin,
    CountSlug { subject_id: int, slug: Seq<char>, exclude_id: Option<int> },
    InsertTopic { fields: FieldsView, dateline: int },
    UpdateTopic { id: int, fields: FieldsView },
    UpsertContent { topic_id: int, md: Seq<char>, html: Seq<char> },
    DeleteLinks { topic_id: int },
    UpsertTag { name: Seq<char> },
    LinkTag { topic_id: int, tag_id: int },
    MarkTopic { id: int, is_del: bool },
    MarkLinks { topic_id: int, is_del: bool },
    Commit,
    Rollback,
    Idle,
}

pub open spec fn opt_id(o: Option<i64>) -> Option<int> {
    match o {
        Some(i) => Some(i as int),
        None => None,
    }
}

impl View for Stmt {
    type V = StmtView;

    open spec fn view(&self) -> StmtView {
        match self {
            Stmt::Begin => StmtView::Begin,
            Stmt::CountSlug { subject_id, slug, exclude_id } => StmtView::CountSlug {
                subject_id: *subject_id as int,
                slug: slug@,
                exclude_id: opt_id(*exclude_id),
            },
            Stmt::InsertTopic { fields, dateline } => StmtView::InsertTopic {
                fields: fields@,
                dateline: *dateline as int,
            },
            Stmt::UpdateTopic { id, fields } => StmtView::UpdateTopic {
                id: *id as int,
                fields: fields@,
            },
            Stmt::UpsertContent { topic_id, md, html } => StmtView::UpsertContent {
                topic_id: *topic_id as int,
                md: md@,
                html: html@,
            },
            Stmt::DeleteLinks { topic_id } => StmtView::DeleteLinks { topic_id: *topic_id as int },
            Stmt::UpsertTag { name } => StmtView::UpsertTag { name: name@ },
            Stmt::LinkTag { topic_id, tag_id } => StmtView::LinkTag {
                topic_id: *topic_id as int,
                tag_id: *tag_id as int,
            },
            Stmt::MarkTopic { id, is_del } => StmtView::MarkTopic { id: *id as int, is_del: *is_del },
            Stmt::MarkLinks { topic_id, is_del } => StmtView::MarkLinks {
                topic_id: *topic_id as int,
                is_del: *is_del,
            },
            Stmt::Commit => StmtView::Commit,
            Stmt::Rollback => StmtView::Rollback,
            Stmt::Idle => StmtView::Idle,
        }
    }
}

/// The relational store's answer to a statement.
#[derive(Debug)]
pub enum Reply {
    /// The statement ran and returns nothing the transaction reads.
    Done,
    /// A row count.
    Count(i64),
    /// A returned id.
    Id(i64),
    /// The statement failed.
    Failed(AppError),
}

/// Abstract value of a [`Reply`].
pub enum ReplyView {
    Done,
    Count(int),
    Id(int),
    Failed(AppErrorView),
}

impl View for Reply {
    type V = ReplyView;

    open spec fn view(&self) -> ReplyView {
        match self {
            Reply::Done => ReplyView::Done,
            Reply::Count(n) => ReplyView::Count(*n as int),
            Reply::Id(i) => ReplyView::Id(*i as int),
            Reply::Failed(e) => ReplyView::Failed(e@),
        }
    }
}

/// Where a transaction stands.
#[derive(Clone, Copy, PartialEq, Eq, Structural, Debug)]
pub enum Phase {
    Start,
    Opening,
    Checking,
    Writing,
    Saving,
    Unlinking,
    Tagging,
    Linking,
    Committing,
    RollingBack,
    Done,
}

/// Message of a create whose (subject, slug) pair is taken.
pub const CONFLICT_MESSAGE: &'static str = "相同专题、相同固定链接的文章已存在";

/// Message of an update whose (subject, slug) pair is taken by another topic.
pub const UPDATE_CONFLICT_MESSAGE: &'static str = "已存在";

/// Message of the conflict for a transaction.
pub open spec fn conflict_message(s: TxView) -> Seq<char> {
    if s.target is None {
        CONFLICT_MESSAGE@
    } else {
        UPDATE_CONFLICT_MESSAGE@
    }
}

/// Message of a reply that does not fit the statement.
pub const UNEXPECTED_MESSAGE: &'static str = "unexpected reply from the relational store";

/// An authoring transaction in progress.
#[derive(Debug)]
pub struct TopicTx {
    target: Option<i64>,
    fields: TopicFields,
    md: String,
    html: String,
    dateline: i32,
    names: Vec<String>,
    tag_ids: Vec<i64>,
    topic_id: i64,
    idx: usize,
    phase: Phase,
    pending: Option<AppError>,
    outcome: Option<Result<i64, AppError>>,
}

/// Abstract value of a [`TopicTx`].
pub struct TxView {
    /// The topic being updated; `None` when creating.
    pub target: Option<int>,
    pub fields: FieldsView,
    pub md: Seq<char>,
    pub html: Seq<char>,
    pub dateline: int,
    /// Distinct tag names to link.
    pub names: Seq<Seq<char>>,
    /// Ids of `names`, as far as they are registered.
    pub tag_ids: Seq<int>,
    pub topic_id: int,
    pub idx: int,
    pub phase: Phase,
    /// The error a rollback in progress will report.
    pub pending: Option<AppErrorView>,
    pub outcome: Option<Result<int, AppErrorView>>,
}

pub open spec fn opt_err(o: Option<AppError>) -> Option<AppErrorView> {
    match o {
        Some(e) => Some(e@),
        None => None,
    }
}

pub open spec fn outcome_view(o: Option<Result<i64, AppError>>) -> Option<Result<int, AppErrorView>> {
    match o {
        Some(Ok(i)) => Some(Ok(i as int)),
        Some(Err(e)) => Some(Err(e@)),
        None => None,
    }
}

impl View for TopicTx {
    type V = TxView;

    closed spec fn view(&self) -> TxView {
        TxView {
            target: opt_id(self.target),
            fields: self.fields@,
            md: self.md@,
            html: self.html@,
            dateline: self.dateline as int,
            names: views(self.names@),
            tag_ids: self.tag_ids@.map_values(|t: i64| t as int),
            topic_id: self.topic_id as int,
            idx: self.idx as int,
            phase: self.phase,
            pending: opt_err(self.pending),
            outcome: outcome_view(self.outcome),
        }
    }
}

/// The error a reply stands for when it does not fit the statement.
pub open spec fn reply_error(r: ReplyView) -> AppErrorView {
    match r {
        ReplyView::Failed(e) => e,
        _ => error_with(UNEXPECTED_MESSAGE@, AppErrorType::DbError),
    }
}

pub open spec fn finish(s: TxView, o: Result<int, AppErrorView>) -> (TxView, StmtView) {
    (TxView { phase: Phase::Done, outcome: Some(o), ..s }, StmtView::Idle)
}

pub open spec fn roll_back(s: TxView, e: AppErrorView) -> (TxView, StmtView) {
    (TxView { phase: Phase::RollingBack, pending: Some(e), ..s }, StmtView::Rollback)
}

pub open spec fn write_topic(s: TxView) -> (TxView, StmtView) {
    match s.target {
        None => (
            TxView { phase: Phase::Writing, ..s },
            StmtView::InsertTopic { fields: s.fields, dateline: s.dateline },
        ),
        Some(id) => (
            TxView { phase: Phase::Writing, ..s },
            StmtView::UpdateTopic { id, fields: s.fields },
        ),
    }
}

pub open spec fn save_content(s: TxView) -> (TxView, StmtView) {
    (
        TxView { phase: Phase::Saving, ..s },
        StmtView::UpsertContent { topic_id: s.topic_id, md: s.md, html: s.html },
    )
}

pub open spec fn start_tags(s: TxView) -> (TxView, StmtView) {
    if s.names.len() == 0 {
        (TxView { phase: Phase::Committing, idx: 0, tag_ids: Seq::empty(), ..s }, StmtView::Commit)
    } else {
        (
            TxView { phase: Phase::Tagging, idx: 0, tag_ids: Seq::empty(), ..s },
            StmtView::UpsertTag { name: s.names[0] },
        )
    }
}

/// The transition of a transaction on the reply to its last statement.
pub open spec fn next(s: TxView, r: ReplyView) -> (TxView, StmtView) {
    match s.phase {
        Phase::Start => (TxView { phase: Phase::Opening, ..s }, StmtView::Begin),
        Phase::Opening => match r {
            ReplyView::Done => (
                TxView { phase: Phase::Checking, ..s },
                StmtView::CountSlug {
                    subject_id: s.fields.subject_id,
                    slug: s.fields.slug,
                    exclude_id: s.target,
                },
            ),
            _ => finish(s, Err(reply_error(r))),
        },
        Phase::Checking => match r {
            ReplyView::Count(n) => if n > 0 {
                roll_back(s, error_with(conflict_message(s), AppErrorType::IsExists))
            } else {
                write_topic(s)
            },
            _ => roll_back(s, reply_error(r)),
        },
        Phase::Writing => match (s.target, r) {
            (None, ReplyView::Id(id)) => save_content(TxView { topic_id: id, ..s }),
            (Some(_), ReplyView::Done) => save_content(s),
            _ => roll_back(s, reply_error(r)),
        },
        Phase::Saving => match r {
            ReplyView::Done => if s.target is Some {
                (
                    TxView { phase: Phase::Unlinking, ..s },
                    StmtView::DeleteLinks { topic_id: s.topic_id },
                )
            } else {
                start_tags(s)
            },
            _ => roll_back(s, reply_error(r)),
        },
        Phase::Unlinking => match r {
            ReplyView::Done => start_tags(s),
            _ => roll_back(s, reply_error(r)),
        },
        Phase::Tagging => match r {
            ReplyView::Id(t) => {
                let ids = s.tag_ids.push(t);
                if s.idx + 1 < s.names.len() {
                    (
                        TxView { idx: s.idx + 1, tag_ids: ids, ..s },
                        StmtView::UpsertTag { name: s.names[s.idx + 1] },
                    )
                } else {
                    (
                        TxView { phase: Phase::Linking, idx: 0, tag_ids: ids, ..s },
                        StmtView::LinkTag { topic_id: s.topic_id, tag_id: ids[0] },
                    )
                }
            },
            _ => roll_back(s, reply_error(r)),
        },
        Phase::Linking => match r {
            ReplyView::Done => if s.idx + 1 < s.tag_ids.len() {
                (
                    TxView { idx: s.idx + 1, ..s },
                    StmtView::LinkTag { topic_id: s.topic_id, tag_id: s.tag_ids[s.idx + 1] },
                )
            } else {
                (TxView { phase: Phase::Committing, ..s }, StmtView::Commit)
            },
            _ => roll_back(s, reply_error(r)),
        },
        Phase::Committing => match r {
            ReplyView::Done => finish(s, Ok(s.topic_id)),
            _ => finish(s, Err(reply_error(r))),
        },
        Phase::RollingBack => finish(
            TxView { pending: None, ..s },
            Err(
                match r {
                    ReplyView::Failed(e) => e,
                    _ => match s.pending {
                        Some(e) => e,
                        None => reply_error(r),
                    },
                },
            ),
        ),
        Phase::Done => (s, StmtView::Idle),
    }
}

/// A fresh transaction that creates a topic.
pub open spec fn create_view(ct: CreateTopic, html: Seq<char>, now: int) -> TxView {
    TxView {
        target: None,
        fields: FieldsView {
            subject_id: ct.subject_id as int,
            title: ct.title@,
            slug: ct.slug@,
            summary: ct.summary@,
            author: ct.author@,
            src: ct.src@,
        },
        md: ct.md@,
        html,
        dateline: now,
        names: tag_list(ct.tags@),
        tag_ids: Seq::empty(),
        topic_id: 0,
        idx: 0,
        phase: Phase::Start,
        pending: None,
        outcome: None,
    }
}

/// A fresh transaction that updates topic `ut.id`.
pub open spec fn update_view(ut: UpdateTopic, html: Seq<char>) -> TxView {
    TxView {
        target: Some(ut.id as int),
        fields: FieldsView {
            subject_id: ut.subject_id as int,
            title: ut.title@,
            slug: ut.slug@,
            summary: ut.summary@,
            author: ut.author@,
            src: ut.src@,
        },
        md: ut.md@,
        html,
        dateline: 0,
        names: tag_list(ut.tags@),
        tag_ids: Seq::empty(),
        topic_id: ut.id as int,
        idx: 0,
        phase: Phase::Start,
        pending: None,
        outcome: None,
    }
}

/// Begins creating a topic from `ct`, whose markup renders to `html`, at time `now`.
pub fn create(ct: &CreateTopic, html: &str, now: i32) -> (r: TopicTx)
    ensures
        r.wf(),
        r@ == create_view(*ct, html@, now as int),
{
    let tx = TopicTx {
        target: None,
        fields: TopicFields {
            subject_id: ct.subject_id,
            title: ct.title.clone(),
            slug: ct.slug.clone(),
            summary: ct.summary.clone(),
            author: ct.author.clone(),
            src: ct.src.clone(),
        },
        md: ct.md.clone(),
        html: html.to_string(),
        dateline: now,
        names: tag_names(ct.tags.as_str()),
        tag_ids: Vec::new(),
        topic_id: 0,
        idx: 0,
        phase: Phase::Start,
        pending: None,
        outcome: None,
    };
    assert(tx@.tag_ids =~= Seq::<int>::empty());
    tx
}

/// Begins updating topic `ut.id` from `ut`, whose markup renders to `html`.
pub fn update(ut: &UpdateTopic, html: &str) -> (r: TopicTx)
    ensures
        r.wf(),
        r@ == update_view(*ut, html@),
{
    let tx = TopicTx {
        target: Some(ut.id),
        fields: TopicFields {
            subject_id: ut.subject_id,
            title: ut.title.clone(),
            slug: ut.slug.clone(),
            summary: ut.summary.clone(),
            author: ut.author.clone(),
            src: ut.src.clone(),
        },
        md: ut.md.clone(),
        html: html.to_string(),
        dateline: 0,
        names: tag_names(ut.tags.as_str()),
        tag_ids: Vec::new(),
        topic_id: ut.id,
        idx: 0,
        phase: Phase::Start,
        pending: None,
        outcome: None,
    };
    assert(tx@.tag_ids =~= Seq::<int>::empty());
    tx
}

/// The error a reply stands for when it does not fit the statement.
pub fn reply_err(r: Reply) -> (e: AppError)
    ensures
        e@ == reply_error(r@),
{
    match r {
        Reply::Failed(e) => e,
        _ => AppError::db_error_from_str(UNEXPECTED_MESSAGE),
    }
}

impl TopicTx {
    /// Index bounds of the tag loop.
    pub closed spec fn wf(&self) -> bool {
        &&& self.tag_ids.len() <= self.names.len()
        &&& self.phase == Phase::Tagging ==> self.idx < self.names.len() && self.tag_ids.len()
            == self.idx
        &&& self.phase == Phase::Linking ==> self.idx < self.tag_ids.len() && self.tag_ids.len()
            == self.names.len()
    }

    fn finish(&mut self, o: Result<i64, AppError>) -> (s: Stmt)
        requires
            old(self).wf(),
        ensures
            final(self).wf(),
            (final(self)@, s@) == finish(
                old(self)@,
                match o {
                    Ok(i) => Ok(i as int),
                    Err(e) => Err(e@),
                },
            ),
    {
        self.phase = Phase::Done;
        self.outcome = Some(o);
        Stmt::Idle
    }

    fn roll_back(&mut self, e: AppError) -> (s: Stmt)
        requires
            old(self).wf(),
        ensures
            final(self).wf(),
            (final(self)@, s@) == roll_back(old(self)@, e@),
    {
        self.phase = Phase::RollingBack;
        self.pending = Some(e);
        Stmt::Rollback
    }

    fn write_topic(&mut self) -> (s: Stmt)
        requires
            old(self).wf(),
        ensures
            final(self).wf(),
            (final(self)@, s@) == write_topic(old(self)@),
    {
        self.phase = Phase::Writing;
        match self.target {
            None => Stmt::InsertTopic { fields: self.fields.copy(), dateline: self.dateline },
            Some(id) => Stmt::UpdateTopic { id, fields: self.fields.copy() },
        }
    }

    fn save_content(&mut self) -> (s: Stmt)
        requires
            old(self).wf(),
        ensures
            final(self).wf(),
            (final(self)@, s@) == save_content(old(self)@),
    {
        self.phase = Phase::Saving;
        Stmt::UpsertContent {
            topic_id: self.topic_id,
            md: self.md.clone(),
            html: self.html.clone(),
        }
    }

    fn start_tags(&mut self) -> (s: Stmt)
        requires
            old(self).wf(),
        ensures
            final(self).wf(),
            (final(self)@, s@) == start_tags(old(self)@),
    {
        self.tag_ids = Vec::new();
        self.idx = 0;
        proof {
            assert(self@.tag_ids =~= Seq::<int>::empty());
        }
        if self.names.len() == 0 {
            self.phase = Phase::Committing;
            Stmt::Commit
        } else {
            self.phase = Phase::Tagging;
            let name = self.names[0].clone();
            assert(name@ == self@.names[0]);
            Stmt::UpsertTag { name }
        }
    }

    /// Takes the reply to the last statement and returns the next statement.
    /// Once the transaction is over it returns [`Stmt::Idle`] and
    /// [`TopicTx::into_outcome`] gives its result.
    pub fn step(&mut self, reply: Reply) -> (s: Stmt)
        requires
            old(self).wf(),
        ensures
            final(self).wf(),
            (final(self)@, s@) == next(old(self)@, reply@),
    {
        match self.phase {
            Phase::Start => {
                self.phase = Phase::Opening;
                Stmt::Begin
            },
            Phase::Opening => match reply {
                Reply::Done => {
                    self.phase = Phase::Checking;
                    Stmt::CountSlug {
                        subject_id: self.fields.subject_id,
                        slug: self.fields.slug.clone(),
                        exclude_id: self.target,
                    }
                },
                other => self.finish(Err(reply_err(other))),
            },
            Phase::Checking => match reply {
                Reply::Count(n) => {
                    if n > 0 {
                        let msg = if self.target.is_none() {
                            CONFLICT_MESSAGE
                        } else {
                            UPDATE_CONFLICT_MESSAGE
                        };
                        self.roll_back(AppError::is_exists(msg))
                    } else {
                        self.write_topic()
                    }
                },
                other => self.roll_back(reply_err(other)),
            },
            Phase::Writing => {
                if self.target.is_none() {
                    match reply {
                        Reply::Id(id) => {
                            self.topic_id = id;
                            self.save_content()
                        },
                        other => self.roll_back(reply_err(other)),
                    }
                } else {
                    match reply {
                        Reply::Done => self.save_content(),
                        other => self.roll_back(reply_err(other)),
                    }
                }
            },
            Phase::Saving => match reply {
                Reply::Done => {
                    if self.target.is_some() {
                        self.phase = Phase::Unlinking;
                        Stmt::DeleteLinks { topic_id: self.topic_id }
                    } else {
                        self.start_tags()
                    }
                },
                other => self.roll_back(reply_err(other)),
            },
            Phase::Unlinking => match reply {
                Reply::Done => self.start_tags(),
                other => self.roll_back(reply_err(other)),
            },
            Phase::Tagging => match reply {
                Reply::Id(t) => {
                    let ghost before = self.tag_ids@;
                    self.tag_ids.push(t);
                    proof {
                        assert(self.tag_ids@.map_values(|t: i64| t as int) =~= before.map_values(
                            |t: i64| t as int,
                        ).push(t as int));
                    }
                    if self.idx + 1 < self.names.len() {
                        self.idx = self.idx + 1;
                        Stmt::UpsertTag { name: self.names[self.idx].clone() }
                    } else {
                        self.phase = Phase::Linking;
                        self.idx = 0;
                        Stmt::LinkTag { topic_id: self.topic_id, tag_id: self.tag_ids[0] }
                    }
                },
                other => self.roll_back(reply_err(other)),
            },
            Phase::Linking => match reply {
                Reply::Done => {
                    if self.idx + 1 < self.tag_ids.len() {
                        self.idx = self.idx + 1;
                        Stmt::LinkTag { topic_id: self.topic_id, tag_id: self.tag_ids[self.idx] }
                    } else {
                        self.phase = Phase::Committing;
                        Stmt::Commit
                    }
                },
                other => self.roll_back(reply_err(other)),
            },
            Phase::Committing => match reply {
                Reply::Done => {
                    let id = self.topic_id;
                    self.finish(Ok(id))
                },
                other => self.finish(Err(reply_err(other))),
            },
            Phase::RollingBack => {
                let pending = self.pending.take();
                let e = match reply {
                    Reply::Failed(e) => e,
                    other => match pending {
                        Some(e) => e,
                        None => reply_err(other),
                    },
                };
                self.finish(Err(e))
            },
            Phase::Done => Stmt::Idle,
        }
    }

    /// Whether the transaction is over.
    pub fn is_done(&self) -> (r: bool)
        ensures
            r == (self@.phase == Phase::Done),
    {
        self.phase == Phase::Done
    }

    /// The result of a finished transaction: the topic id, or the error that
    /// ended it; `None` while it runs.
    pub fn into_outcome(self) -> (r: Option<Result<i64, AppError>>)
        ensures
            outcome_view(r) == self@.outcome,
    {
        self.outcome
    }
}

} // verus!
