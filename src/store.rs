//! A model of the relational store that authoring transactions run against,
//! and what a transaction does to it when every statement succeeds.
use vstd::prelude::*;
use crate::error::AppErrorType;
use crate::form::{CreateTopic, UpdateTopic};
use crate::tags::{lemma_dedup, tag_list};
use crate::topic_del::{MarkView, mark_next, mark_start};
use crate::topic_tx::{
    FieldsView, Phase, ReplyView, StmtView, TxView, create_view, next, update_view,
};

verus! {

/// A topic row.
pub struct TopicRow {
    pub fields: FieldsView,
    pub dateline: int,
    pub is_del: bool,
}

/// Tables of the relational store. Tag names are unique (the store's unique
/// index on `tag.name`), and so are (topic, tag) links.
pub struct Db {
    pub topics: Map<int, TopicRow>,
    /// Markup and rendered HTML of each topic.
    pub contents: Map<int, (Seq<char>, Seq<char>)>,
    /// Tag id of each tag name.
    pub tags: Map<Seq<char>, int>,
    /// (topic id, tag id) links.
    pub links: Set<(int, int)>,
    /// Links whose soft-delete flag is set.
    pub deleted_links: Set<(int, int)>,
    /// Id the next inserted topic gets.
    pub next_topic: int,
    /// Id the next inserted tag gets.
    pub next_tag: int,
}

/// The committed tables and those a transaction in progress sees.
pub struct TxStore {
    pub committed: Db,
    pub work: Db,
}

/// Ids are below their allocators, links refer to allocated ids, and tag ids
/// are unique.
pub open spec fn db_wf(db: Db) -> bool {
    &&& forall|id: int| #[trigger] db.topics.contains_key(id) ==> id < db.next_topic
    &&& forall|l: (int, int)| #[trigger] db.links.contains(l) ==> l.0 < db.next_topic && l.1 < db.next_tag
    &&& forall|n: Seq<char>| #[trigger] db.tags.contains_key(n) ==> db.tags[n] < db.next_tag
    &&& forall|a: Seq<char>, b: Seq<char>|
        #[trigger] db.tags.contains_key(a) && #[trigger] db.tags.contains_key(b) && db.tags[a]
            == db.tags[b] ==> a == b
}

/// Whether a non-deleted topic other than `exclude` has this subject and slug.
pub open spec fn slug_taken(db: Db, subject_id: int, slug: Seq<char>, exclude: Option<int>) -> bool {
    exists|id: int|
        #[trigger] db.topics.contains_key(id) && !db.topics[id].is_del
            && db.topics[id].fields.subject_id == subject_id && db.topics[id].fields.slug == slug
            && exclude != Some(id)
}

/// Names of the tags linked to topic `id`.
pub open spec fn linked_names(db: Db, id: int) -> Set<Seq<char>> {
    Set::new(|n: Seq<char>| db.tags.contains_key(n) && db.links.contains((id, db.tags[n])))
}

/// Ids of the topics linked to tag `tag_id`.
pub open spec fn tagged_topics(db: Db, tag_id: int) -> Set<int> {
    Set::new(|t: int| db.links.contains((t, tag_id)))
}

/// The flagged links once every link of `topic_id` has its flag set to `is_del`.
pub open spec fn marked(db: Db, topic_id: int, is_del: bool) -> Set<(int, int)> {
    if is_del {
        db.deleted_links.union(db.links.filter(|l: (int, int)| l.0 == topic_id))
    } else {
        db.deleted_links.filter(|l: (int, int)| l.0 != topic_id)
    }
}

/// What a statement does to the store, and the reply it gets. A count reports
/// 1 when a matching row exists and 0 otherwise.
pub open spec fn apply(st: TxStore, stmt: StmtView) -> (TxStore, ReplyView) {
    let w = st.work;
    match stmt {
        StmtView::Begin => (TxStore { work: st.committed, ..st }, ReplyView::Done),
        StmtView::CountSlug { subject_id, slug, exclude_id } => (
            st,
            ReplyView::Count(
                if slug_taken(w, subject_id, slug, exclude_id) {
                    1
                } else {
                    0
                },
            ),
        ),
        StmtView::InsertTopic { fields, dateline } => (
            TxStore {
                work: Db {
                    topics: w.topics.insert(
                        w.next_topic,
                        TopicRow { fields, dateline, is_del: false },
                    ),
                    next_topic: w.next_topic + 1,
                    ..w
                },
                ..st
            },
            ReplyView::Id(w.next_topic),
        ),
        StmtView::UpdateTopic { id, fields } => (
            if w.topics.contains_key(id) {
                TxStore {
                    work: Db { topics: w.topics.insert(id, TopicRow { fields, ..w.topics[id] }), ..w },
                    ..st
                }
            } else {
                st
            },
            ReplyView::Done,
        ),
        StmtView::UpsertContent { topic_id, md, html } => (
            TxStore { work: Db { contents: w.contents.insert(topic_id, (md, html)), ..w }, ..st },
            ReplyView::Done,
        ),
        StmtView::DeleteLinks { topic_id } => (
            TxStore {
                work: Db {
                    links: w.links.filter(|l: (int, int)| l.0 != topic_id),
                    deleted_links: w.deleted_links.filter(|l: (int, int)| l.0 != topic_id),
                    ..w
                },
                ..st
            },
            ReplyView::Done,
        ),
        StmtView::UpsertTag { name } => if w.tags.contains_key(name) {
            (st, ReplyView::Id(w.tags[name]))
        } else {
            (
                TxStore {
                    work: Db {
                        tags: w.tags.insert(name, w.next_tag),
                        next_tag: w.next_tag + 1,
                        ..w
                    },
                    ..st
                },
                ReplyView::Id(w.next_tag),
            )
        },
        StmtView::LinkTag { topic_id, tag_id } => (
            if w.links.contains((topic_id, tag_id)) {
                st
            } else {
                TxStore {
                    work: Db {
                        links: w.links.insert((topic_id, tag_id)),
                        deleted_links: w.deleted_links.remove((topic_id, tag_id)),
                        ..w
                    },
                    ..st
                }
            },
            ReplyView::Done,
        ),
        StmtView::MarkTopic { id, is_del } => if w.topics.contains_key(id) {
            (
                TxStore {
                    work: Db {
                        topics: w.topics.insert(id, TopicRow { is_del, ..w.topics[id] }),
                        ..w
                    },
                    ..st
                },
                ReplyView::Count(1),
            )
        } else {
            (st, ReplyView::Count(0))
        },
        StmtView::MarkLinks { topic_id, is_del } => (
            TxStore { work: Db { deleted_links: marked(w, topic_id, is_del), ..w }, ..st },
            ReplyView::Count(if exists|g: int| w.links.contains((topic_id, g)) { 1 } else { 0 }),
        ),
        StmtView::Commit => (TxStore { committed: w, ..st }, ReplyView::Done),
        StmtView::Rollback => (TxStore { work: st.committed, ..st }, ReplyView::Done),
        StmtView::Idle => (st, ReplyView::Done),
    }
}

/// Runs a transaction against the store for at most `fuel` statements,
/// starting from reply `r`.
pub open spec fn run(st: TxStore, tx: TxView, r: ReplyView, fuel: nat) -> (TxStore, TxView)
    decreases fuel,
{
    if fuel == 0 {
        (st, tx)
    } else {
        let (tx2, stmt) = next(tx, r);
        if stmt is Idle {
            (st, tx2)
        } else {
            let (st2, r2) = apply(st, stmt);
            run(st2, tx2, r2, (fuel - 1) as nat)
        }
    }
}

/// Statements enough to run a transaction over `n` tag names.
pub open spec fn fuel_for(n: nat) -> nat {
    2 * n + 10
}

// ---- the successful run ----

/// Id of the topic a transaction writes.
pub open spec fn tid(st0: TxStore, tx: TxView) -> int {
    match tx.target {
        None => st0.committed.next_topic,
        Some(id) => id,
    }
}

pub open spec fn row_of(st0: TxStore, tx: TxView) -> TopicRow {
    match tx.target {
        None => TopicRow { fields: tx.fields, dateline: tx.dateline, is_del: false },
        Some(id) => TopicRow { fields: tx.fields, ..st0.committed.topics[id] },
    }
}

pub open spec fn written(st0: TxStore, tx: TxView) -> Db {
    let db = st0.committed;
    match tx.target {
        None => Db {
            topics: db.topics.insert(db.next_topic, row_of(st0, tx)),
            next_topic: db.next_topic + 1,
            ..db
        },
        Some(id) => Db { topics: db.topics.insert(id, row_of(st0, tx)), ..db },
    }
}

pub open spec fn cleared(st0: TxStore, tx: TxView) -> Db {
    let w = written(st0, tx);
    let s = Db { contents: w.contents.insert(tid(st0, tx), (tx.md, tx.html)), ..w };
    match tx.target {
        None => s,
        Some(id) => Db {
            links: s.links.filter(|l: (int, int)| l.0 != id),
            deleted_links: s.deleted_links.filter(|l: (int, int)| l.0 != id),
            ..s
        },
    }
}

pub open spec fn link_set(t: int, ids: Seq<int>, k: int) -> Set<(int, int)> {
    Set::new(|l: (int, int)| l.0 == t && exists|j: int| 0 <= j < k && l.1 == ids[j])
}

/// `db` is `base` with more tags registered, tag ids still unique and allocated.
pub open spec fn tags_grown(base: Db, db: Db) -> bool {
    &&& db.topics == base.topics
    &&& db.contents == base.contents
    &&& db.next_topic == base.next_topic
    &&& db.next_tag >= base.next_tag
    &&& forall|n: Seq<char>| #[trigger]
        base.tags.contains_key(n) ==> db.tags.contains_key(n) && db.tags[n] == base.tags[n]
    &&& forall|n: Seq<char>| #[trigger] db.tags.contains_key(n) ==> db.tags[n] < db.next_tag
    &&& forall|n: Seq<char>| #[trigger]
        db.tags.contains_key(n) && !base.tags.contains_key(n) ==> db.tags[n] >= base.next_tag
    &&& forall|a: Seq<char>, b: Seq<char>|
        #[trigger] db.tags.contains_key(a) && #[trigger] db.tags.contains_key(b) && db.tags[a]
            == db.tags[b] ==> a == b
}

/// The tags of `db` are those of `base` and some of `names`.
pub open spec fn only_names(base: Db, db: Db, names: Seq<Seq<char>>) -> bool {
    forall|nm: Seq<char>| #[trigger]
        db.tags.contains_key(nm) ==> base.tags.contains_key(nm) || names.contains(nm)
}

/// The transaction's inputs allow it to succeed on `st0`.
pub open spec fn can_succeed(st0: TxStore, tx: TxView) -> bool {
    &&& db_wf(st0.committed)
    &&& !slug_taken(st0.committed, tx.fields.subject_id, tx.fields.slug, tx.target)
    &&& tx.target is Some ==> st0.committed.topics.contains_key(tx.target->0) && tx.topic_id
        == tx.target->0
}

pub open spec fn measure(tx: TxView) -> int {
    let n = tx.names.len() as int;
    match tx.phase {
        Phase::Start => 2 * n + 9,
        Phase::Opening => 2 * n + 8,
        Phase::Checking => 2 * n + 7,
        Phase::Writing => 2 * n + 6,
        Phase::Saving => 2 * n + 5,
        Phase::Unlinking => 2 * n + 4,
        Phase::Tagging => 2 * n + 3 - tx.idx,
        Phase::Linking => n + 2 - tx.idx,
        _ => 1,
    }
}

/// Where a successful run stands before each statement's reply is read.
pub open spec fn ok_inv(st0: TxStore, st: TxStore, tx: TxView, r: ReplyView, fuel: nat) -> bool {
    let base = cleared(st0, tx);
    let t = tid(st0, tx);
    let n = tx.names.len() as int;
    &&& can_succeed(st0, tx)
    &&& fuel >= measure(tx)
    &&& tx.outcome is None
    &&& tx.phase != Phase::Committing ==> st.committed == st0.committed
    &&& match tx.phase {
        Phase::Start => true,
        Phase::Opening => r == ReplyView::Done && st.work == st0.committed,
        Phase::Checking => r == ReplyView::Count(0) && st.work == st0.committed,
        Phase::Writing => st.work == written(st0, tx) && match tx.target {
            None => r == ReplyView::Id(st0.committed.next_topic),
            Some(_) => r == ReplyView::Done,
        },
        Phase::Saving => r == ReplyView::Done && tx.topic_id == t && st.work == Db {
            contents: written(st0, tx).contents.insert(t, (tx.md, tx.html)),
            ..written(st0, tx)
        },
        Phase::Unlinking => r == ReplyView::Done && tx.target is Some && tx.topic_id == t
            && st.work == base,
        Phase::Tagging => {
            &&& tx.topic_id == t
            &&& 0 <= tx.idx < n
            &&& tx.tag_ids.len() == tx.idx
            &&& tags_grown(base, st.work)
            &&& only_names(base, st.work, tx.names)
            &&& st.work.links == base.links
            &&& forall|j: int| 0 <= j <= tx.idx ==> st.work.tags.contains_key(#[trigger] tx.names[j])
            &&& forall|j: int| 0 <= j < tx.idx ==> tx.tag_ids[j] == st.work.tags[#[trigger] tx.names[j]]
            &&& r == ReplyView::Id(st.work.tags[tx.names[tx.idx]])
        },
        Phase::Linking => {
            &&& r == ReplyView::Done
            &&& tx.topic_id == t
            &&& 0 <= tx.idx < n
            &&& tx.tag_ids.len() == n
            &&& tags_grown(base, st.work)
            &&& only_names(base, st.work, tx.names)
            &&& forall|j: int| 0 <= j < n ==> st.work.tags.contains_key(#[trigger] tx.names[j])
            &&& forall|j: int| 0 <= j < n ==> tx.tag_ids[j] == st.work.tags[#[trigger] tx.names[j]]
            &&& st.work.links == base.links.union(link_set(t, tx.tag_ids, tx.idx + 1))
        },
        Phase::Committing => {
            &&& r == ReplyView::Done
            &&& tx.topic_id == t
            &&& st.committed == st.work
            &&& done_db(st0, tx, st.work)
        },
        _ => false,
    }
}

/// The tables after a successful run, through the tags and links.
pub open spec fn done_db(st0: TxStore, tx: TxView, db: Db) -> bool {
    let base = cleared(st0, tx);
    let n = tx.names.len() as int;
    &&& tags_grown(base, db)
    &&& only_names(base, db, tx.names)
    &&& forall|j: int| 0 <= j < n ==> db.tags.contains_key(#[trigger] tx.names[j])
    &&& exists|ids: Seq<int>|
        ids.len() == n && (forall|j: int| 0 <= j < n ==> ids[j] == db.tags[#[trigger] tx.names[j]])
            && db.links == base.links.union(link_set(tid(st0, tx), ids, n))
}

/// What a successful run leaves.
pub open spec fn ok_post(st0: TxStore, tx: TxView, res: (TxStore, TxView)) -> bool {
    let (st, tx2) = res;
    let t = tid(st0, tx);
    &&& tx2.outcome == Some(Ok::<int, crate::error::AppErrorView>(t))
    &&& done_db(st0, tx, st.committed)
}

pub proof fn lemma_run_ok(st0: TxStore, st: TxStore, tx: TxView, r: ReplyView, fuel: nat)
    requires
        ok_inv(st0, st, tx, r, fuel),
    ensures
        ok_post(st0, tx, run(st, tx, r, fuel)),
    decreases fuel,
{
    let (tx2, stmt) = next(tx, r);
    let base = cleared(st0, tx);
    let t = tid(st0, tx);
    let n = tx.names.len() as int;
    if tx.phase == Phase::Committing {
        assert(run(st, tx, r, fuel) == (st, tx2));
        return;
    }
    let (st2, r2) = apply(st, stmt);
    assert(run(st, tx, r, fuel) == run(st2, tx2, r2, (fuel - 1) as nat));
    assert(cleared(st0, tx2) == base);
    assert(tid(st0, tx2) == t);
    match tx.phase {
        Phase::Start => {
            assert(ok_inv(st0, st2, tx2, r2, (fuel - 1) as nat));
        },
        Phase::Opening => {
            assert(ok_inv(st0, st2, tx2, r2, (fuel - 1) as nat));
        },
        Phase::Checking => {
            assert(st2.work == written(st0, tx)) by {
                assert(st2.work.topics =~= written(st0, tx).topics);
            }
            assert(ok_inv(st0, st2, tx2, r2, (fuel - 1) as nat));
        },
        Phase::Writing => {
            assert(ok_inv(st0, st2, tx2, r2, (fuel - 1) as nat));
        },
        Phase::Saving => {
            if tx.target is Some {
                assert(st2.work == base);
                assert(ok_inv(st0, st2, tx2, r2, (fuel - 1) as nat));
            } else {
                assert(st.work == base);
                lemma_start_tags(st0, st, tx, r, fuel);
                lemma_run_ok(st0, st2, tx2, r2, (fuel - 1) as nat);
                return;
            }
        },
        Phase::Unlinking => {
            lemma_start_tags(st0, st, tx, r, fuel);
        },
        Phase::Tagging => {
            lemma_tagging_step(st0, st, tx, r, fuel);
        },
        Phase::Linking => {
            lemma_linking_step(st0, st, tx, r, fuel);
        },
        _ => {},
    }
    lemma_run_ok(st0, st2, tx2, r2, (fuel - 1) as nat);
}

proof fn lemma_base_wf(st0: TxStore, tx: TxView)
    requires
        can_succeed(st0, tx),
    ensures
        tags_grown(cleared(st0, tx), cleared(st0, tx)),
        forall|l: (int, int)| #[trigger] cleared(st0, tx).links.contains(l) ==> l.0 != tid(st0, tx),
        cleared(st0, tx).tags == st0.committed.tags,
        cleared(st0, tx).next_tag == st0.committed.next_tag,
{
    let db = st0.committed;
    assert forall|l: (int, int)| #[trigger] cleared(st0, tx).links.contains(l) implies l.0 != tid(
        st0,
        tx,
    ) by {
        if tx.target is None {
            assert(db.links.contains(l));
        }
    }
}

proof fn lemma_start_tags(st0: TxStore, st: TxStore, tx: TxView, r: ReplyView, fuel: nat)
    requires
        ok_inv(st0, st, tx, r, fuel),
        tx.phase == Phase::Saving || tx.phase == Phase::Unlinking,
        tx.phase == Phase::Saving ==> tx.target is None,
        st.work == cleared(st0, tx),
    ensures
        ({
            let (tx2, stmt) = next(tx, r);
            let (st2, r2) = apply(st, stmt);
            ok_inv(st0, st2, tx2, r2, (fuel - 1) as nat)
        }),
{
    let (tx2, stmt) = next(tx, r);
    let (st2, r2) = apply(st, stmt);
    let base = cleared(st0, tx);
    let t = tid(st0, tx);
    lemma_base_wf(st0, tx);
    assert(cleared(st0, tx2) == base);
    if tx.names.len() == 0 {
        let ids = Seq::<int>::empty();
        assert(base.links.union(link_set(t, ids, 0)) =~= base.links);
        assert(st2.work == base);
        assert(ids.len() == 0 && (forall|j: int| 0 <= j < 0 ==> ids[j] == st2.work.tags[
            #[trigger] tx.names[j]]) && st2.work.links == base.links.union(link_set(t, ids, 0)));
        assert(done_db(st0, tx2, st2.work));
    } else {
        let name = tx.names[0];
        let w = st2.work;
        assert(tags_grown(base, w)) by {
            if !base.tags.contains_key(name) {
                assert forall|a: Seq<char>, b: Seq<char>|
                    #[trigger] w.tags.contains_key(a) && #[trigger] w.tags.contains_key(b)
                        && w.tags[a] == w.tags[b] implies a == b by {
                    if a != name && b != name {
                        assert(base.tags.contains_key(a) && base.tags.contains_key(b));
                    } else if a == name && b != name {
                        assert(base.tags.contains_key(b));
                    } else if a != name && b == name {
                        assert(base.tags.contains_key(a));
                    }
                }
            }
        }
        assert(w.links == base.links);
    }
}

proof fn lemma_tagging_step(st0: TxStore, st: TxStore, tx: TxView, r: ReplyView, fuel: nat)
    requires
        ok_inv(st0, st, tx, r, fuel),
        tx.phase == Phase::Tagging,
    ensures
        ({
            let (tx2, stmt) = next(tx, r);
            let (st2, r2) = apply(st, stmt);
            ok_inv(st0, st2, tx2, r2, (fuel - 1) as nat)
        }),
{
    let (tx2, stmt) = next(tx, r);
    let (st2, r2) = apply(st, stmt);
    let base = cleared(st0, tx);
    let t = tid(st0, tx);
    let n = tx.names.len() as int;
    assert(cleared(st0, tx2) == base);
    assert(tx2.tag_ids == tx.tag_ids.push(st.work.tags[tx.names[tx.idx]]));
    assert forall|j: int| 0 <= j <= tx.idx implies tx2.tag_ids[j] == st.work.tags[
        #[trigger] tx.names[j]] by {}
    if tx.idx + 1 < n {
        let name = tx.names[tx.idx + 1];
        let w = st.work;
        let w2 = st2.work;
        assert(tags_grown(base, w2)) by {
            if !w.tags.contains_key(name) {
                assert forall|a: Seq<char>, b: Seq<char>|
                    #[trigger] w2.tags.contains_key(a) && #[trigger] w2.tags.contains_key(b)
                        && w2.tags[a] == w2.tags[b] implies a == b by {
                    if a != name && b != name {
                        assert(w.tags.contains_key(a) && w.tags.contains_key(b));
                    } else if a == name && b != name {
                        assert(w.tags.contains_key(b));
                    } else if a != name && b == name {
                        assert(w.tags.contains_key(a));
                    }
                }
            }
        }
        assert forall|j: int| 0 <= j <= tx2.idx implies w2.tags.contains_key(
            #[trigger] tx2.names[j],
        ) by {
            if j < tx2.idx {
                assert(w.tags.contains_key(tx.names[j]));
            }
        }
        assert forall|j: int| 0 <= j < tx2.idx implies tx2.tag_ids[j] == w2.tags[
            #[trigger] tx2.names[j]] by {
            assert(w.tags.contains_key(tx.names[j]));
        }
        assert(ok_inv(st0, st2, tx2, r2, (fuel - 1) as nat));
    } else {
        assert(st2.work.links == base.links.union(link_set(t, tx2.tag_ids, 1))) by {
            assert(st2.work.links =~= base.links.union(link_set(t, tx2.tag_ids, 1))) by {
                assert forall|l: (int, int)| link_set(t, tx2.tag_ids, 1).contains(l) <==> l == (
                    t,
                    tx2.tag_ids[0],
                ) by {
                    if l == (t, tx2.tag_ids[0]) {
                        assert(0 <= 0 < 1 && l.1 == tx2.tag_ids[0]);
                    }
                }
            }
        }
        assert(ok_inv(st0, st2, tx2, r2, (fuel - 1) as nat));
    }
}

proof fn lemma_linking_step(st0: TxStore, st: TxStore, tx: TxView, r: ReplyView, fuel: nat)
    requires
        ok_inv(st0, st, tx, r, fuel),
        tx.phase == Phase::Linking,
    ensures
        ({
            let (tx2, stmt) = next(tx, r);
            let (st2, r2) = apply(st, stmt);
            ok_inv(st0, st2, tx2, r2, (fuel - 1) as nat)
        }),
{
    let (tx2, stmt) = next(tx, r);
    let (st2, r2) = apply(st, stmt);
    let base = cleared(st0, tx);
    let t = tid(st0, tx);
    let n = tx.names.len() as int;
    assert(cleared(st0, tx2) == base);
    if tx.idx + 1 < n {
        let k = tx.idx + 1;
        assert(link_set(t, tx.tag_ids, k + 1) =~= link_set(t, tx.tag_ids, k).insert(
            (t, tx.tag_ids[k]),
        )) by {
            assert forall|l: (int, int)| #[trigger] link_set(t, tx.tag_ids, k + 1).contains(l)
                implies link_set(t, tx.tag_ids, k).insert((t, tx.tag_ids[k])).contains(l) by {
                let j = choose|j: int| 0 <= j < k + 1 && l.1 == tx.tag_ids[j];
                if j < k {
                    assert(link_set(t, tx.tag_ids, k).contains(l));
                }
            }
            assert forall|l: (int, int)| #[trigger] link_set(t, tx.tag_ids, k).contains(l)
                implies link_set(t, tx.tag_ids, k + 1).contains(l) by {
                let j = choose|j: int| 0 <= j < k && l.1 == tx.tag_ids[j];
                assert(0 <= j < k + 1);
            }
            assert(link_set(t, tx.tag_ids, k + 1).contains((t, tx.tag_ids[k])));
        }
        assert(st2.work.links =~= base.links.union(link_set(t, tx2.tag_ids, tx2.idx + 1)));
        assert(ok_inv(st0, st2, tx2, r2, (fuel - 1) as nat));
    } else {
        assert(done_db(st0, tx2, st2.work)) by {
            let ids = tx.tag_ids;
            assert(ids.len() == n && (forall|j: int| 0 <= j < n ==> ids[j] == st2.work.tags[
                #[trigger] tx.names[j]]));
        }
        assert(ok_inv(st0, st2, tx2, r2, (fuel - 1) as nat));
    }
}

/// Facts about the tables a successful run leaves.
proof fn lemma_done(st0: TxStore, tx: TxView, db: Db)
    requires
        can_succeed(st0, tx),
        done_db(st0, tx, db),
    ensures
        db_wf(db),
        linked_names(db, tid(st0, tx)) == tx.names.to_set(),
        db.topics == written(st0, tx).topics,
        db.next_topic == written(st0, tx).next_topic,
        db.contents == st0.committed.contents.insert(tid(st0, tx), (tx.md, tx.html)),
        forall|l: (int, int)| l.0 != tid(st0, tx) ==> (#[trigger] db.links.contains(l)
            <==> st0.committed.links.contains(l)),
        forall|n: Seq<char>| #[trigger]
            st0.committed.tags.contains_key(n) ==> db.tags.contains_key(n) && db.tags[n]
                == st0.committed.tags[n],
        forall|n: Seq<char>| #[trigger]
            db.tags.contains_key(n) && !st0.committed.tags.contains_key(n) ==> db.tags[n]
                >= st0.committed.next_tag,
        forall|n: Seq<char>| #[trigger]
            db.tags.contains_key(n) <==> st0.committed.tags.contains_key(n) || tx.names.contains(n),
        forall|g: int| #[trigger]
            db.links.contains((tid(st0, tx), g)) <==> exists|j: int|
                0 <= j < tx.names.len() && g == db.tags[#[trigger] tx.names[j]],
{
    let base = cleared(st0, tx);
    let t = tid(st0, tx);
    let n = tx.names.len() as int;
    let d0 = st0.committed;
    lemma_base_wf(st0, tx);
    let ids = choose|ids: Seq<int>|
        ids.len() == n && (forall|j: int| 0 <= j < n ==> ids[j] == db.tags[#[trigger] tx.names[j]])
            && db.links == base.links.union(link_set(t, ids, n));
    if tx.target is Some {
        assert(d0.topics.contains_key(t));
    }
    assert forall|l: (int, int)| #[trigger] db.links.contains(l) implies l.0 < db.next_topic && l.1
        < db.next_tag by {
        if base.links.contains(l) {
            assert(d0.links.contains(l));
        } else {
            let j = choose|j: int| 0 <= j < n && l.1 == ids[j];
            assert(db.tags.contains_key(tx.names[j]));
        }
    }
    assert forall|id: int| #[trigger] db.topics.contains_key(id) implies id < db.next_topic by {
        if id != t {
            assert(d0.topics.contains_key(id));
        }
    }
    assert(linked_names(db, t) =~= tx.names.to_set()) by {
        assert forall|nm: Seq<char>| linked_names(db, t).contains(nm) implies tx.names.contains(
            nm,
        ) by {
            let g = db.tags[nm];
            assert(db.links.contains((t, g)));
            assert(!base.links.contains((t, g)));
            let j = choose|j: int| 0 <= j < n && g == ids[j];
            assert(db.tags.contains_key(tx.names[j]));
            assert(tx.names[j] == nm);
        }
        assert forall|nm: Seq<char>| tx.names.contains(nm) implies linked_names(db, t).contains(
            nm,
        ) by {
            let j = choose|j: int| 0 <= j < n && tx.names[j] == nm;
            assert(db.tags.contains_key(tx.names[j]));
            assert(link_set(t, ids, n).contains((t, ids[j])));
        }
    }
    assert forall|l: (int, int)| l.0 != t implies (#[trigger] db.links.contains(l)
        <==> d0.links.contains(l)) by {
        if d0.links.contains(l) {
            assert(base.links.contains(l));
        }
    }
    assert forall|nm: Seq<char>| #[trigger]
        db.tags.contains_key(nm) <==> d0.tags.contains_key(nm) || tx.names.contains(nm) by {
        if tx.names.contains(nm) {
            let j = choose|j: int| 0 <= j < n && tx.names[j] == nm;
            assert(db.tags.contains_key(tx.names[j]));
        }
    }
    assert forall|g: int| #[trigger] db.links.contains((t, g)) <==> exists|j: int|
        0 <= j < n && g == db.tags[#[trigger] tx.names[j]] by {
        if db.links.contains((t, g)) {
            assert(!base.links.contains((t, g)));
            let j = choose|j: int| 0 <= j < n && g == ids[j];
            assert(g == db.tags[tx.names[j]]);
        }
        if exists|j: int| 0 <= j < n && g == db.tags[#[trigger] tx.names[j]] {
            let j = choose|j: int| 0 <= j < n && g == db.tags[#[trigger] tx.names[j]];
            assert(link_set(t, ids, n).contains((t, ids[j])));
        }
    }
}

/// A create whose (subject, slug) is free commits: the new topic gets the next
/// id, its row and content hold the input, the names of its tags are the
/// distinct names of the tag field, and its links are exactly those to their
/// tags. Tags are added only for names of the field that had none; other
/// topics and their links are untouched, and registered tags keep their ids.
pub proof fn lemma_create_commits(st0: TxStore, ct: CreateTopic, html: Seq<char>, now: int)
    requires
        db_wf(st0.committed),
        !slug_taken(st0.committed, ct.subject_id as int, ct.slug@, None),
    ensures
        ({
            let tx0 = create_view(ct, html, now);
            let (st, tx) = run(st0, tx0, ReplyView::Done, fuel_for(tx0.names.len()));
            let id = st0.committed.next_topic;
            let db = st.committed;
            &&& tx.outcome == Some(Ok::<int, crate::error::AppErrorView>(id))
            &&& db_wf(db)
            &&& db.next_topic == id + 1
            &&& db.topics == st0.committed.topics.insert(
                id,
                TopicRow { fields: tx0.fields, dateline: now, is_del: false },
            )
            &&& db.contents == st0.committed.contents.insert(id, (ct.md@, html))
            &&& linked_names(db, id) == tag_list(ct.tags@).to_set()
            &&& forall|g: int| #[trigger]
                db.links.contains((id, g)) <==> exists|j: int|
                    0 <= j < tx0.names.len() && g == db.tags[#[trigger] tx0.names[j]]
            &&& forall|n: Seq<char>| #[trigger]
                db.tags.contains_key(n) <==> st0.committed.tags.contains_key(n) || tx0.names.contains(n)
            &&& forall|l: (int, int)| l.0 != id ==> (#[trigger] db.links.contains(l)
                <==> st0.committed.links.contains(l))
            &&& forall|n: Seq<char>| #[trigger]
                st0.committed.tags.contains_key(n) ==> db.tags.contains_key(n) && db.tags[n]
                    == st0.committed.tags[n]
            &&& forall|n: Seq<char>| #[trigger]
                db.tags.contains_key(n) && !st0.committed.tags.contains_key(n) ==> db.tags[n]
                    >= st0.committed.next_tag
        }),
{
    let tx0 = create_view(ct, html, now);
    let fuel = fuel_for(tx0.names.len());
    assert(ok_inv(st0, st0, tx0, ReplyView::Done, fuel));
    lemma_run_ok(st0, st0, tx0, ReplyView::Done, fuel);
    let (st, tx) = run(st0, tx0, ReplyView::Done, fuel);
    lemma_done(st0, tx0, st.committed);
}

/// An update of an existing topic whose new (subject, slug) is free among the
/// other topics commits, and afterwards the names of the topic's tags are
/// exactly the distinct names of the new tag field, and its links exactly
/// those to their tags: the tag set is replaced, not merged. Tags are added
/// only for new names, and existing tags, with their ids, stay. Other topics
/// and their links are untouched.
pub proof fn lemma_update_replaces_tags(st0: TxStore, ut: UpdateTopic, html: Seq<char>)
    requires
        db_wf(st0.committed),
        st0.committed.topics.contains_key(ut.id as int),
        !slug_taken(st0.committed, ut.subject_id as int, ut.slug@, Some(ut.id as int)),
    ensures
        ({
            let tx0 = update_view(ut, html);
            let (st, tx) = run(st0, tx0, ReplyView::Done, fuel_for(tx0.names.len()));
            let id = ut.id as int;
            let db = st.committed;
            &&& tx.outcome == Some(Ok::<int, crate::error::AppErrorView>(id))
            &&& db_wf(db)
            &&& db.topics.contains_key(id)
            &&& db.topics[id].fields == tx0.fields
            &&& db.contents.contains_key(id) && db.contents[id] == (ut.md@, html)
            &&& linked_names(db, id) == tag_list(ut.tags@).to_set()
            &&& forall|g: int| #[trigger]
                db.links.contains((id, g)) <==> exists|j: int|
                    0 <= j < tx0.names.len() && g == db.tags[#[trigger] tx0.names[j]]
            &&& forall|n: Seq<char>| #[trigger]
                db.tags.contains_key(n) <==> st0.committed.tags.contains_key(n) || tx0.names.contains(n)
            &&& forall|n: Seq<char>| #[trigger]
                st0.committed.tags.contains_key(n) ==> db.tags.contains_key(n) && db.tags[n]
                    == st0.committed.tags[n]
            &&& forall|l: (int, int)| l.0 != id ==> (#[trigger] db.links.contains(l)
                <==> st0.committed.links.contains(l))
        }),
{
    let tx0 = update_view(ut, html);
    let fuel = fuel_for(tx0.names.len());
    assert(ok_inv(st0, st0, tx0, ReplyView::Done, fuel));
    lemma_run_ok(st0, st0, tx0, ReplyView::Done, fuel);
    let (st, tx) = run(st0, tx0, ReplyView::Done, fuel);
    lemma_done(st0, tx0, st.committed);
}

/// A create whose (subject, slug) is taken by a non-deleted topic fails with a
/// conflict and leaves the committed tables as they were.
pub proof fn lemma_create_conflict(st0: TxStore, ct: CreateTopic, html: Seq<char>, now: int)
    requires
        slug_taken(st0.committed, ct.subject_id as int, ct.slug@, None),
    ensures
        ({
            let tx0 = create_view(ct, html, now);
            let (st, tx) = run(st0, tx0, ReplyView::Done, fuel_for(tx0.names.len()));
            &&& tx.outcome is Some
            &&& tx.outcome->0 is Err
            &&& tx.outcome->0->Err_0.error_type == AppErrorType::IsExists
            &&& st.committed == st0.committed
        }),
{
    let tx0 = create_view(ct, html, now);
    let fuel = fuel_for(tx0.names.len());
    let (tx1, s1) = next(tx0, ReplyView::Done);
    let (st1, r1) = apply(st0, s1);
    let (tx2, s2) = next(tx1, r1);
    let (st2, r2) = apply(st1, s2);
    assert(r2 == ReplyView::Count(1));
    let (tx3, s3) = next(tx2, r2);
    let (st3, r3) = apply(st2, s3);
    let (tx4, s4) = next(tx3, r3);
    assert(s4 is Idle);
    assert(run(st3, tx3, r3, (fuel - 3) as nat) == (st3, tx4));
    assert(run(st2, tx2, r2, (fuel - 2) as nat) == run(st3, tx3, r3, (fuel - 3) as nat));
    assert(run(st1, tx1, r1, (fuel - 1) as nat) == run(st2, tx2, r2, (fuel - 2) as nat));
    assert(run(st0, tx0, ReplyView::Done, fuel) == run(st1, tx1, r1, (fuel - 1) as nat));
}

/// Two creates whose tag fields share a name register that name once: the
/// second create reuses the tag id the first one left (or the one it had
/// before), both new topics link to it, and the topics linked to it are those
/// linked before plus the two new ones (exactly the two when none were).
pub proof fn lemma_shared_tag(
    st0: TxStore,
    a: CreateTopic,
    html_a: Seq<char>,
    now_a: int,
    b: CreateTopic,
    html_b: Seq<char>,
    now_b: int,
    name: Seq<char>,
)
    requires
        db_wf(st0.committed),
        !slug_taken(st0.committed, a.subject_id as int, a.slug@, None),
        !slug_taken(st0.committed, b.subject_id as int, b.slug@, None),
        a.subject_id != b.subject_id || a.slug@ != b.slug@,
        a.tags@.len() > 0 && crate::text::split_on(a.tags@, ',').contains(name),
        b.tags@.len() > 0 && crate::text::split_on(b.tags@, ',').contains(name),
    ensures
        ({
            let txa = create_view(a, html_a, now_a);
            let txb = create_view(b, html_b, now_b);
            let (st1, ra) = run(st0, txa, ReplyView::Done, fuel_for(txa.names.len()));
            let (st2, rb) = run(st1, txb, ReplyView::Done, fuel_for(txb.names.len()));
            let ida = st0.committed.next_topic;
            let idb = st1.committed.next_topic;
            let db = st2.committed;
            &&& ra.outcome == Some(Ok::<int, crate::error::AppErrorView>(ida))
            &&& rb.outcome == Some(Ok::<int, crate::error::AppErrorView>(idb))
            &&& ida != idb
            &&& db.tags.contains_key(name)
            &&& st1.committed.tags.contains_key(name) && db.tags[name] == st1.committed.tags[name]
            &&& st0.committed.tags.contains_key(name) ==> db.tags[name] == st0.committed.tags[name]
            &&& tagged_topics(db, db.tags[name]) == tagged_topics(
                st0.committed,
                db.tags[name],
            ).insert(ida).insert(idb)
            &&& !st0.committed.tags.contains_key(name) ==> tagged_topics(db, db.tags[name])
                == set![ida, idb]
        }),
{
    let txa = create_view(a, html_a, now_a);
    let txb = create_view(b, html_b, now_b);
    lemma_create_commits(st0, a, html_a, now_a);
    let (st1, ra) = run(st0, txa, ReplyView::Done, fuel_for(txa.names.len()));
    let d0 = st0.committed;
    let d1 = st1.committed;
    let ida = d0.next_topic;
    assert(d1.topics.contains_key(ida));
    assert(!slug_taken(d1, b.subject_id as int, b.slug@, None)) by {
        if slug_taken(d1, b.subject_id as int, b.slug@, None) {
            let id = choose|id: int|
                #[trigger] d1.topics.contains_key(id) && !d1.topics[id].is_del
                    && d1.topics[id].fields.subject_id == b.subject_id as int
                    && d1.topics[id].fields.slug == b.slug@ && None::<int> != Some(id);
            if id != ida {
                assert(d0.topics.contains_key(id));
            }
        }
    }
    lemma_create_commits(st1, b, html_b, now_b);
    let (st2, rb) = run(st1, txb, ReplyView::Done, fuel_for(txb.names.len()));
    let d2 = st2.committed;
    let idb = d1.next_topic;
    lemma_dedup(crate::text::split_on(a.tags@, ','));
    lemma_dedup(crate::text::split_on(b.tags@, ','));
    assert(crate::text::split_on(a.tags@, ',').to_set().contains(name));
    assert(crate::text::split_on(b.tags@, ',').to_set().contains(name));
    assert(tag_list(a.tags@).to_set().contains(name));
    assert(tag_list(b.tags@).to_set().contains(name));
    assert(linked_names(d1, ida).contains(name));
    assert(linked_names(d2, idb).contains(name));
    let g = d2.tags[name];
    assert(d1.tags[name] == g);
    assert(tagged_topics(d2, g) =~= tagged_topics(d0, g).insert(ida).insert(idb)) by {
        assert forall|t: int| tagged_topics(d2, g).contains(t) <==> tagged_topics(d0, g).insert(
            ida,
        ).insert(idb).contains(t) by {
            if t != idb {
                assert(d2.links.contains((t, g)) <==> d1.links.contains((t, g)));
                if t != ida {
                    assert(d1.links.contains((t, g)) <==> d0.links.contains((t, g)));
                }
            }
        }
    }
    if !d0.tags.contains_key(name) {
        assert(tagged_topics(d0, g) =~= Set::<int>::empty()) by {
            assert forall|t: int| !tagged_topics(d0, g).contains(t) by {
                if d0.links.contains((t, g)) {
                    assert(g < d0.next_tag);
                }
            }
        }
        assert(tagged_topics(d2, g) =~= set![ida, idb]);
    }
}

/// Runs a soft-delete transaction against the store for at most `fuel`
/// statements, starting from reply `r`.
pub open spec fn run_mark(st: TxStore, tx: MarkView, r: ReplyView, fuel: nat) -> (TxStore, MarkView)
    decreases fuel,
{
    if fuel == 0 {
        (st, tx)
    } else {
        let (tx2, stmt) = mark_next(tx, r);
        if stmt is Idle {
            (st, tx2)
        } else {
            let (st2, r2) = apply(st, stmt);
            run_mark(st2, tx2, r2, (fuel - 1) as nat)
        }
    }
}

/// Soft delete and restore: on an existing topic the transaction commits, the
/// topic's flag becomes `is_del` with the rest of its row kept, every link of
/// the topic gets the same flag, and nothing else changes.
pub proof fn lemma_mark_commits(st0: TxStore, id: int, is_del: bool)
    requires
        st0.committed.topics.contains_key(id),
    ensures
        ({
            let (st, tx) = run_mark(st0, mark_start(id, is_del), ReplyView::Done, 6);
            let d0 = st0.committed;
            let db = st.committed;
            &&& tx.outcome matches Some(Ok((t, _))) && t == 1
            &&& db.topics == d0.topics.insert(id, TopicRow { is_del, ..d0.topics[id] })
            &&& forall|l: (int, int)|
                l.0 == id && #[trigger] db.links.contains(l) ==> (db.deleted_links.contains(l)
                    <==> is_del)
            &&& forall|l: (int, int)|
                l.0 != id ==> (#[trigger] db.deleted_links.contains(l)
                    <==> d0.deleted_links.contains(l))
            &&& db.links == d0.links
            &&& db.tags == d0.tags
            &&& db.contents == d0.contents
        }),
{
    let tx0 = mark_start(id, is_del);
    let (tx1, s1) = mark_next(tx0, ReplyView::Done);
    let (st1, r1) = apply(st0, s1);
    let (tx2, s2) = mark_next(tx1, r1);
    let (st2, r2) = apply(st1, s2);
    let (tx3, s3) = mark_next(tx2, r2);
    let (st3, r3) = apply(st2, s3);
    let (tx4, s4) = mark_next(tx3, r3);
    let (st4, r4) = apply(st3, s4);
    let (tx5, s5) = mark_next(tx4, r4);
    assert(s4 is Commit);
    assert(s5 is Idle);
    assert(run_mark(st4, tx4, r4, 2) == (st4, tx5));
    assert(run_mark(st3, tx3, r3, 3) == run_mark(st4, tx4, r4, 2));
    assert(run_mark(st2, tx2, r2, 4) == run_mark(st3, tx3, r3, 3));
    assert(run_mark(st1, tx1, r1, 5) == run_mark(st2, tx2, r2, 4));
    assert(run_mark(st0, tx0, ReplyView::Done, 6) == run_mark(st1, tx1, r1, 5));
    let d0 = st0.committed;
    assert forall|l: (int, int)|
        l.0 == id && #[trigger] st4.committed.links.contains(l) implies (
        st4.committed.deleted_links.contains(l) <==> is_del) by {
        if is_del {
            assert(d0.links.filter(|l: (int, int)| l.0 == id).contains(l));
        }
    }
}

} // verus!
