use std::collections::{BTreeMap, BTreeSet};

use axum_rs::error::AppErrorType;
use axum_rs::form::{CreateTopic, UpdateTopic};
use axum_rs::tags::tag_names;
use axum_rs::topic_del::{del_or_restore, MarkTx};
use axum_rs::topic_tx::{create, update, Reply, Stmt, TopicTx};

#[derive(Clone, Debug, PartialEq)]
struct Row {
    subject_id: i32,
    title: String,
    slug: String,
    is_del: bool,
}

#[derive(Clone, Debug, PartialEq, Default)]
struct Tables {
    topics: BTreeMap<i64, Row>,
    contents: BTreeMap<i64, (String, String)>,
    tags: BTreeMap<String, i64>,
    links: BTreeSet<(i64, i64)>,
    next_topic: i64,
    next_tag: i64,
}

#[derive(Default)]
struct Store {
    committed: Tables,
    work: Tables,
    fail_on_link: bool,
}

impl Store {
    fn exec(&mut self, s: &Stmt) -> Reply {
        let w = &mut self.work;
        match s {
            Stmt::Begin => {
                self.work = self.committed.clone();
                Reply::Done
            }
            Stmt::CountSlug { subject_id, slug, exclude_id } => {
                let n = w
                    .topics
                    .iter()
                    .filter(|(id, r)| {
                        !r.is_del && r.subject_id == *subject_id && &r.slug == slug && Some(**id) != *exclude_id
                    })
                    .count();
                Reply::Count(n as i64)
            }
            Stmt::InsertTopic { fields, .. } => {
                let id = w.next_topic;
                w.next_topic += 1;
                w.topics.insert(
                    id,
                    Row { subject_id: fields.subject_id, title: fields.title.clone(), slug: fields.slug.clone(), is_del: false },
                );
                Reply::Id(id)
            }
            Stmt::UpdateTopic { id, fields } => {
                if let Some(r) = w.topics.get_mut(id) {
                    r.subject_id = fields.subject_id;
                    r.title = fields.title.clone();
                    r.slug = fields.slug.clone();
                }
                Reply::Done
            }
            Stmt::UpsertContent { topic_id, md, html } => {
                w.contents.insert(*topic_id, (md.clone(), html.clone()));
                Reply::Done
            }
            Stmt::DeleteLinks { topic_id } => {
                w.links.retain(|l| l.0 != *topic_id);
                Reply::Done
            }
            Stmt::UpsertTag { name } => {
                if let Some(id) = w.tags.get(name) {
                    Reply::Id(*id)
                } else {
                    let id = w.next_tag;
                    w.next_tag += 1;
                    w.tags.insert(name.clone(), id);
                    Reply::Id(id)
                }
            }
            Stmt::LinkTag { topic_id, tag_id } => {
                if self.fail_on_link {
                    return Reply::Failed(axum_rs::error::AppError::db_error("connection reset"));
                }
                w.links.insert((*topic_id, *tag_id));
                Reply::Done
            }
            Stmt::Commit => {
                self.committed = self.work.clone();
                Reply::Done
            }
            Stmt::Rollback => {
                self.work = self.committed.clone();
                Reply::Done
            }
            Stmt::MarkTopic { id, is_del } => match w.topics.get_mut(id) {
                Some(r) => {
                    r.is_del = *is_del;
                    Reply::Count(1)
                }
                None => Reply::Count(0),
            },
            Stmt::MarkLinks { topic_id, .. } => {
                Reply::Count(w.links.iter().filter(|l| l.0 == *topic_id).count() as i64)
            }
            Stmt::Idle => Reply::Done,
        }
    }

    fn run(&mut self, mut tx: TopicTx) -> Result<i64, axum_rs::error::AppError> {
        let mut reply = Reply::Done;
        for _ in 0..1000 {
            let s = tx.step(reply);
            if let Stmt::Idle = s {
                break;
            }
            reply = self.exec(&s);
        }
        assert!(tx.is_done());
        tx.into_outcome().unwrap()
    }

    fn run_mark(&mut self, mut tx: MarkTx) -> Result<(i64, i64), axum_rs::error::AppError> {
        let mut reply = Reply::Done;
        loop {
            let s = tx.step(reply);
            if let Stmt::Idle = s {
                break;
            }
            reply = self.exec(&s);
        }
        tx.into_outcome().unwrap()
    }

    fn tag_names_of(&self, topic: i64) -> BTreeSet<String> {
        let t = &self.committed;
        t.tags
            .iter()
            .filter(|(_, id)| t.links.contains(&(topic, **id)))
            .map(|(n, _)| n.clone())
            .collect()
    }
}

fn new_topic(subject_id: i32, slug: &str, tags: &str) -> CreateTopic {
    CreateTopic {
        subject_id,
        title: format!("title {}", slug),
        slug: slug.to_string(),
        summary: "summary".to_string(),
        src: "src".to_string(),
        author: "author".to_string(),
        md: "# md".to_string(),
        tags: tags.to_string(),
    }
}

fn set(names: &[&str]) -> BTreeSet<String> {
    names.iter().map(|s| s.to_string()).collect()
}

#[test]
fn create_commits_topic_content_and_tags() {
    let mut store = Store::default();
    store.committed.next_topic = 7;
    let id = store.run(create(&new_topic(1, "intro", "rust,web,rust"), "<p>x</p>", 100)).unwrap();
    assert_eq!(id, 7);
    let t = &store.committed;
    assert_eq!(t.topics[&7].slug, "intro");
    assert_eq!(t.contents[&7], ("# md".to_string(), "<p>x</p>".to_string()));
    assert_eq!(store.tag_names_of(7), set(&["rust", "web"]));
    assert_eq!(t.links.len(), 2);
}

#[test]
fn create_without_tags_links_nothing() {
    let mut store = Store::default();
    let id = store.run(create(&new_topic(1, "a", ""), "<p>x</p>", 1)).unwrap();
    assert!(store.tag_names_of(id).is_empty());
    assert!(store.committed.tags.is_empty());
}

#[test]
fn create_conflict_leaves_store_unchanged() {
    let mut store = Store::default();
    store.run(create(&new_topic(1, "intro", "a"), "<p>1</p>", 1)).unwrap();
    let before = store.committed.clone();
    let err = store.run(create(&new_topic(1, "intro", "b,c"), "<p>2</p>", 2)).unwrap_err();
    assert!(matches!(err.error_type, AppErrorType::IsExists));
    assert_eq!(err.message.as_deref(), Some("相同专题、相同固定链接的文章已存在"));
    assert_eq!(store.committed, before);
}

#[test]
fn same_slug_in_other_subject_is_no_conflict() {
    let mut store = Store::default();
    store.run(create(&new_topic(1, "intro", ""), "", 1)).unwrap();
    assert!(store.run(create(&new_topic(2, "intro", ""), "", 1)).is_ok());
}

#[test]
fn deleted_topic_does_not_block_slug() {
    let mut store = Store::default();
    let id = store.run(create(&new_topic(1, "intro", ""), "", 1)).unwrap();
    store.committed.topics.get_mut(&id).unwrap().is_del = true;
    assert!(store.run(create(&new_topic(1, "intro", ""), "", 1)).is_ok());
}

#[test]
fn shared_tag_is_registered_once() {
    let mut store = Store::default();
    let a = store.run(create(&new_topic(1, "a", "rust,web"), "", 1)).unwrap();
    let b = store.run(create(&new_topic(1, "b", "rust"), "", 1)).unwrap();
    assert_ne!(a, b);
    let t = &store.committed;
    assert_eq!(t.tags.keys().filter(|n| n.as_str() == "rust").count(), 1);
    let g = t.tags["rust"];
    let linked: Vec<i64> = t.links.iter().filter(|l| l.1 == g).map(|l| l.0).collect();
    assert_eq!(linked, vec![a, b]);
}

#[test]
fn update_replaces_tag_set() {
    let mut store = Store::default();
    let id = store.run(create(&new_topic(1, "a", "A,B"), "<p>1</p>", 1)).unwrap();
    let ut = UpdateTopic {
        id,
        title: "new".to_string(),
        subject_id: 1,
        slug: "a".to_string(),
        summary: "s".to_string(),
        src: "x".to_string(),
        author: "y".to_string(),
        md: "md2".to_string(),
        tags: "C".to_string(),
    };
    assert_eq!(store.run(update(&ut, "<p>2</p>")).unwrap(), id);
    let t = &store.committed;
    let mine: Vec<&(i64, i64)> = t.links.iter().filter(|l| l.0 == id).collect();
    assert_eq!(mine.len(), 1);
    assert_eq!(*mine[0], (id, t.tags["C"]));
    assert_eq!(store.tag_names_of(id), set(&["C"]));
    assert_eq!(t.topics[&id].title, "new");
    assert_eq!(t.contents[&id].1, "<p>2</p>");
}

#[test]
fn update_conflicts_only_with_other_topics() {
    let mut store = Store::default();
    let a = store.run(create(&new_topic(1, "a", ""), "", 1)).unwrap();
    store.run(create(&new_topic(1, "b", ""), "", 1)).unwrap();
    let mut ut = UpdateTopic {
        id: a,
        title: "t".to_string(),
        subject_id: 1,
        slug: "a".to_string(),
        summary: String::new(),
        src: String::new(),
        author: String::new(),
        md: String::new(),
        tags: String::new(),
    };
    assert!(store.run(update(&ut, "")).is_ok());
    ut.slug = "b".to_string();
    let before = store.committed.clone();
    let err = store.run(update(&ut, "")).unwrap_err();
    assert!(matches!(err.error_type, AppErrorType::IsExists));
    assert_eq!(err.message.as_deref(), Some("已存在"));
    assert_eq!(store.committed, before);
}

#[test]
fn storage_failure_rolls_back() {
    let mut store = Store::default();
    store.fail_on_link = true;
    let err = store.run(create(&new_topic(1, "a", "x"), "", 1)).unwrap_err();
    assert!(matches!(err.error_type, AppErrorType::DbError));
    assert_eq!(err.cause.as_deref(), Some("connection reset"));
    assert_eq!(store.committed, Tables::default());
}

#[test]
fn failed_begin_ends_without_rollback() {
    let mut tx = create(&new_topic(1, "a", ""), "", 1);
    assert!(matches!(tx.step(Reply::Done), Stmt::Begin));
    let e = axum_rs::error::AppError::db_error("no connection");
    assert!(matches!(tx.step(Reply::Failed(e)), Stmt::Idle));
    let out = tx.into_outcome().unwrap();
    assert_eq!(out.unwrap_err().cause.as_deref(), Some("no connection"));
}

#[test]
fn unexpected_reply_is_a_storage_error() {
    let mut tx = create(&new_topic(1, "a", ""), "", 1);
    tx.step(Reply::Done);
    tx.step(Reply::Done);
    assert!(matches!(tx.step(Reply::Id(3)), Stmt::Rollback));
    assert!(matches!(tx.step(Reply::Done), Stmt::Idle));
    let err = tx.into_outcome().unwrap().unwrap_err();
    assert!(matches!(err.error_type, AppErrorType::DbError));
}

#[test]
fn tag_field_parsing() {
    assert!(tag_names("").is_empty());
    assert_eq!(tag_names("a,b,a"), vec!["a".to_string(), "b".to_string()]);
    assert_eq!(tag_names("a,,b"), vec!["a".to_string(), String::new(), "b".to_string()]);
    assert_eq!(tag_names(" x ,x"), vec![" x ".to_string(), "x".to_string()]);
}

#[test]
fn soft_delete_then_restore() {
    let mut store = Store::default();
    let id = store.run(create(&new_topic(1, "a", "x,y"), "", 1)).unwrap();
    assert_eq!(store.run_mark(del_or_restore(id, true)).unwrap(), (1, 2));
    assert!(store.committed.topics[&id].is_del);
    assert!(store.run(create(&new_topic(1, "a", ""), "", 1)).is_ok());
    assert_eq!(store.run_mark(del_or_restore(id, false)).unwrap(), (1, 2));
    assert!(!store.committed.topics[&id].is_del);
}

#[test]
fn soft_delete_of_missing_topic_counts_nothing() {
    let mut store = Store::default();
    assert_eq!(store.run_mark(del_or_restore(42, true)).unwrap(), (0, 0));
}
