//! Rows and views of the relational store, and the session record.
use vstd::prelude::*;
use crate::text::views;

verus! {

#[derive(Debug)]
pub struct Subject {
    pub id: i32,
    pub name: String,
    pub slug: String,
    pub summary: String,
    pub is_del: bool,
}

#[derive(Debug)]
pub struct SubjectList {
    pub id: i32,
    pub name: String,
    pub slug: String,
    pub is_del: bool,
}

#[derive(Debug)]
pub struct SubjectID {
    pub id: i32,
}

#[derive(Debug)]
pub struct Topic {
    pub id: i64,
    pub title: String,
    pub subject_id: i32,
    pub slug: String,
    pub summary: String,
    pub src: String,
    pub author: String,
    pub hit: i32,
    pub dateline: i32,
    pub is_del: bool,
}

#[derive(Debug)]
pub struct TopicID {
    pub id: i64,
}

#[derive(Debug)]
pub struct TopicContent {
    pub topic_id: i64,
    pub md: String,
    pub html: String,
}

#[derive(Debug)]
pub struct Tag {
    pub id: i32,
    pub name: String,
    pub is_del: bool,
}

#[derive(Debug)]
pub struct TagID {
    pub id: i32,
}

#[derive(Debug)]
pub struct TopicTag {
    pub topic_id: i64,
    pub tag_id: i32,
    pub is_del: bool,
}

pub struct TopicSubjectListView {
    pub id: i64,
    pub title: String,
    pub slug: String,
    pub subject_name: String,
    pub subject_slug: String,
    pub subject_id: i32,
    pub is_del: bool,
    pub subject_is_del: bool,
}

/// A topic as the edit form shows it.
#[derive(Debug)]
pub struct TopicWithMdAndTagsForEdit {
    pub id: i64,
    pub title: String,
    pub subject_id: i32,
    pub slug: String,
    pub summary: String,
    pub src: String,
    pub author: String,
    pub md: String,
    pub tag_names: Vec<String>,
}

/// `names` joined with `sep` between each two.
pub open spec fn join(names: Seq<Seq<char>>, sep: Seq<char>) -> Seq<char>
    decreases names.len(),
{
    if names.len() == 0 {
        Seq::empty()
    } else if names.len() == 1 {
        names[0]
    } else {
        join(names.drop_last(), sep) + sep + names.last()
    }
}

impl TopicWithMdAndTagsForEdit {
    /// The tag names as a comma-separated tag field.
    pub fn tags(&self) -> (r: String)
        ensures
            r@ == join(views(self.tag_names@), ","@),
    {
        let mut out = String::new();
        let mut i: usize = 0;
        while i < self.tag_names.len()
            invariant
                i <= self.tag_names.len(),
                out@ == join(views(self.tag_names@).subrange(0, i as int), ","@),
            decreases self.tag_names.len() - i,
        {
            let ghost pre = views(self.tag_names@).subrange(0, i as int + 1);
            assert(pre.drop_last() =~= views(self.tag_names@).subrange(0, i as int));
            if i > 0 {
                out.append(",");
            } else {
                assert(out@ =~= Seq::<char>::empty());
            }
            out.append(self.tag_names[i].as_str());
            i = i + 1;
        }
        assert(views(self.tag_names@).subrange(0, i as int) =~= views(self.tag_names@));
        out
    }
}

#[derive(Debug)]
pub struct SubjectTopicWithTagsAndTopicSummary {
    pub id: i64,
    pub title: String,
    pub slug: String,
    pub subject_slug: String,
    pub tag_names: Vec<String>,
    pub summary: String,
    pub subject_name: String,
}

#[derive(Debug)]
pub struct TopicDetail {
    pub id: i64,
    pub subject_id: i32,
    pub title: String,
    pub slug: String,
    pub author: String,
    pub src: String,
    pub html: String,
    pub tag_names: Vec<String>,
    pub subject_slug: String,
    pub dateline: i32,
    pub hit: i32,
    pub subject_name: String,
}

/// An administrator account.
#[derive(Debug)]
pub struct Admin {
    pub id: i32,
    pub username: String,
    /// Password hash.
    pub password: String,
    pub is_sys: bool,
    pub is_del: bool,
}

#[derive(Debug)]
pub struct AdminID {
    pub id: i32,
}

/// A session record: who is signed in, the password hash for re-checks, the
/// privilege flag and the absolute expiry.
#[derive(Debug)]
pub struct AdminSession {
    pub id: i32,
    pub username: String,
    pub password: String,
    pub is_sys: bool,
    pub dateline: i32,
}

/// Abstract value of an [`AdminSession`].
pub struct SessionView {
    pub id: int,
    pub username: Seq<char>,
    pub password: Seq<char>,
    pub is_sys: bool,
    pub dateline: int,
}

impl View for AdminSession {
    type V = SessionView;

    open spec fn view(&self) -> SessionView {
        SessionView {
            id: self.id as int,
            username: self.username@,
            password: self.password@,
            is_sys: self.is_sys,
            dateline: self.dateline as int,
        }
    }
}

} // verus!
