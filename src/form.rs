//! Submitted forms.
use vstd::prelude::*;

verus! {

/// New subject.
#[derive(Debug)]
pub struct CreateSubject {
    pub name: String,
    pub slug: String,
    pub summary: String,
}

/// Edited subject.
#[derive(Debug)]
pub struct UpdateSubject {
    pub id: i32,
    pub name: String,
    pub slug: String,
    pub summary: String,
}

/// New tag.
#[derive(Debug)]
pub struct CreateTag {
    pub name: String,
}

/// Edited tag.
#[derive(Debug)]
pub struct UpdateTag {
    pub id: i32,
    pub name: String,
}

/// New topic; `tags` is a comma-separated list of tag names.
#[derive(Debug)]
pub struct CreateTopic {
    pub subject_id: i32,
    pub title: String,
    pub slug: String,
    pub summary: String,
    pub src: String,
    pub author: String,
    pub md: String,
    pub tags: String,
}

/// Edited topic; `tags` replaces the topic's whole tag set.
#[derive(Debug)]
pub struct UpdateTopic {
    pub id: i64,
    pub title: String,
    pub subject_id: i32,
    pub slug: String,
    pub summary: String,
    pub src: String,
    pub author: String,
    pub md: String,
    pub tags: String,
}

/// Login form.
#[derive(Debug)]
pub struct AdminLogin {
    pub username: String,
    pub password: String,
}

} // verus!
