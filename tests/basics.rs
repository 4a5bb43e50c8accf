use axum_rs::arg::{
    uses_hcaptcha, BackendQueryArg, SubjectBackendQueryArg, TagBackendQueryArg, TopicQuery,
};
use axum_rs::cache::gen_name;
use axum_rs::error::{AppError, AppErrorType};
use axum_rs::model::TopicWithMdAndTagsForEdit;
use axum_rs::select_stmt::SelectStmt;
use axum_rs::text::{decimal, split_char, trim};

#[test]
fn query_arg_defaults() {
    let a = SubjectBackendQueryArg { page: None, keyword: None, msg: None, is_del: None };
    assert_eq!((a.page(), a.keyword(), a.is_del()), (0, "", false));
    let b = TagBackendQueryArg { page: Some(3), keyword: Some("k".into()), msg: None, is_del: Some(true) };
    assert_eq!((b.page(), b.keyword(), b.is_del()), (3, "k", true));
    let c = BackendQueryArg { page: Some(9), keyword: None, msg: Some("m".into()), is_del: Some(false) };
    assert_eq!((c.page(), c.keyword(), c.is_del()), (9, "", false));
}

#[test]
fn hcaptcha_flag() {
    assert!(uses_hcaptcha(&TopicQuery { hc: Some(1) }));
    assert!(!uses_hcaptcha(&TopicQuery { hc: Some(2) }));
    assert!(!uses_hcaptcha(&TopicQuery { hc: None }));
}

#[test]
fn select_full_clause_order() {
    let sql = SelectStmt::builder()
        .table("v_topic_subject_list")
        .fields("id,title")
        .condition(Some("is_del=$1"))
        .order(Some("id DESC"))
        .limit(Some(30))
        .offset(Some(60))
        .build();
    assert_eq!(sql, "SELECT id,title FROM v_topic_subject_list WHERE is_del=$1 ORDER BY id DESC LIMIT 30 OFFSET 60");
}

#[test]
fn select_minimal() {
    assert_eq!(SelectStmt::builder().table("tag").str(), "SELECT * FROM tag");
    let s = SelectStmt::builder().table("t").fields("COUNT(*)").offset(Some(0)).build();
    assert_eq!(s, "SELECT COUNT(*) FROM t OFFSET 0");
}

#[test]
fn cache_key() {
    assert_eq!(gen_name("index"), "axum_rs:cache:index");
}

#[test]
fn error_constructors() {
    let e = AppError::from_err("boom", AppErrorType::RedisError);
    assert_eq!((e.message, e.cause.as_deref()), (None, Some("boom")));
    let e = AppError::from_str("msg", AppErrorType::Config);
    assert_eq!(e.message.as_deref(), Some("msg"));
    assert_eq!(AppError::db_error_from_str("x").status_code(), 500);
    assert_eq!(AppError::not_found("x").status_code(), 404);
    assert_eq!(AppError::not_found_from_err("x").status_code(), 404);
    assert_eq!(AppError::is_exists("x").status_code(), 400);
    assert_eq!(AppError::protected_content("x").status_code(), 200);
    assert_eq!(AppError::auth_error("x").status_code(), 400);
    let t = AppError::tmpl_error("bad");
    assert_eq!(t.status_code(), 500);
    assert_eq!(t.cause.as_deref(), Some("bad"));
    assert_eq!(t.message.as_deref(), Some("渲染模板出错"));
}

#[test]
fn tag_field_of_edit_form() {
    let mut t = TopicWithMdAndTagsForEdit {
        id: 1,
        title: String::new(),
        subject_id: 1,
        slug: String::new(),
        summary: String::new(),
        src: String::new(),
        author: String::new(),
        md: String::new(),
        tag_names: vec!["a".into(), "b c".into()],
    };
    assert_eq!(t.tags(), "a,b c");
    t.tag_names.clear();
    assert_eq!(t.tags(), "");
}

#[test]
fn text_helpers() {
    assert_eq!(decimal(0), "0");
    assert_eq!(decimal(1200), "1200");
    assert_eq!(decimal(u64::MAX), u64::MAX.to_string());
    assert_eq!(trim(" \t a b \n"), "a b");
    assert_eq!(trim("\u{3000}x\u{a0}"), "x");
    assert_eq!(trim("   "), "");
    assert_eq!(split_char("a;;b", ';'), vec!["a".to_string(), String::new(), "b".to_string()]);
    assert_eq!(split_char("", ';'), vec![String::new()]);
}
