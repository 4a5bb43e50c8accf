use std::collections::HashMap;

use axum_rs::config::SessionConfig;
use axum_rs::error::{AppError, AppErrorType};
use axum_rs::model::{Admin, AdminSession};
use axum_rs::session::{
    authorize, check_password, gen_key, gen_redis_key, get_cookie, id, issue, login,
    login_cookie, logout_cookie, open_if_matches, presented_key, revoke_key,
};

fn cfg() -> SessionConfig {
    SessionConfig { prefix: "axum_rs:sess:".to_string(), id_name: "sid".to_string(), expired: 3600 }
}

fn admin(hash: &str) -> Admin {
    Admin { id: 5, username: "root".to_string(), password: hash.to_string(), is_sys: true, is_del: false }
}

#[test]
fn ids_are_32_hex_and_fresh() {
    let a = id();
    let b = id();
    assert_eq!(a.len(), 32);
    assert!(a.chars().all(|c| c.is_ascii_digit() || ('a'..='f').contains(&c)));
    assert_ne!(a, b);
}

#[test]
fn keys_are_namespaced() {
    assert_eq!(gen_redis_key(&cfg(), "abc"), "axum_rs:sess:abc");
    let k = gen_key(&cfg());
    assert_eq!(k.cookie_key, "sid");
    assert_eq!(k.redis_key, format!("axum_rs:sess:{}", k.id));
    assert_eq!(login_cookie(&k), format!("sid={}", k.id));
    assert_eq!(logout_cookie(&cfg()), "sid=");
}

#[test]
fn cookie_parsing() {
    assert_eq!(get_cookie("a=1; sid = xyz ;b=2", "sid"), Some("xyz".to_string()));
    assert_eq!(get_cookie("sid=first; sid=second", "sid"), Some("first".to_string()));
    assert_eq!(get_cookie("sid=a=b; sid=ok", "sid"), Some("ok".to_string()));
    assert_eq!(get_cookie("other=1", "sid"), None);
    assert_eq!(get_cookie("", "sid"), None);
    assert_eq!(get_cookie("sid=", "sid"), Some(String::new()));
}

#[test]
fn presented_key_needs_a_non_empty_cookie() {
    assert_eq!(presented_key(&cfg(), "x=1; sid=abc"), Some("axum_rs:sess:abc".to_string()));
    assert_eq!(presented_key(&cfg(), "sid="), None);
    assert_eq!(presented_key(&cfg(), "x=1"), None);
}

#[test]
fn issued_record_expires_after_ttl() {
    let (key, rec) = issue(&cfg(), &admin("h"), 1000);
    assert_eq!(rec.id, 5);
    assert_eq!(rec.username, "root");
    assert_eq!(rec.password, "h");
    assert!(rec.is_sys);
    assert_eq!(rec.dateline, 4600);
    assert_eq!(key.redis_key, format!("axum_rs:sess:{}", key.id));
    assert_eq!(key.cookie_key, "sid");
}

#[test]
fn logout_key_even_for_an_empty_cookie() {
    assert_eq!(revoke_key(&cfg(), "sid="), Some("axum_rs:sess:".to_string()));
    assert_eq!(revoke_key(&cfg(), "a=1; sid=abc"), Some("axum_rs:sess:abc".to_string()));
    assert_eq!(revoke_key(&cfg(), "a=1"), None);
}

struct Kv {
    entries: HashMap<String, (AdminSession, i64)>,
}

impl Kv {
    fn get(&self, k: &str, now: i64) -> Option<&AdminSession> {
        self.entries.get(k).filter(|e| now < e.1).map(|e| &e.0)
    }
}

#[test]
fn session_round_trip() {
    let c = cfg();
    let (key, rec) = issue(&c, &admin("h"), 1000);
    let mut kv = Kv { entries: HashMap::new() };
    kv.entries.insert(key.redis_key.clone(), (rec, 1000 + c.expired as i64));
    let header = format!("theme=dark; {}", login_cookie(&key));
    let k = presented_key(&c, &header).unwrap();
    let found = kv.get(&k, 1500).map(|s| s.id);
    assert_eq!(found, Some(5));
    assert!(kv.get(&k, 4600).is_none());
    kv.entries.remove(&k);
    assert!(kv.get(&k, 1500).is_none());
    let err = authorize(None).unwrap_err();
    assert!(matches!(err.error_type, AppErrorType::AuthError));
}

#[test]
fn authorize_passes_a_live_session() {
    let (_, rec) = issue(&cfg(), &admin("h"), 0);
    assert_eq!(authorize(Some(rec)).unwrap().username, "root");
}

#[test]
fn login_flows() {
    let hash = bcrypt::hash("s3cret", 4).unwrap();
    let c = cfg();
    let e = login(&c, false, Ok(admin(&hash)), "s3cret", 10).unwrap_err();
    assert!(matches!(e.error_type, AppErrorType::AuthError));
    assert_eq!(e.message.as_deref(), Some("人机验证失败"));

    let e = login(&c, true, Err(AppError::not_found("no such admin")), "s3cret", 10).unwrap_err();
    assert!(matches!(e.error_type, AppErrorType::NotFound));

    let e = login(&c, true, Ok(admin(&hash)), "wrong", 10).unwrap_err();
    assert_eq!(e.message.as_deref(), Some("用户名或密码错误"));

    let e = login(&c, true, Ok(admin("not-a-hash")), "s3cret", 10).unwrap_err();
    assert!(matches!(e.error_type, AppErrorType::Common));
    assert!(e.cause.is_some());

    let (key, rec) = login(&c, true, Ok(admin(&hash)), "s3cret", 10).unwrap();
    assert_eq!(rec.dateline, 3610);
    assert_eq!(key.redis_key, format!("axum_rs:sess:{}", key.id));
}

#[test]
fn password_check() {
    let hash = bcrypt::hash("pw", 4).unwrap();
    assert_eq!(check_password("pw", &hash).unwrap(), true);
    assert_eq!(check_password("px", &hash).unwrap(), false);
    assert!(check_password("pw", "$2b$").is_err());
}

#[test]
fn open_if_matches_passes_errors_through() {
    let e = open_if_matches(&cfg(), &admin("h"), Err(AppError::auth_error("x")), 0).unwrap_err();
    assert_eq!(e.message.as_deref(), Some("x"));
    assert!(open_if_matches(&cfg(), &admin("h"), Ok(false), 0).is_err());
    assert!(open_if_matches(&cfg(), &admin("h"), Ok(true), 0).is_ok());
}
