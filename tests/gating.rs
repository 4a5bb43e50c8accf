use std::collections::HashMap;

use axum_rs::error::{AppError, AppErrorType};
use axum_rs::unveil::{start_reveal, KvAction, KvEvent};
use axum_rs::gate::{
    in_idx, protected_content, protected_key_of, reveal_keys, word_count,
    ProtectedContent, PROTECTED_TTL,
};

fn doc(n: usize) -> String {
    let mut s = String::from("<h1>T</h1>\n");
    for i in 0..n {
        if i % 2 == 0 {
            s.push_str(&format!("<p>para {}</p>\n", i));
        } else {
            s.push_str(&format!("<pre>code\n{}</pre>\n", i));
        }
    }
    s.push_str("<footer>end</footer>");
    s
}

fn blocks(n: usize) -> Vec<(String, String)> {
    (0..n)
        .map(|i| {
            if i % 2 == 0 {
                ("p".to_string(), format!("para {}", i))
            } else {
                ("pre".to_string(), format!("code\n{}", i))
            }
        })
        .collect()
}

#[test]
fn no_blocks_unchanged() {
    let html = "<h1>x</h1><div>y</div>";
    let (out, units) = protected_content(html, "site");
    assert_eq!(out, html);
    assert!(units.is_empty());
}

#[test]
fn one_block_unchanged() {
    let html = doc(1);
    let (out, units) = protected_content(&html, "site");
    assert_eq!(out, html);
    assert!(units.is_empty());
}

#[test]
fn redaction_counts() {
    for (n, k) in [(2, 1), (4, 1), (5, 2), (8, 2), (9, 3), (20, 3)] {
        let (_, units) = protected_content(&doc(n), "site");
        assert_eq!(units.len(), k, "{} blocks", n);
    }
}

#[test]
fn six_blocks_redact_two_and_reveal_once() {
    let html = doc(6);
    let expected = blocks(6);
    let (out, units) = protected_content(&html, "KEY");
    assert_eq!(units.len(), 2);
    assert_ne!(units[0].uuid, units[1].uuid);
    for u in &units {
        assert_eq!(u.uuid.len(), 32);
        assert!(expected.contains(&(u.tag.clone(), u.content.clone())));
        assert!(out.contains(&format!("id=\"hcaptcha-{}\"", u.uuid)));
        assert!(out.contains(&format!("data-callback=\"get_procted_content_{}\"", u.uuid)));
        assert!(out.contains(&format!("(大约{}字节)", u.content.len())));
        let whole = format!("<{}>{}</{}>", u.tag, u.content, u.tag);
        assert!(!out.contains(&whole));
    }
    assert_eq!(out.matches("data-sitekey=\"KEY\"").count(), 2);
    let kept = expected
        .iter()
        .filter(|(t, c)| out.contains(&format!("<{}>{}</{}>", t, c, t)))
        .count();
    assert_eq!(kept, 4);
    assert!(out.starts_with("<h1>T</h1>\n"));
    assert!(out.ends_with("<footer>end</footer>"));

    let mut store: HashMap<String, ProtectedContent> = HashMap::new();
    for u in &units {
        let held = ProtectedContent { uuid: u.uuid.clone(), tag: u.tag.clone(), content: u.content.clone() };
        store.insert(protected_key_of(&u.uuid), held);
    }
    let ids = format!("{},{}", units[0].uuid, units[1].uuid);
    let first = run_reveal(&mut store, &ids).unwrap();
    assert_eq!(first.len(), 2);
    for (f, u) in first.iter().zip(units.iter()) {
        assert_eq!((&f.uuid, &f.tag, &f.content), (&u.uuid, &u.tag, &u.content));
    }
    assert!(store.is_empty());
    let second = run_reveal(&mut store, &ids).unwrap();
    assert!(second.is_empty());
}

fn run_reveal(store: &mut HashMap<String, ProtectedContent>, ids: &str) -> Result<Vec<ProtectedContent>, AppError> {
    let mut tx = start_reveal(reveal_keys(true, ids)?);
    let mut event = KvEvent::Deleted;
    loop {
        event = match tx.step(event) {
            KvAction::Idle => break,
            KvAction::Get { key } => KvEvent::Value(store.get(&key).map(|u| ProtectedContent {
                uuid: u.uuid.clone(),
                tag: u.tag.clone(),
                content: u.content.clone(),
            })),
            KvAction::Del { key } => {
                store.remove(&key);
                KvEvent::Deleted
            }
        };
    }
    assert!(tx.is_done());
    tx.into_outcome().unwrap()
}

#[test]
fn reveal_skips_unknown_tokens() {
    let mut store: HashMap<String, ProtectedContent> = HashMap::new();
    let held = ProtectedContent { uuid: "aa".into(), tag: "p".into(), content: "x".into() };
    store.insert(protected_key_of("aa"), held);
    let found = run_reveal(&mut store, "zz,aa,yy").unwrap();
    assert_eq!(found.len(), 1);
    assert_eq!(found[0].content, "x");
}

#[test]
fn reveal_stops_on_store_failure() {
    let mut tx = start_reveal(reveal_keys(true, "aa,bb").unwrap());
    assert!(matches!(tx.step(KvEvent::Deleted), KvAction::Get { .. }));
    let act = tx.step(KvEvent::Failed(AppError::from_err("down", AppErrorType::RedisError)));
    assert!(matches!(act, KvAction::Idle));
    let e = tx.into_outcome().unwrap().unwrap_err();
    assert!(matches!(e.error_type, AppErrorType::RedisError));
}

#[test]
fn reveal_of_unknown_tokens_is_empty() {
    let mut store: HashMap<String, ProtectedContent> = HashMap::new();
    assert!(run_reveal(&mut store, "zz,yy").unwrap().is_empty());
}

#[test]
fn redacted_ids_are_distinct() {
    for _ in 0..50 {
        let (_, units) = protected_content(&doc(12), "k");
        assert_eq!(units.len(), 3);
        assert_ne!(units[0].uuid, units[1].uuid);
        assert_ne!(units[0].uuid, units[2].uuid);
        assert_ne!(units[1].uuid, units[2].uuid);
    }
}

#[test]
fn multibyte_byte_count() {
    assert_eq!(word_count("héllo"), 6);
    assert_eq!(word_count(""), 0);
}

#[test]
fn index_membership() {
    assert!(in_idx(&[3, 1, 4], 1));
    assert!(!in_idx(&[3, 1, 4], 2));
    assert!(!in_idx(&[], 0));
}

#[test]
fn reveal_requires_verification() {
    let e = reveal_keys(false, "a").unwrap_err();
    assert!(matches!(e.error_type, AppErrorType::Common));
    assert_eq!(e.message.as_deref(), Some("人机验证失败"));
}

#[test]
fn reveal_keys_are_namespaced() {
    assert_eq!(
        reveal_keys(true, "ab,cd").unwrap(),
        vec!["protected_content:ab".to_string(), "protected_content:cd".to_string()]
    );
    assert_eq!(PROTECTED_TTL, 1200);
}
