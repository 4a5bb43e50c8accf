//! Sessions: opaque ids, keyed-store keys and cookies.
use vstd::prelude::*;
use crate::config::SessionConfig;
use crate::error::{AppError, AppErrorType, error_with, opt_view};
use crate::kv::{KvModel, kv_del, kv_get, kv_set};
use crate::model::{Admin, AdminSession, SessionView};
use crate::text::{is_ws, lemma_split_none, lemma_split_one, lemma_trimmed_self, split_char, split_on, trim, trimmed};

verus! {

pub open spec fn is_hex_lower(c: char) -> bool {
    ('0' <= c && c <= '9') || ('a' <= c && c <= 'f')
}

/// An opaque id: 32 lowercase hexadecimal digits.
pub open spec fn is_opaque_id(s: Seq<char>) -> bool {
    s.len() == 32 && forall|i: int| 0 <= i < s.len() ==> is_hex_lower(#[trigger] s[i])
}

/// Relies on uuid: a random (version 4) UUID in its `simple` form, 32
/// lowercase hexadecimal digits.
#[verifier::external_body]
pub fn id() -> (r: String)
    ensures
        is_opaque_id(r@),
{
    uuid::Uuid::new_v4().simple().to_string()
}

/// Keyed-store key of session `id`.
pub open spec fn session_key(prefix: Seq<char>, id: Seq<char>) -> Seq<char> {
    prefix + id
}

/// Keyed-store key of session `id`.
pub fn gen_redis_key(cfg: &SessionConfig, id: &str) -> (r: String)
    ensures
        r@ == session_key(cfg.prefix@, id@),
{
    let mut k = cfg.prefix.clone();
    k.append(id);
    k
}

/// A new session's id, the cookie that carries it and its keyed-store key.
#[derive(Debug)]
pub struct GeneratedKey {
    pub id: String,
    pub cookie_key: String,
    pub redis_key: String,
}

/// Generates a fresh session id with its cookie name and keyed-store key.
pub fn gen_key(cfg: &SessionConfig) -> (r: GeneratedKey)
    ensures
        is_opaque_id(r.id@),
        r.cookie_key@ == cfg.id_name@,
        r.redis_key@ == session_key(cfg.prefix@, r.id@),
{
    let id = id();
    let cookie_key = cfg.id_name.clone();
    let redis_key = gen_redis_key(cfg, id.as_str());
    GeneratedKey { id, cookie_key, redis_key }
}

/// `name=value` as a cookie assignment.
pub open spec fn cookie_pair(name: Seq<char>, value: Seq<char>) -> Seq<char> {
    name + "="@ + value
}

/// The cookie that carries a new session.
pub fn login_cookie(key: &GeneratedKey) -> (r: String)
    ensures
        r@ == cookie_pair(key.cookie_key@, key.id@),
{
    let mut c = key.cookie_key.clone();
    c.append("=");
    c.append(key.id.as_str());
    c
}

/// The cookie that clears the session cookie.
pub fn logout_cookie(cfg: &SessionConfig) -> (r: String)
    ensures
        r@ == cookie_pair(cfg.id_name@, Seq::empty()),
{
    let mut c = cfg.id_name.clone();
    c.append("=");
    assert(c@ =~= cookie_pair(cfg.id_name@, Seq::empty()));
    c
}

/// Value of the first `key=value` item named `name`, keys and values trimmed;
/// items without exactly one `=` are skipped.
pub open spec fn cookie_in(items: Seq<Seq<char>>, name: Seq<char>) -> Option<Seq<char>>
    decreases items.len(),
{
    if items.len() == 0 {
        None
    } else {
        let kv = split_on(items[0], '=');
        if kv.len() == 2 && trimmed(kv[0]) == name {
            Some(trimmed(kv[1]))
        } else {
            cookie_in(items.drop_first(), name)
        }
    }
}

/// Value of cookie `name` in a `Cookie` header (`a=1; b=2`).
pub fn get_cookie(header: &str, name: &str) -> (r: Option<String>)
    ensures
        opt_view(r) == cookie_in(split_on(header@, ';'), name@),
{
    let items = split_char(header, ';');
    let wanted = name.to_string();
    let ghost all = split_on(header@, ';');
    let mut i: usize = 0;
    assert(all.subrange(0, all.len() as int) =~= all);
    while i < items.len()
        invariant
            i <= items.len(),
            all == crate::text::views(items@),
            all == split_on(header@, ';'),
            wanted@ == name@,
            cookie_in(all, name@) == cookie_in(all.subrange(i as int, all.len() as int), name@),
        decreases items.len() - i,
    {
        let ghost rest = all.subrange(i as int, all.len() as int);
        assert(rest[0] == items@[i as int]@);
        assert(rest.drop_first() =~= all.subrange(i as int + 1, all.len() as int));
        let kv = split_char(items[i].as_str(), '=');
        if kv.len() == 2 {
            let key = trim(kv[0].as_str());
            assert(kv@[0]@ == split_on(rest[0], '=')[0]);
            assert(kv@[1]@ == split_on(rest[0], '=')[1]);
            if key == wanted {
                let v = trim(kv[1].as_str());
                assert(split_on(rest[0], '=').len() == 2);
                assert(cookie_in(rest, name@) == Some(v@));
                return Some(v);
            }
        }
        i = i + 1;
    }
    assert(all.subrange(i as int, all.len() as int) =~= Seq::<Seq<char>>::empty());
    None
}

/// The session key that a request's cookies present, if any.
pub open spec fn presented(cfg_prefix: Seq<char>, cfg_name: Seq<char>, header: Seq<char>) -> Option<
    Seq<char>,
> {
    match cookie_in(split_on(header, ';'), cfg_name) {
        Some(v) => if v.len() > 0 {
            Some(session_key(cfg_prefix, v))
        } else {
            None
        },
        None => None,
    }
}

/// The keyed-store key of the session a `Cookie` header presents: none when
/// the session cookie is missing or empty.
pub fn presented_key(cfg: &SessionConfig, header: &str) -> (r: Option<String>)
    ensures
        opt_view(r) == presented(cfg.prefix@, cfg.id_name@, header@),
{
    match get_cookie(header, cfg.id_name.as_str()) {
        Some(v) => {
            if v.as_str().is_empty() {
                None
            } else {
                Some(gen_redis_key(cfg, v.as_str()))
            }
        },
        None => None,
    }
}

/// The keyed-store key that logout deletes: that of the session cookie's
/// value, even an empty one, if the cookie is there.
pub open spec fn revoked(cfg_prefix: Seq<char>, cfg_name: Seq<char>, header: Seq<char>) -> Option<
    Seq<char>,
> {
    match cookie_in(split_on(header, ';'), cfg_name) {
        Some(v) => Some(session_key(cfg_prefix, v)),
        None => None,
    }
}

/// The keyed-store key to delete at logout for a `Cookie` header: none when
/// the session cookie is missing.
pub fn revoke_key(cfg: &SessionConfig, header: &str) -> (r: Option<String>)
    ensures
        opt_view(r) == revoked(cfg.prefix@, cfg.id_name@, header@),
{
    match get_cookie(header, cfg.id_name.as_str()) {
        Some(v) => Some(gen_redis_key(cfg, v.as_str())),
        None => None,
    }
}

/// The record of a session opened for `admin` at time `now` for `ttl` seconds.
pub open spec fn session_for(admin: Admin, now: int, ttl: int) -> SessionView {
    SessionView {
        id: admin.id as int,
        username: admin.username@,
        password: admin.password@,
        is_sys: admin.is_sys,
        dateline: now + ttl,
    }
}

/// Opens a session for `admin` at time `now`: a fresh key and the record to
/// hold under it for `cfg.expired` seconds.
pub fn issue(cfg: &SessionConfig, admin: &Admin, now: i32) -> (r: (GeneratedKey, AdminSession))
    requires
        0 <= now,
        now as int + cfg.expired as int <= i32::MAX,
    ensures
        is_opaque_id(r.0.id@),
        r.0.cookie_key@ == cfg.id_name@,
        r.0.redis_key@ == session_key(cfg.prefix@, r.0.id@),
        r.1@ == session_for(*admin, now as int, cfg.expired as int),
{
    let key = gen_key(cfg);
    let rec = AdminSession {
        id: admin.id,
        username: admin.username.clone(),
        password: admin.password.clone(),
        is_sys: admin.is_sys,
        dateline: now + cfg.expired as i32,
    };
    (key, rec)
}

/// Message of a failed human verification at login.
pub const LOGIN_VERIFICATION_FAILED: &'static str = "人机验证失败";

/// Message of a wrong user name or password.
pub const BAD_CREDENTIALS: &'static str = "用户名或密码错误";

/// Message of a request without a live session.
pub const UNAUTHENTICATED: &'static str = "UNAUTHENTICATED";

/// Whether `password` matches bcrypt hash `hash`; `None` when the hash is malformed.
pub uninterp spec fn bcrypt_check(password: Seq<char>, hash: Seq<char>) -> Option<bool>;

#[verifier::external_type_specification]
#[verifier::external_body]
pub struct ExBcryptError(bcrypt::BcryptError);

/// Relies on bcrypt::verify: hashes `password` with the cost and salt read
/// from `hash` and compares; an error for a hash it cannot read.
#[verifier::external_body]
fn bcrypt_verify(password: &str, hash: &str) -> (r: Result<bool, bcrypt::BcryptError>)
    ensures
        r is Ok ==> bcrypt_check(password@, hash@) == Some(r->Ok_0),
        r is Err ==> bcrypt_check(password@, hash@) is None,
{
    bcrypt::verify(password, hash)
}

/// Relies on bcrypt's `Display` for its error: a description of it.
#[verifier::external_body]
fn bcrypt_error_text(e: &bcrypt::BcryptError) -> (r: String) {
    e.to_string()
}

/// Whether `password` matches the bcrypt hash `hash`.
pub fn check_password(password: &str, hash: &str) -> (r: Result<bool, AppError>)
    ensures
        match bcrypt_check(password@, hash@) {
            Some(b) => r == Ok::<bool, AppError>(b),
            None => r is Err && r->Err_0@.error_type == AppErrorType::Common
                && r->Err_0@.message is None,
        },
{
    match bcrypt_verify(password, hash) {
        Ok(b) => Ok(b),
        Err(e) => Err(AppError::from_err(bcrypt_error_text(&e).as_str(), AppErrorType::Common)),
    }
}

/// Opens a session for `admin` once its password check came back: refused on
/// a mismatch, failed on a check error.
pub fn open_if_matches(cfg: &SessionConfig, admin: &Admin, check: Result<bool, AppError>, now: i32) -> (r:
    Result<(GeneratedKey, AdminSession), AppError>)
    requires
        0 <= now,
        now as int + cfg.expired as int <= i32::MAX,
    ensures
        match check {
            Err(e) => r matches Err(e2) && e2@ == e@,
            Ok(false) => r matches Err(e2) && e2@ == error_with(
                BAD_CREDENTIALS@,
                AppErrorType::AuthError,
            ),
            Ok(true) => r matches Ok(p) && is_opaque_id(p.0.id@) && p.0.cookie_key@ == cfg.id_name@
                && p.0.redis_key@ == session_key(cfg.prefix@, p.0.id@) && p.1@ == session_for(
                *admin,
                now as int,
                cfg.expired as int,
            ),
        },
{
    match check {
        Err(e) => Err(e),
        Ok(false) => Err(AppError::auth_error(BAD_CREDENTIALS)),
        Ok(true) => Ok(issue(cfg, admin, now)),
    }
}

/// Login: requires a passed human verification, the account looked up by
/// name, and a password that matches its hash.
pub fn login(
    cfg: &SessionConfig,
    verified: bool,
    found: Result<Admin, AppError>,
    password: &str,
    now: i32,
) -> (r: Result<(GeneratedKey, AdminSession), AppError>)
    requires
        0 <= now,
        now as int + cfg.expired as int <= i32::MAX,
    ensures
        !verified ==> (r matches Err(e) && e@ == error_with(
            LOGIN_VERIFICATION_FAILED@,
            AppErrorType::AuthError,
        )),
        verified ==> match found {
            Err(e) => r matches Err(e2) && e2@ == e@,
            Ok(admin) => match bcrypt_check(password@, admin.password@) {
                None => r matches Err(e2) && e2@.error_type == AppErrorType::Common,
                Some(false) => r matches Err(e2) && e2@ == error_with(
                    BAD_CREDENTIALS@,
                    AppErrorType::AuthError,
                ),
                Some(true) => r matches Ok(p) && is_opaque_id(p.0.id@) && p.0.cookie_key@
                    == cfg.id_name@ && p.0.redis_key@ == session_key(cfg.prefix@, p.0.id@) && p.1@
                    == session_for(
                    admin,
                    now as int,
                    cfg.expired as int,
                ),
            },
        },
{
    if !verified {
        return Err(AppError::auth_error(LOGIN_VERIFICATION_FAILED));
    }
    match found {
        Err(e) => Err(e),
        Ok(admin) => {
            let check = check_password(password, admin.password.as_str());
            open_if_matches(cfg, &admin, check, now)
        },
    }
}

/// Authorization of an admin-area request from the session it resolved to.
pub fn authorize(session: Option<AdminSession>) -> (r: Result<AdminSession, AppError>)
    ensures
        match session {
            Some(s) => r matches Ok(s2) && s2@ == s@,
            None => r matches Err(e) && e@ == error_with(UNAUTHENTICATED@, AppErrorType::AuthError),
        },
{
    match session {
        Some(s) => Ok(s),
        None => Err(AppError::auth_error(UNAUTHENTICATED)),
    }
}

/// A cookie name fit for a `name=value` cookie: no `;` or `=`, and no
/// whitespace at either end.
pub open spec fn cookie_name_ok(name: Seq<char>) -> bool {
    &&& !name.contains(';')
    &&& !name.contains('=')
    &&& name.len() == 0 || (!is_ws(name[0]) && !is_ws(name.last()))
}

proof fn lemma_presented(prefix: Seq<char>, name: Seq<char>, sid: Seq<char>)
    requires
        cookie_name_ok(name),
        is_opaque_id(sid),
    ensures
        presented(prefix, name, cookie_pair(name, sid)) == Some(session_key(prefix, sid)),
        cookie_in(split_on(cookie_pair(name, sid), ';'), name) == Some(sid),
{
    let c = cookie_pair(name, sid);
    assert(!sid.contains(';') && !sid.contains('=')) by {
        if sid.contains(';') || sid.contains('=') {
            let i = choose|i: int| 0 <= i < sid.len() && (sid[i] == ';' || sid[i] == '=');
            assert(is_hex_lower(sid[i]));
        }
    }
    assert(c =~= name + seq!['='] + sid) by {
        reveal_strlit("=");
    }
    assert(!c.contains(';')) by {
        if c.contains(';') {
            let i = choose|i: int| 0 <= i < c.len() && c[i] == ';';
            if i < name.len() {
                assert(name[i] == ';');
            } else if i > name.len() {
                assert(sid[i - name.len() - 1] == ';');
            }
        }
    }
    lemma_split_none(c, ';');
    lemma_split_one(name, sid, '=');
    lemma_trimmed_self(name);
    assert(!is_ws(sid[0]) && !is_ws(sid.last())) by {
        assert(is_hex_lower(sid[0]));
        assert(is_hex_lower(sid[sid.len() - 1]));
    }
    lemma_trimmed_self(sid);
    assert(seq![c].drop_first() =~= Seq::<Seq<char>>::empty());
}

/// Session round trip: a session opened for `admin` under opaque id `sid` at
/// time `now` is held under the key that its login cookie presents, and
/// logout deletes that same key. Resolving the key at any time before
/// `now + ttl` gives back the record, which carries the admin's identity;
/// after expiry, or once revoked, it resolves to nothing. Revoking again
/// changes nothing.
pub proof fn lemma_session_round_trip(
    m: KvModel<SessionView>,
    cfg: SessionConfig,
    admin: Admin,
    sid: Seq<char>,
    now: int,
    t: int,
)
    requires
        cookie_name_ok(cfg.id_name@),
        is_opaque_id(sid),
        0 <= now <= t,
        now + cfg.expired <= i32::MAX,
    ensures
        ({
            let key = session_key(cfg.prefix@, sid);
            let rec = session_for(admin, now, cfg.expired as int);
            let cookie = cookie_pair(cfg.id_name@, sid);
            let m1 = kv_set(m, key, rec, cfg.expired as int, now);
            &&& presented(cfg.prefix@, cfg.id_name@, cookie) == Some(key)
            &&& revoked(cfg.prefix@, cfg.id_name@, cookie) == Some(key)
            &&& t < now + cfg.expired ==> kv_get(m1, key, t) == Some(rec)
            &&& rec.id == admin.id as int && rec.username == admin.username@ && rec.password
                == admin.password@ && rec.is_sys == admin.is_sys
            &&& t >= now + cfg.expired ==> kv_get(m1, key, t) is None
            &&& kv_get(kv_del(m1, key), key, t) is None
            &&& kv_del(kv_del(m1, key), key) == kv_del(m1, key)
        }),
{
    let key = session_key(cfg.prefix@, sid);
    let rec = session_for(admin, now, cfg.expired as int);
    let m1 = kv_set(m, key, rec, cfg.expired as int, now);
    lemma_presented(cfg.prefix@, cfg.id_name@, sid);
    assert(kv_del(kv_del(m1, key), key) =~= kv_del(m1, key));
}

} // verus!
