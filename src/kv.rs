//! A model of the keyed store: values with an absolute expiry, read only
//! before it.
use vstd::prelude::*;

verus! {

/// Entries of a keyed store: value and the instant it expires.
pub type KvModel<V> = Map<Seq<char>, (V, int)>;

/// `SET key value EX ttl` at time `now`.
pub open spec fn kv_set<V>(m: KvModel<V>, key: Seq<char>, value: V, ttl: int, now: int) -> KvModel<V> {
    m.insert(key, (value, now + ttl))
}

/// `GET key` at time `now`: absent once expired.
pub open spec fn kv_get<V>(m: KvModel<V>, key: Seq<char>, now: int) -> Option<V> {
    if m.contains_key(key) && now < m[key].1 {
        Some(m[key].0)
    } else {
        None
    }
}

/// `DEL key`.
pub open spec fn kv_del<V>(m: KvModel<V>, key: Seq<char>) -> KvModel<V> {
    m.remove(key)
}

} // verus!
