//! Short-lived page cache keys.
use vstd::prelude::*;

verus! {

pub const PREFIX: &'static str = "axum_rs:cache:";

/// Seconds a cached page lives.
pub const EXPIRED: usize = 10;

/// Keyed-store key of cache entry `key`.
pub fn gen_name(key: &str) -> (r: String)
    ensures
        r@ == PREFIX@ + key@,
{
    let mut k = PREFIX.to_string();
    k.append(key);
    k
}

} // verus!
