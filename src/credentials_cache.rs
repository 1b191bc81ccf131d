//! The per-role temporary-credentials cache, with an expiry safety margin.

use vstd::prelude::*;

use crate::digest::{cache_file_name, cache_file_name_for};
use crate::model::AwsRoleCredentials;
use crate::text::{decimal, decimal_of, lemma_decimal_injective, lemma_decimal_shape};

verus! {

/// A cached credential is not served when it expires within this many
/// milliseconds.
pub const EXPIRY_SAFETY_MS: u64 = 60_000;

/// Credentials as stored in the cache file.
#[derive(Debug, Clone)]
pub struct CachedCredentials {
    pub access_key_id: String,
    pub secret_access_key: String,
    pub session_token: String,
    pub expiration_ms: u64,
}

impl View for CachedCredentials {
    type V = (Seq<char>, Seq<char>, Seq<char>, u64);

    open spec fn view(&self) -> Self::V {
        (self.access_key_id@, self.secret_access_key@, self.session_token@, self.expiration_ms)
    }
}

/// A credential expiring at `expiration_ms` may be served at `now_ms`.
pub open spec fn credentials_usable(expiration_ms: u64, now_ms: u64) -> bool {
    now_ms + EXPIRY_SAFETY_MS < expiration_ms
}

/// A part of a cache key: its length in decimal, a colon, then the part.
pub open spec fn framed(part: Seq<char>) -> Seq<char> {
    decimal_of(part.len()) + ":"@ + part
}

/// The text the cache key is hashed from: the four parts, each framed.
pub open spec fn credentials_key(
    start_url: Seq<char>,
    region: Seq<char>,
    account_id: Seq<char>,
    role_name: Seq<char>,
) -> Seq<char> {
    framed(start_url) + framed(region) + framed(account_id) + framed(role_name)
}

/// A framed part followed by anything determines the part and the rest.
pub proof fn lemma_framed_prefix(s1: Seq<char>, t1: Seq<char>, s2: Seq<char>, t2: Seq<char>)
    requires
        framed(s1) + t1 == framed(s2) + t2,
    ensures
        s1 == s2,
        t1 == t2,
{
    reveal_strlit(":");
    let x = framed(s1) + t1;
    let d1 = decimal_of(s1.len());
    let d2 = decimal_of(s2.len());
    lemma_decimal_shape(s1.len());
    lemma_decimal_shape(s2.len());
    assert(x[d1.len() as int] == ':');
    assert((framed(s2) + t2)[d2.len() as int] == ':');
    if d1.len() < d2.len() {
        assert(x[d1.len() as int] == d2[d1.len() as int]);
    } else if d2.len() < d1.len() {
        assert(x[d2.len() as int] == d1[d2.len() as int]);
    }
    assert(d1 =~= x.subrange(0, d1.len() as int));
    assert(d2 =~= x.subrange(0, d2.len() as int));
    lemma_decimal_injective(s1.len(), s2.len());
    let k: int = d1.len() as int + 1;
    assert(s1 =~= x.subrange(k, k + s1.len() as int));
    assert(s2 =~= x.subrange(k, k + s2.len() as int));
    assert(t1 =~= x.subrange(k + s1.len() as int, x.len() as int));
    assert(t2 =~= x.subrange(k + s2.len() as int, x.len() as int));
}

/// Different (start URL, region, account, role) tuples have different keys,
/// so each tuple has a cache file of its own.
pub proof fn lemma_credentials_key_injective(
    u1: Seq<char>,
    r1: Seq<char>,
    a1: Seq<char>,
    n1: Seq<char>,
    u2: Seq<char>,
    r2: Seq<char>,
    a2: Seq<char>,
    n2: Seq<char>,
)
    requires
        credentials_key(u1, r1, a1, n1) == credentials_key(u2, r2, a2, n2),
    ensures
        u1 == u2 && r1 == r2 && a1 == a2 && n1 == n2,
{
    let rest1 = framed(r1) + framed(a1) + framed(n1);
    let rest2 = framed(r2) + framed(a2) + framed(n2);
    assert(credentials_key(u1, r1, a1, n1) =~= framed(u1) + rest1);
    assert(credentials_key(u2, r2, a2, n2) =~= framed(u2) + rest2);
    lemma_framed_prefix(u1, rest1, u2, rest2);
    let tail1 = framed(a1) + framed(n1);
    let tail2 = framed(a2) + framed(n2);
    assert(rest1 =~= framed(r1) + tail1);
    assert(rest2 =~= framed(r2) + tail2);
    lemma_framed_prefix(r1, tail1, r2, tail2);
    lemma_framed_prefix(a1, framed(n1), a2, framed(n2));
    assert(framed(n1) + Seq::<char>::empty() =~= framed(n1));
    assert(framed(n2) + Seq::<char>::empty() =~= framed(n2));
    lemma_framed_prefix(n1, Seq::empty(), n2, Seq::empty());
}

fn append_framed(key: &mut String, part: &str)
    ensures
        final(key)@ == old(key)@ + framed(part@),
{
    let len = decimal(part.unicode_len() as u64);
    key.append(len.as_str());
    key.append(":");
    key.append(part);
    proof {
        reveal_strlit(":");
    }
}

/// The name of the cache file for one (start URL, region, account, role).
pub fn credentials_cache_filename(
    start_url: &str,
    region: &str,
    account_id: &str,
    role_name: &str,
) -> (r: String)
    ensures
        r@ == cache_file_name(
            "creds-"@,
            credentials_key(start_url@, region@, account_id@, role_name@),
        ),
{
    let mut key = String::new();
    append_framed(&mut key, start_url);
    append_framed(&mut key, region);
    append_framed(&mut key, account_id);
    append_framed(&mut key, role_name);
    assert(key@ =~= credentials_key(start_url@, region@, account_id@, role_name@));
    cache_file_name_for("creds-", key.as_str())
}

/// Whether a credential expiring at `expiration_ms` is within the safety
/// margin of `now_ms`, or past it.
pub fn is_expired(expiration_ms: u64, now_ms: u64) -> (r: bool)
    ensures
        r == !credentials_usable(expiration_ms, now_ms),
{
    now_ms >= expiration_ms || expiration_ms - now_ms <= EXPIRY_SAFETY_MS
}

/// The cached credentials, unless they are about to expire. `cached` is the
/// decoded cache file; `None` where it is absent, unreadable or malformed.
pub fn load_cached_credentials(cached: Option<CachedCredentials>, now_ms: u64) -> (r: Option<
    AwsRoleCredentials,
>)
    ensures
        r is Some <==> (cached is Some && credentials_usable(cached->0.expiration_ms, now_ms)),
        r is Some ==> r->0@ == cached->0@,
{
    match cached {
        None => None,
        Some(c) => {
            if is_expired(c.expiration_ms, now_ms) {
                None
            } else {
                Some(
                    AwsRoleCredentials {
                        access_key_id: c.access_key_id,
                        secret_access_key: c.secret_access_key,
                        session_token: c.session_token,
                        expiration: c.expiration_ms,
                    },
                )
            }
        },
    }
}

/// The entry to store for freshly fetched credentials.
pub fn save_cached_credentials(creds: &AwsRoleCredentials) -> (r: CachedCredentials)
    ensures
        r@ == creds@,
{
    CachedCredentials {
        access_key_id: creds.access_key_id.clone(),
        secret_access_key: creds.secret_access_key.clone(),
        session_token: creds.session_token.clone(),
        expiration_ms: creds.expiration,
    }
}

/// A credential expiring 59 seconds from now is a miss; one expiring 61
/// seconds from now is a hit.
pub proof fn lemma_credentials_safety_margin(now_ms: u64)
    requires
        now_ms + 61_000 <= u64::MAX,
    ensures
        !credentials_usable((now_ms + 59_000) as u64, now_ms),
        credentials_usable((now_ms + 61_000) as u64, now_ms),
{
}

/// Saved credentials that are still usable load back unchanged.
pub proof fn lemma_credentials_round_trip(
    creds: AwsRoleCredentials,
    saved: CachedCredentials,
    now_ms: u64,
    loaded: AwsRoleCredentials,
)
    requires
        saved@ == creds@,
        credentials_usable(creds.expiration, now_ms),
        loaded@ == saved@,
    ensures
        loaded@ == creds@,
        credentials_usable(saved.expiration_ms, now_ms),
{
}

} // verus!
