//! The (account, role) enumeration cache, with a time-to-live and an any-age
//! fallback read.

use vstd::prelude::*;

use crate::digest::{cache_file_name, cache_file_name_for};
use crate::model::{same_choices, RoleChoice};
use crate::text::{compact_duration, compact_duration_of};

verus! {

/// How long an enumeration stays fresh, in seconds.
pub const ROLES_CACHE_TTL_SECS: u64 = 86400;

/// One role as stored in the cache file.
#[derive(Debug, Clone)]
pub struct CachedRole {
    pub account_id: String,
    pub account_name: String,
    pub role_name: String,
}

impl View for CachedRole {
    type V = (Seq<char>, Seq<char>, Seq<char>);

    open spec fn view(&self) -> Self::V {
        (self.account_id@, self.account_name@, self.role_name@)
    }
}

/// The stored enumeration: when it was fetched (Unix seconds) and its roles.
#[derive(Debug, Clone)]
pub struct CachedRoles {
    pub fetched_at: u64,
    pub roles: Vec<CachedRole>,
}

/// The choices and the stored roles name the same pairs in the same order.
pub open spec fn roles_match(a: Seq<RoleChoice>, b: Seq<CachedRole>) -> bool {
    a.len() == b.len() && forall|i: int| 0 <= i < a.len() ==> #[trigger] a[i]@ == b[i]@
}

/// Seconds since `fetched_at`, zero for an entry stamped in the future.
pub open spec fn age_of(fetched_at: u64, now: u64) -> u64 {
    if now >= fetched_at {
        (now - fetched_at) as u64
    } else {
        0
    }
}

/// An entry fetched at `fetched_at` may still be served as fresh at `now`.
pub open spec fn roles_fresh(fetched_at: u64, now: u64) -> bool {
    age_of(fetched_at, now) <= ROLES_CACHE_TTL_SECS
}

/// What `load_cached_roles_with_age` hands back for a stored entry.
pub open spec fn loaded_roles(
    cached: CachedRoles,
    now: u64,
    r: (Vec<RoleChoice>, u64),
) -> bool {
    roles_match(r.0@, cached.roles@) && r.1 == age_of(cached.fetched_at, now)
}

/// The name of the cache file for `start_url`.
pub fn roles_cache_filename(start_url: &str) -> (r: String)
    ensures
        r@ == cache_file_name("roles-"@, start_url@),
{
    cache_file_name_for("roles-", start_url)
}

fn choices_of(roles: &Vec<CachedRole>) -> (r: Vec<RoleChoice>)
    ensures
        roles_match(r@, roles@),
{
    let mut out: Vec<RoleChoice> = Vec::new();
    let mut i: usize = 0;
    while i < roles.len()
        invariant
            i <= roles@.len(),
            roles_match(out@, roles@.subrange(0, i as int)),
        decreases roles@.len() - i,
    {
        let role = &roles[i];
        out.push(
            RoleChoice {
                account_id: role.account_id.clone(),
                account_name: role.account_name.clone(),
                role_name: role.role_name.clone(),
            },
        );
        i += 1;
    }
    assert(roles@.subrange(0, roles@.len() as int) =~= roles@);
    out
}

/// The stored entry, whatever its age, with that age in seconds. `cached` is
/// the decoded cache file; `None` where it is absent, unreadable or malformed.
pub fn load_cached_roles_with_age(cached: Option<CachedRoles>, now: u64) -> (r: Option<
    (Vec<RoleChoice>, u64),
>)
    ensures
        r is Some <==> cached is Some,
        r is Some ==> loaded_roles(cached->0, now, r->0),
{
    match cached {
        None => None,
        Some(c) => {
            let age = if now >= c.fetched_at {
                now - c.fetched_at
            } else {
                0
            };
            Some((choices_of(&c.roles), age))
        },
    }
}

/// The stored entry only while it is fresh: its age is at most a day.
pub fn load_cached_roles(cached: Option<CachedRoles>, now: u64) -> (r: Option<
    (Vec<RoleChoice>, u64),
>)
    ensures
        r is Some <==> (cached is Some && roles_fresh(cached->0.fetched_at, now)),
        r is Some ==> loaded_roles(cached->0, now, r->0),
{
    let loaded = load_cached_roles_with_age(cached, now);
    match loaded {
        Some((choices, age)) => {
            if age <= ROLES_CACHE_TTL_SECS {
                Some((choices, age))
            } else {
                None
            }
        },
        None => None,
    }
}

/// The entry to store for `choices` fetched at `now`.
pub fn save_cached_roles(choices: &Vec<RoleChoice>, now: u64) -> (r: CachedRoles)
    ensures
        r.fetched_at == now,
        roles_match(choices@, r.roles@),
{
    let mut roles: Vec<CachedRole> = Vec::new();
    let mut i: usize = 0;
    while i < choices.len()
        invariant
            i <= choices@.len(),
            roles_match(choices@.subrange(0, i as int), roles@),
        decreases choices@.len() - i,
    {
        let c = &choices[i];
        roles.push(
            CachedRole {
                account_id: c.account_id.clone(),
                account_name: c.account_name.clone(),
                role_name: c.role_name.clone(),
            },
        );
        i += 1;
    }
    assert(choices@.subrange(0, choices@.len() as int) =~= choices@);
    CachedRoles { fetched_at: now, roles }
}

/// The age of an entry as the operator reads it.
pub fn format_age(age_secs: u64) -> (r: String)
    ensures
        r@ == compact_duration_of(age_secs as nat),
{
    compact_duration(age_secs)
}

/// An entry written at `t0` is served as fresh 23h59m later and no longer
/// 24h1m later, while the any-age read serves it at both times.
pub proof fn lemma_roles_ttl(t0: u64)
    requires
        t0 + 86460 <= u64::MAX,
    ensures
        roles_fresh(t0, (t0 + 86340) as u64),
        !roles_fresh(t0, (t0 + 86460) as u64),
{
}

/// Saving and then loading at the same instant gives back the saved roles,
/// fresh, with age zero.
pub proof fn lemma_roles_round_trip(
    choices: Seq<RoleChoice>,
    saved: CachedRoles,
    now: u64,
    loaded: (Vec<RoleChoice>, u64),
)
    requires
        saved.fetched_at == now,
        roles_match(choices, saved.roles@),
        loaded_roles(saved, now, loaded),
    ensures
        same_choices(loaded.0@, choices),
        loaded.1 == 0,
        roles_fresh(saved.fetched_at, now),
{
}

} // verus!
