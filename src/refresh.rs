//! Decisions around a refresh of the role list and of the access token: which
//! source is used, and what the caller sees when the remote calls fail.

use vstd::prelude::*;
use vstd::seq_lib::*;

use crate::error::Error;
use crate::model::{Account, CacheEntry, Role, RoleChoice};
use crate::ordering::{items_of, key_view_le, sort_by_key, SortKey};
use crate::text::{lower_of, lowercase};

verus! {

/// The choices of one account's roles, in order.
pub open spec fn account_choices(a: Account, roles: Seq<Role>) -> Seq<(Seq<char>, Seq<char>, Seq<char>)> {
    roles.map_values(|r: Role| (a.id@, a.name@, r.name@))
}

/// The choices of all accounts, account by account.
pub open spec fn flattened(groups: Seq<(Account, Vec<Role>)>) -> Seq<(Seq<char>, Seq<char>, Seq<char>)>
    decreases groups.len(),
{
    if groups.len() == 0 {
        Seq::empty()
    } else {
        flattened(groups.drop_last()) + account_choices(groups.last().0, groups.last().1@)
    }
}

pub open spec fn views_of(s: Seq<RoleChoice>) -> Seq<(Seq<char>, Seq<char>, Seq<char>)> {
    s.map_values(|c: RoleChoice| c@)
}

/// One choice per (account, role), account by account.
pub fn flatten_choices(groups: &Vec<(Account, Vec<Role>)>) -> (r: Vec<RoleChoice>)
    ensures
        views_of(r@) == flattened(groups@),
{
    let mut out: Vec<RoleChoice> = Vec::new();
    let mut i: usize = 0;
    while i < groups.len()
        invariant
            i <= groups@.len(),
            views_of(out@) == flattened(groups@.subrange(0, i as int)),
        decreases groups@.len() - i,
    {
        let account = &groups[i].0;
        let roles = &groups[i].1;
        let ghost base = out@;
        let mut j: usize = 0;
        while j < roles.len()
            invariant
                i < groups@.len(),
                *account == groups@[i as int].0,
                *roles == groups@[i as int].1,
                j <= roles@.len(),
                views_of(out@) == views_of(base) + account_choices(*account, roles@.subrange(0, j as int)),
            decreases roles@.len() - j,
        {
            let ghost prev = out@;
            out.push(RoleChoice::new(account, &roles[j]));
            assert(views_of(out@) =~= views_of(prev).push(out@.last()@));
            assert(account_choices(*account, roles@.subrange(0, j + 1)) =~= account_choices(
                *account,
                roles@.subrange(0, j as int),
            ).push((account.id@, account.name@, roles@[j as int].name@)));
            j += 1;
        }
        assert(roles@.subrange(0, roles@.len() as int) =~= roles@);
        assert(groups@.subrange(0, i + 1).drop_last() =~= groups@.subrange(0, i as int));
        i += 1;
    }
    assert(groups@.subrange(0, groups@.len() as int) =~= groups@);
    out
}

/// `out[i]` is `inp[p[i]]`, and accounts whose names differ only in case
/// keep the order they had in `inp`.
pub open spec fn stable_account_positions(out: Seq<Account>, inp: Seq<Account>, p: Seq<int>) -> bool {
    &&& p.len() == out.len()
    &&& forall|i: int| 0 <= i < out.len() ==> 0 <= #[trigger] p[i] < inp.len() && out[i] == inp[p[i]]
    &&& forall|i: int, j: int|
        0 <= i < j < out.len() && lower_of((#[trigger] out[i]).name@) == lower_of((#[trigger] out[j]).name@)
            ==> p[i] <= p[j]
}

/// Orders accounts by name, compared case-insensitively; names equal but for
/// case keep their order.
pub fn sort_accounts(accounts: &mut Vec<Account>)
    ensures
        exists|p: Seq<int>| #[trigger] stable_account_positions(final(accounts)@, old(accounts)@, p),
        final(accounts)@.to_multiset() == old(accounts)@.to_multiset(),
        forall|i: int, j: int|
            0 <= i < j < final(accounts)@.len() ==> key_view_le(
                (0, lower_of((#[trigger] final(accounts)@[i]).name@), Seq::empty()),
                (0, lower_of((#[trigger] final(accounts)@[j]).name@), Seq::empty()),
            ),
{
    let mut src: Vec<Account> = Vec::new();
    std::mem::swap(accounts, &mut src);
    let ghost orig = src@;
    let mut pairs: Vec<(SortKey, Account)> = Vec::new();
    let mut taken: usize = 0;
    let total = src.len();
    assert(items_of(pairs@) =~= orig.subrange(0, 0));
    while src.len() > 0
        invariant
            total == orig.len(),
            taken + src@.len() == orig.len(),
            src@ == orig.subrange(taken as int, orig.len() as int),
            items_of(pairs@) == orig.subrange(0, taken as int),
            forall|k: int| 0 <= k < pairs@.len() ==> (#[trigger] pairs@[k]).0@ == (
                0int,
                lower_of(pairs@[k].1.name@),
                Seq::<char>::empty(),
            ) && pairs@[k].0.position == k && pairs@[k].1 == orig[k],
        decreases src@.len(),
    {
        let ghost prev = pairs@;
        let a = src.remove(0);
        assert(a == orig[taken as int]);
        let key = SortKey {
            rank: 0,
            primary: lowercase(a.name.as_str()),
            secondary: String::new(),
            position: taken,
        };
        pairs.push((key, a));
        assert(items_of(pairs@) =~= items_of(prev).push(pairs@.last().1));
        taken += 1;
        assert(items_of(pairs@) =~= orig.subrange(0, taken as int));
    }
    assert(orig.subrange(0, orig.len() as int) =~= orig);
    let ghost unsorted = pairs@;
    let mut sorted = sort_by_key(pairs);
    let ghost sorted_all = sorted@;
    proof {
        assert forall|k: int| 0 <= k < sorted_all.len() implies (#[trigger] sorted_all[k]).0@ == (
            0int,
            lower_of(sorted_all[k].1.name@),
            Seq::<char>::empty(),
        ) && 0 <= sorted_all[k].0.position < orig.len() && sorted_all[k].1 == orig[sorted_all[k].0.position as int] by {
            to_multiset_contains(sorted_all, sorted_all[k]);
            to_multiset_contains(unsorted, sorted_all[k]);
            assert(sorted_all.to_multiset().count(sorted_all[k]) > 0);
            let m = choose|m: int| 0 <= m < unsorted.len() && unsorted[m] == sorted_all[k];
        }
    }
    let mut t: usize = 0;
    let n = sorted.len();
    while sorted.len() > 0
        invariant
            n == sorted_all.len(),
            t + sorted@.len() == n,
            sorted@ == sorted_all.subrange(t as int, n as int),
            accounts@ == items_of(sorted_all.subrange(0, t as int)),
        decreases sorted@.len(),
    {
        let pair = sorted.remove(0);
        accounts.push(pair.1);
        t += 1;
        assert(accounts@ =~= items_of(sorted_all.subrange(0, t as int)));
    }
    assert(sorted_all.subrange(0, n as int) =~= sorted_all);
    proof {
        assert forall|i: int, j: int| 0 <= i < j < accounts@.len() implies key_view_le(
            (0, lower_of((#[trigger] accounts@[i]).name@), Seq::empty()),
            (0, lower_of((#[trigger] accounts@[j]).name@), Seq::empty()),
        ) by {
            assert(accounts@[i] == sorted_all[i].1);
            assert(accounts@[j] == sorted_all[j].1);
            assert(crate::ordering::key_le(sorted_all[i].0, sorted_all[j].0));
        }
        let p = sorted_all.map_values(|x: (SortKey, Account)| x.0.position as int);
        assert forall|i: int| 0 <= i < accounts@.len() implies 0 <= #[trigger] p[i] < orig.len() && accounts@[i] == orig[p[i]] by {
            assert(accounts@[i] == sorted_all[i].1);
        }
        assert forall|i: int, j: int|
            0 <= i < j < accounts@.len() && lower_of((#[trigger] accounts@[i]).name@) == lower_of((#[trigger] accounts@[j]).name@)
                implies p[i] <= p[j] by {
            assert(accounts@[i] == sorted_all[i].1);
            assert(accounts@[j] == sorted_all[j].1);
            assert(crate::ordering::key_le(sorted_all[i].0, sorted_all[j].0));
            crate::ordering::lemma_lex_antisym(lower_of(accounts@[i].name@), lower_of(accounts@[j].name@));
        }
        assert(stable_account_positions(accounts@, orig, p));
    }
}

/// The outcome of a refresh: a freshly fetched list (to be saved), or the
/// cached list of the given age when the refresh failed. The remote failure is
/// passed on only when no cached list exists.
pub fn resolve_refresh(
    refreshed: Result<Vec<RoleChoice>, Error>,
    fallback: Option<(Vec<RoleChoice>, u64)>,
) -> (r: Result<(Vec<RoleChoice>, Option<u64>), Error>)
    ensures
        match refreshed {
            Ok(v) => r matches Ok((c, None)) && c@ == v@,
            Err(e) => match fallback {
                Some((c, age)) => r matches Ok((d, Some(a))) && d@ == c@ && a == age,
                None => r matches Err(x) && x == e,
            },
        },
{
    match refreshed {
        Ok(v) => Ok((v, None)),
        Err(e) => match fallback {
            Some((c, age)) => Ok((c, Some(age))),
            None => Err(e),
        },
    }
}

/// Where the access token comes from.
#[derive(Debug, Clone)]
pub enum TokenPlan {
    /// A valid cached token.
    UseCached(CacheEntry),
    /// Run the device authorization in this region.
    Authorize(String),
}

/// Use the cached token unless caches are bypassed or none is valid; else
/// authorize, which needs a region.
pub fn plan_token(ignore_cache: bool, cached: Result<CacheEntry, Error>, region: Option<&str>) -> (r:
    Result<TokenPlan, Error>)
    ensures
        !ignore_cache && cached is Ok ==> (r matches Ok(TokenPlan::UseCached(e)) && e == cached->Ok_0),
        (ignore_cache || cached is Err) && region is Some ==> (r matches Ok(TokenPlan::Authorize(g))
            && g@ == region->0@),
        (ignore_cache || cached is Err) && region is None ==> r matches Err(Error::MissingRegion),
{
    if !ignore_cache {
        if let Ok(entry) = cached {
            return Ok(TokenPlan::UseCached(entry));
        }
    }
    match region {
        Some(g) => Ok(TokenPlan::Authorize(String::from_str(g))),
        None => Err(Error::MissingRegion),
    }
}

/// The token of the next page of a listing: the one the service returned,
/// unless it is missing or empty, which ends the listing.
pub fn next_page(token: Option<&str>) -> (r: Option<String>)
    ensures
        match token {
            Some(t) => if t@.len() > 0 {
                r matches Some(n) && n@ == t@
            } else {
                r is None
            },
            None => r is None,
        },
{
    match token {
        Some(t) => {
            if t.unicode_len() > 0 {
                Some(String::from_str(t))
            } else {
                None
            }
        },
        None => None,
    }
}

/// How long to wait before listing the roles again: only when no role is
/// visible and a refresh interval is configured.
pub fn refetch_delay(visible: usize, refresh_seconds: Option<u64>) -> (r: Option<u64>)
    ensures
        r == (if visible == 0 { refresh_seconds } else { None::<u64> }),
{
    if visible == 0 {
        refresh_seconds
    } else {
        None
    }
}

} // verus!
