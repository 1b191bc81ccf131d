//! The selection history: entries, the statistics the ranking is computed
//! from, and listing of recent entries.

use vstd::prelude::*;
use vstd::seq_lib::*;

use crate::model::RoleChoice;
use crate::ordering::{items_of, sort_by_key, SortKey};
use crate::text::{decimal, decimal_of, trim, trimmed_of};
use crate::timestamps::{format_rfc3339, rfc3339_of};

verus! {

/// Seconds in a day.
pub const SECONDS_PER_DAY: i64 = 86400;

/// Selections within this many seconds count towards frequency.
pub const FREQUENCY_WINDOW_SECS: i64 = 2592000;

/// One successful role selection.
#[derive(Debug, Clone)]
pub struct HistoryEntry {
    pub selected_at_unix: i64,
    pub identity: String,
    pub account_id: String,
    pub account_name: String,
    pub role_name: String,
    pub cwd: Option<String>,
}

/// The entry recording that `choice` was selected under `identity` at `now`
/// from working directory `cwd`.
pub fn new_entry(identity: &str, choice: &RoleChoice, now: i64, cwd: Option<String>) -> (r:
    HistoryEntry)
    ensures
        r.selected_at_unix == now,
        r.identity@ == identity@,
        r.account_id@ == choice.account_id@,
        r.account_name@ == choice.account_name@,
        r.role_name@ == choice.role_name@,
        r.cwd == cwd,
{
    HistoryEntry {
        selected_at_unix: now,
        identity: String::from_str(identity),
        account_id: choice.account_id.clone(),
        account_name: choice.account_name.clone(),
        role_name: choice.role_name.clone(),
        cwd,
    }
}

/// `now - then`, saturated to the range of `i64`.
pub open spec fn age_secs(now: i64, then: i64) -> i64 {
    if now - then > i64::MAX {
        i64::MAX
    } else if now - then < i64::MIN {
        i64::MIN
    } else {
        (now - then) as i64
    }
}

fn age_of(now: i64, then: i64) -> (r: i64)
    ensures
        r == age_secs(now, then),
{
    if then < 0 && now > i64::MAX + then {
        i64::MAX
    } else if then > 0 && now < i64::MIN + then {
        i64::MIN
    } else {
        now - then
    }
}

/// The entry was made under `identity` for this account and role.
pub open spec fn entry_for(e: HistoryEntry, identity: Seq<char>, account_id: Seq<char>, role_name: Seq<char>) -> bool {
    e.identity@ == identity && e.account_id@ == account_id && e.role_name@ == role_name
}

/// The smallest age among the matching entries, if any.
pub open spec fn min_age_of(
    s: Seq<HistoryEntry>,
    identity: Seq<char>,
    account_id: Seq<char>,
    role_name: Seq<char>,
    now: i64,
) -> Option<i64>
    decreases s.len(),
{
    if s.len() == 0 {
        None
    } else {
        let front = min_age_of(s.drop_last(), identity, account_id, role_name, now);
        if entry_for(s.last(), identity, account_id, role_name) {
            let a = age_secs(now, s.last().selected_at_unix);
            match front {
                Some(m) => Some(if a < m { a } else { m }),
                None => Some(a),
            }
        } else {
            front
        }
    }
}

/// How many matching entries lie within the frequency window.
pub open spec fn recent_count_of(
    s: Seq<HistoryEntry>,
    identity: Seq<char>,
    account_id: Seq<char>,
    role_name: Seq<char>,
    now: i64,
) -> nat
    decreases s.len(),
{
    if s.len() == 0 {
        0
    } else {
        let front = recent_count_of(s.drop_last(), identity, account_id, role_name, now);
        if entry_for(s.last(), identity, account_id, role_name) && age_secs(
            now,
            s.last().selected_at_unix,
        ) <= FREQUENCY_WINDOW_SECS {
            front + 1
        } else {
            front
        }
    }
}

/// Some matching entry was made from working directory `cwd`.
pub open spec fn cwd_seen_in(
    s: Seq<HistoryEntry>,
    identity: Seq<char>,
    account_id: Seq<char>,
    role_name: Seq<char>,
    cwd: Seq<char>,
) -> bool {
    exists|k: int|
        0 <= k < s.len() && entry_for(#[trigger] s[k], identity, account_id, role_name)
            && s[k].cwd is Some && s[k].cwd->0@ == cwd
}

/// What the ranking knows of one (account, role) pair.
#[derive(Debug, Clone)]
pub struct HistoryStats {
    pub account_id: String,
    pub role_name: String,
    /// Seconds since the most recent selection.
    pub min_age_secs: i64,
    /// Selections in the last thirty days, saturated at `u32::MAX`.
    pub frequency_30d: u32,
    /// Some selection was made from the current working directory.
    pub cwd_matches: bool,
}

/// `st` describes its pair over the entries `s`.
pub open spec fn stats_describe(
    st: HistoryStats,
    s: Seq<HistoryEntry>,
    identity: Seq<char>,
    now: i64,
    cwd: Option<Seq<char>>,
) -> bool {
    &&& min_age_of(s, identity, st.account_id@, st.role_name@, now) == Some(st.min_age_secs)
    &&& st.frequency_30d as nat == if recent_count_of(s, identity, st.account_id@, st.role_name@, now) > u32::MAX {
        u32::MAX as nat
    } else {
        recent_count_of(s, identity, st.account_id@, st.role_name@, now)
    }
    &&& st.cwd_matches == (cwd is Some && cwd_seen_in(s, identity, st.account_id@, st.role_name@, cwd->0))
}

/// The statistics of every pair with an entry under `identity`, one record per
/// pair.
pub open spec fn stats_of(
    stats: Seq<HistoryStats>,
    s: Seq<HistoryEntry>,
    identity: Seq<char>,
    now: i64,
    cwd: Option<Seq<char>>,
) -> bool {
    &&& forall|k: int| 0 <= k < stats.len() ==> stats_describe(#[trigger] stats[k], s, identity, now, cwd)
    &&& forall|k: int, l: int| 0 <= k < l < stats.len() ==> !(#[trigger] stats[k].account_id@ == (#[trigger] stats[l]).account_id@ && stats[k].role_name@ == stats[l].role_name@)
    &&& forall|k: int| 0 <= k < s.len() && (#[trigger] s[k]).identity@ == identity ==> exists|m: int| 0 <= m < stats.len() && (#[trigger] stats[m]).account_id@ == s[k].account_id@ && stats[m].role_name@ == s[k].role_name@
}

pub open spec fn opt_view(o: Option<&str>) -> Option<Seq<char>> {
    match o {
        Some(s) => Some(s@),
        None => None,
    }
}

proof fn lemma_unmatched(
    s: Seq<HistoryEntry>,
    identity: Seq<char>,
    account_id: Seq<char>,
    role_name: Seq<char>,
    now: i64,
)
    requires
        forall|k: int| 0 <= k < s.len() ==> !entry_for(#[trigger] s[k], identity, account_id, role_name),
    ensures
        min_age_of(s, identity, account_id, role_name, now) is None,
        recent_count_of(s, identity, account_id, role_name, now) == 0,
    decreases s.len(),
{
    if s.len() > 0 {
        assert(!entry_for(s[s.len() - 1], identity, account_id, role_name));
        lemma_unmatched(s.drop_last(), identity, account_id, role_name, now);
    }
}

fn find_stats(stats: &Vec<HistoryStats>, account_id: &String, role_name: &String) -> (r: Option<usize>)
    ensures
        match r {
            Some(k) => k < stats@.len() && stats@[k as int].account_id@ == account_id@
                && stats@[k as int].role_name@ == role_name@,
            None => forall|k: int| 0 <= k < stats@.len() ==> !((#[trigger] stats@[k]).account_id@ == account_id@
                && stats@[k].role_name@ == role_name@),
        },
{
    let mut k: usize = 0;
    while k < stats.len()
        invariant
            k <= stats@.len(),
            forall|j: int| 0 <= j < k ==> !((#[trigger] stats@[j]).account_id@ == account_id@
                && stats@[j].role_name@ == role_name@),
        decreases stats@.len() - k,
    {
        if stats[k].account_id == *account_id && stats[k].role_name == *role_name {
            return Some(k);
        }
        k += 1;
    }
    None
}

/// The statistics of every (account, role) pair selected under `identity`:
/// the age of its latest selection, how often it was selected in the last
/// thirty days, and whether it was ever selected from `cwd`.
pub fn build_stats(entries: &Vec<HistoryEntry>, identity: &str, now: i64, cwd: Option<&str>) -> (r:
    Vec<HistoryStats>)
    ensures
        stats_of(r@, entries@, identity@, now, opt_view(cwd)),
{
    let id = String::from_str(identity);
    let here: Option<String> = match cwd {
        Some(c) => Some(String::from_str(c)),
        None => None,
    };
    let ghost cv = opt_view(cwd);
    let mut stats: Vec<HistoryStats> = Vec::new();
    let mut i: usize = 0;
    while i < entries.len()
        invariant
            i <= entries@.len(),
            id@ == identity@,
            cv == opt_view(cwd),
            match here {
                Some(h) => cv == Some(h@),
                None => cv is None,
            },
            stats_of(stats@, entries@.subrange(0, i as int), identity@, now, cv),
        decreases entries@.len() - i,
    {
        let ghost s0 = entries@.subrange(0, i as int);
        let ghost s1 = entries@.subrange(0, i + 1);
        let e = &entries[i];
        proof {
            assert(s1.drop_last() =~= s0);
            assert(s1.last() == *e);
            assert forall|k: int| 0 <= k < s0.len() implies s1[k] == #[trigger] s0[k] by {}
        }
        if e.identity == id {
            let age = age_of(now, e.selected_at_unix);
            let recent = age <= FREQUENCY_WINDOW_SECS;
            let at_cwd = match (&here, &e.cwd) {
                (Some(h), Some(c)) => *h == *c,
                _ => false,
            };
            let ghost old_stats = stats@;
            match find_stats(&stats, &e.account_id, &e.role_name) {
                Some(k) => {
                    let st = &stats[k];
                    let updated = HistoryStats {
                        account_id: st.account_id.clone(),
                        role_name: st.role_name.clone(),
                        min_age_secs: if age < st.min_age_secs { age } else { st.min_age_secs },
                        frequency_30d: if recent && st.frequency_30d < u32::MAX {
                            st.frequency_30d + 1
                        } else {
                            st.frequency_30d
                        },
                        cwd_matches: st.cwd_matches || at_cwd,
                    };
                    stats.set(k, updated);
                    proof {
                        assert forall|m: int| 0 <= m < stats@.len() implies stats_describe(#[trigger] stats@[m], s1, identity@, now, cv) by {
                            let st = stats@[m];
                            assert(stats_describe(old_stats[m], s0, identity@, now, cv));
                            if cv is Some && cwd_seen_in(s1, identity@, st.account_id@, st.role_name@, cv->0) {
                                let w = choose|w: int| 0 <= w < s1.len() && entry_for(#[trigger] s1[w], identity@, st.account_id@, st.role_name@)
                                    && s1[w].cwd is Some && s1[w].cwd->0@ == cv->0;
                                if w < s0.len() {
                                    assert(s0[w] == s1[w]);
                                }
                            }
                            if cv is Some && cwd_seen_in(s0, identity@, st.account_id@, st.role_name@, cv->0) {
                                let w = choose|w: int| 0 <= w < s0.len() && entry_for(#[trigger] s0[w], identity@, st.account_id@, st.role_name@)
                                    && s0[w].cwd is Some && s0[w].cwd->0@ == cv->0;
                                assert(s1[w] == s0[w]);
                            }
                            if m == k && at_cwd {
                                assert(entry_for(s1[s0.len() as int], identity@, st.account_id@, st.role_name@));
                            }
                        }
                        assert forall|k2: int| 0 <= k2 < s1.len() && (#[trigger] s1[k2]).identity@ == identity@ implies exists|m: int| 0 <= m < stats@.len() && (#[trigger] stats@[m]).account_id@ == s1[k2].account_id@ && stats@[m].role_name@ == s1[k2].role_name@ by {
                            if k2 < s0.len() {
                                assert(s0[k2] == s1[k2]);
                                let m = choose|m: int| 0 <= m < old_stats.len() && (#[trigger] old_stats[m]).account_id@ == s0[k2].account_id@ && old_stats[m].role_name@ == s0[k2].role_name@;
                                assert(stats@[m].account_id@ == old_stats[m].account_id@);
                            } else {
                                assert(stats@[k as int].account_id@ == s1[k2].account_id@);
                            }
                        }
                    }
                },
                None => {
                    let fresh = HistoryStats {
                        account_id: e.account_id.clone(),
                        role_name: e.role_name.clone(),
                        min_age_secs: age,
                        frequency_30d: if recent { 1 } else { 0 },
                        cwd_matches: at_cwd,
                    };
                    stats.push(fresh);
                    proof {
                        assert forall|k2: int| 0 <= k2 < s0.len() implies !entry_for(#[trigger] s0[k2], identity@, e.account_id@, e.role_name@) by {
                            if entry_for(s0[k2], identity@, e.account_id@, e.role_name@) {
                                let m = choose|m: int| 0 <= m < old_stats.len() && (#[trigger] old_stats[m]).account_id@ == s0[k2].account_id@ && old_stats[m].role_name@ == s0[k2].role_name@;
                            }
                        }
                        lemma_unmatched(s0, identity@, e.account_id@, e.role_name@, now);
                        assert forall|m: int| 0 <= m < stats@.len() implies stats_describe(#[trigger] stats@[m], s1, identity@, now, cv) by {
                            let st = stats@[m];
                            if m < old_stats.len() {
                                assert(stats_describe(old_stats[m], s0, identity@, now, cv));
                                assert(st == old_stats[m]);
                            }
                            if cv is Some && cwd_seen_in(s1, identity@, st.account_id@, st.role_name@, cv->0) {
                                let w = choose|w: int| 0 <= w < s1.len() && entry_for(#[trigger] s1[w], identity@, st.account_id@, st.role_name@)
                                    && s1[w].cwd is Some && s1[w].cwd->0@ == cv->0;
                                if w < s0.len() {
                                    assert(s0[w] == s1[w]);
                                }
                            }
                            if cv is Some && cwd_seen_in(s0, identity@, st.account_id@, st.role_name@, cv->0) {
                                let w = choose|w: int| 0 <= w < s0.len() && entry_for(#[trigger] s0[w], identity@, st.account_id@, st.role_name@)
                                    && s0[w].cwd is Some && s0[w].cwd->0@ == cv->0;
                                assert(s1[w] == s0[w]);
                            }
                            if m == old_stats.len() && at_cwd {
                                assert(entry_for(s1[s0.len() as int], identity@, st.account_id@, st.role_name@));
                            }
                        }
                        assert forall|k2: int| 0 <= k2 < s1.len() && (#[trigger] s1[k2]).identity@ == identity@ implies exists|m: int| 0 <= m < stats@.len() && (#[trigger] stats@[m]).account_id@ == s1[k2].account_id@ && stats@[m].role_name@ == s1[k2].role_name@ by {
                            if k2 < s0.len() {
                                assert(s0[k2] == s1[k2]);
                                let m = choose|m: int| 0 <= m < old_stats.len() && (#[trigger] old_stats[m]).account_id@ == s0[k2].account_id@ && old_stats[m].role_name@ == s0[k2].role_name@;
                                assert(stats@[m] == old_stats[m]);
                            } else {
                                assert(stats@[old_stats.len() as int].account_id@ == s1[k2].account_id@);
                            }
                        }
                    }
                },
            }
        } else {
            proof {
                assert forall|m: int| 0 <= m < stats@.len() implies stats_describe(#[trigger] stats@[m], s1, identity@, now, cv) by {
                    let st = stats@[m];
                    assert(stats_describe(st, s0, identity@, now, cv));
                    if cv is Some && cwd_seen_in(s1, identity@, st.account_id@, st.role_name@, cv->0) {
                        let w = choose|w: int| 0 <= w < s1.len() && entry_for(#[trigger] s1[w], identity@, st.account_id@, st.role_name@)
                            && s1[w].cwd is Some && s1[w].cwd->0@ == cv->0;
                        if w < s0.len() {
                            assert(s0[w] == s1[w]);
                        }
                    }
                    if cv is Some && cwd_seen_in(s0, identity@, st.account_id@, st.role_name@, cv->0) {
                        let w = choose|w: int| 0 <= w < s0.len() && entry_for(#[trigger] s0[w], identity@, st.account_id@, st.role_name@)
                            && s0[w].cwd is Some && s0[w].cwd->0@ == cv->0;
                        assert(s1[w] == s0[w]);
                    }
                }
                assert forall|k2: int| 0 <= k2 < s1.len() && (#[trigger] s1[k2]).identity@ == identity@ implies exists|m: int| 0 <= m < stats@.len() && (#[trigger] stats@[m]).account_id@ == s1[k2].account_id@ && stats@[m].role_name@ == s1[k2].role_name@ by {
                    assert(s0[k2] == s1[k2]);
                }
            }
        }
        i += 1;
    }
    assert(entries@.subrange(0, entries@.len() as int) =~= entries@);
    stats
}

/// `out[i]` is `inp[p[i]]`, and entries made at the same second keep the
/// order they had in `inp`.
pub open spec fn stable_entry_positions(out: Seq<HistoryEntry>, inp: Seq<HistoryEntry>, p: Seq<int>) -> bool {
    &&& p.len() == out.len()
    &&& forall|i: int| 0 <= i < out.len() ==> 0 <= #[trigger] p[i] < inp.len() && out[i] == inp[p[i]]
    &&& forall|i: int, j: int|
        0 <= i < j < out.len() && (#[trigger] out[i]).selected_at_unix == (#[trigger] out[j]).selected_at_unix
            ==> p[i] <= p[j]
}

/// The `limit` most recent entries, newest first; entries of the same second
/// keep their order.
pub fn recent_entries(entries: Vec<HistoryEntry>, limit: usize) -> (r: Vec<HistoryEntry>)
    ensures
        exists|p: Seq<int>| #[trigger] stable_entry_positions(r@, entries@, p),
        r@.len() == if limit < entries@.len() { limit as int } else { entries@.len() as int },
        forall|i: int, j: int|
            0 <= i < j < r@.len() ==> (#[trigger] r@[i]).selected_at_unix >= (#[trigger] r@[j]).selected_at_unix,
        r@.to_multiset().subset_of(entries@.to_multiset()),
        forall|e: HistoryEntry, i: int|
            #[trigger] entries@.to_multiset().count(e) > r@.to_multiset().count(e) && 0 <= i < r@.len()
                ==> e.selected_at_unix <= (#[trigger] r@[i]).selected_at_unix,
{
    let mut src = entries;
    let ghost orig = src@;
    let mut pairs: Vec<(SortKey, HistoryEntry)> = Vec::new();
    let mut taken: usize = 0;
    let total = src.len();
    assert(items_of(pairs@) =~= orig.subrange(0, 0));
    while src.len() > 0
        invariant
            total == orig.len(),
            taken + src@.len() == orig.len(),
            src@ == orig.subrange(taken as int, orig.len() as int),
            items_of(pairs@) == orig.subrange(0, taken as int),
            forall|k: int| 0 <= k < pairs@.len() ==> (#[trigger] pairs@[k]).0@ == (
                -(pairs@[k].1.selected_at_unix as int),
                Seq::<char>::empty(),
                Seq::<char>::empty(),
            ) && pairs@[k].0.position == k && pairs@[k].1 == orig[k],
        decreases src@.len(),
    {
        let ghost prev = pairs@;
        let e = src.remove(0);
        assert(e == orig[taken as int]);
        let key = SortKey {
            rank: -(e.selected_at_unix as i128),
            primary: String::new(),
            secondary: String::new(),
            position: taken,
        };
        pairs.push((key, e));
        assert(items_of(pairs@) =~= items_of(prev).push(pairs@.last().1));
        taken += 1;
        assert(items_of(pairs@) =~= orig.subrange(0, taken as int));
    }
    assert(orig.subrange(0, orig.len() as int) =~= orig);
    let ghost unsorted = pairs@;
    let mut sorted = sort_by_key(pairs);
    let ghost sorted_all = sorted@;
    let ghost all_items = items_of(sorted_all);
    proof {
        to_multiset_len(sorted_all);
        to_multiset_len(unsorted);
        assert(all_items.len() == sorted_all.len());
        assert(unsorted.len() == items_of(unsorted).len());
        assert forall|k: int| 0 <= k < sorted_all.len() implies (#[trigger] sorted_all[k]).0@ == (
            -(sorted_all[k].1.selected_at_unix as int),
            Seq::<char>::empty(),
            Seq::<char>::empty(),
        ) && 0 <= sorted_all[k].0.position < orig.len() && sorted_all[k].1 == orig[sorted_all[k].0.position as int] by {
            to_multiset_contains(sorted_all, sorted_all[k]);
            to_multiset_contains(unsorted, sorted_all[k]);
            assert(sorted_all.to_multiset().count(sorted_all[k]) > 0);
            let m = choose|m: int| 0 <= m < unsorted.len() && unsorted[m] == sorted_all[k];
        }
        assert forall|i: int, j: int| 0 <= i < j < all_items.len() implies (#[trigger] all_items[i]).selected_at_unix >= (#[trigger] all_items[j]).selected_at_unix by {
            assert(crate::ordering::key_le(sorted_all[i].0, sorted_all[j].0));
        }
    }
    let n = sorted.len();
    let keep = if limit < n { limit } else { n };
    let mut out: Vec<HistoryEntry> = Vec::new();
    let mut t: usize = 0;
    while t < keep
        invariant
            keep <= n,
            n == sorted_all.len(),
            n == all_items.len(),
            all_items == items_of(sorted_all),
            t <= keep,
            sorted@ == sorted_all.subrange(t as int, n as int),
            out@ == all_items.subrange(0, t as int),
        decreases keep - t,
    {
        let pair = sorted.remove(0);
        assert(pair.1 == all_items[t as int]);
        out.push(pair.1);
        t += 1;
        assert(out@ =~= all_items.subrange(0, t as int));
    }
    proof {
        let head = all_items.subrange(0, keep as int);
        let tail = all_items.subrange(keep as int, n as int);
        assert(all_items =~= head + tail);
        lemma_multiset_commutative(head, tail);
        assert forall|e: HistoryEntry, i: int|
            #[trigger] orig.to_multiset().count(e) > out@.to_multiset().count(e) && 0 <= i < out@.len()
                implies e.selected_at_unix <= (#[trigger] out@[i]).selected_at_unix by {
            assert(tail.to_multiset().count(e) > 0);
            to_multiset_contains(tail, e);
            let j = choose|j: int| 0 <= j < tail.len() && tail[j] == e;
            assert(all_items[keep + j] == e);
            assert(all_items[i] == out@[i]);
        }
        let p = sorted_all.subrange(0, keep as int).map_values(|x: (SortKey, HistoryEntry)| x.0.position as int);
        assert forall|i: int| 0 <= i < out@.len() implies 0 <= #[trigger] p[i] < orig.len() && out@[i] == orig[p[i]] by {
            assert(out@[i] == all_items[i]);
            assert(all_items[i] == sorted_all[i].1);
        }
        assert forall|i: int, j: int|
            0 <= i < j < out@.len() && (#[trigger] out@[i]).selected_at_unix == (#[trigger] out@[j]).selected_at_unix
                implies p[i] <= p[j] by {
            assert(out@[i] == sorted_all[i].1);
            assert(out@[j] == sorted_all[j].1);
            assert(crate::ordering::key_le(sorted_all[i].0, sorted_all[j].0));
        }
        assert(stable_entry_positions(out@, orig, p));
    }
    out
}

/// The timestamp of an entry: RFC 3339 where it can be formatted, else the
/// number of seconds.
pub open spec fn timestamp_text(unix: i64) -> Seq<char> {
    match rfc3339_of(unix as int) {
        Some(t) => t,
        None => if unix < 0 {
            "-"@ + decimal_of((-unix) as nat)
        } else {
            decimal_of(unix as nat)
        },
    }
}

pub fn format_timestamp(unix_timestamp: i64) -> (r: String)
    ensures
        r@ == timestamp_text(unix_timestamp),
{
    match format_rfc3339(unix_timestamp) {
        Some(t) => t,
        None => {
            if unix_timestamp < 0 {
                let magnitude: u64 = if unix_timestamp == i64::MIN {
                    9223372036854775808
                } else {
                    (-unix_timestamp) as u64
                };
                let mut s = String::from_str("-");
                let digits = decimal(magnitude);
                s.append(digits.as_str());
                s
            } else {
                decimal(unix_timestamp as u64)
            }
        },
    }
}

/// One line of the history listing: timestamp, identity, account, role and
/// working directory (`-` where unknown), separated by tabs.
pub fn format_entry(entry: &HistoryEntry) -> (r: String)
    ensures
        r@ == timestamp_text(entry.selected_at_unix) + "\t"@ + entry.identity@ + "\t"@
            + entry.account_id@ + "\t"@ + entry.role_name@ + "\t"@ + match entry.cwd {
            Some(c) => c@,
            None => "-"@,
        },
{
    let mut s = format_timestamp(entry.selected_at_unix);
    s.append("\t");
    s.append(entry.identity.as_str());
    s.append("\t");
    s.append(entry.account_id.as_str());
    s.append("\t");
    s.append(entry.role_name.as_str());
    s.append("\t");
    match &entry.cwd {
        Some(c) => s.append(c.as_str()),
        None => s.append("-"),
    }
    s
}

/// History ranking applies only when the operator gave no search text (a
/// blank one counts as none).
pub fn ranking_applies(initial_query: Option<&str>) -> (r: bool)
    ensures
        r == match initial_query {
            Some(q) => trimmed_of(q@).len() == 0,
            None => true,
        },
{
    match initial_query {
        Some(q) => trim(q).unicode_len() == 0,
        None => true,
    }
}

} // verus!
