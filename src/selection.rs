//! Shaping the candidate list: account rules, ordering, and names guessed
//! from a start URL.

use vstd::prelude::*;
use vstd::seq_lib::*;

use crate::config::{AccountRule, SsoIdentity};
use crate::model::RoleChoice;
use crate::ordering::{items_of, key_view_le, same_key, sort_by_key, SortKey};
use crate::text::{
    chars_of, is_alnum, is_ascii_alphanumeric, lower_of, lowercase, matches_at, occurs_at,
    string_from_chars, trim, trim_char, trim_matches_char, trimmed_of,
};

verus! {

/// `s` with `p` removed from its front as many times as it occurs there.
pub open spec fn strip_all_prefix(s: Seq<char>, p: Seq<char>) -> Seq<char>
    decreases s.len(),
{
    if p.len() > 0 && occurs_at(s, p, 0) {
        strip_all_prefix(s.subrange(p.len() as int, s.len() as int), p)
    } else {
        s
    }
}

/// The part of `s` before the first `c`, or all of `s`.
pub open spec fn before_char(s: Seq<char>, c: char) -> Seq<char>
    decreases s.len(),
{
    if s.len() == 0 || s[0] == c {
        Seq::empty()
    } else {
        seq![s[0]] + before_char(s.drop_first(), c)
    }
}

pub open spec fn slug_char(c: char) -> char {
    if is_alnum(c) || c == '-' {
        c
    } else {
        '-'
    }
}

/// The account name suggested for a start URL: the first label of its host,
/// with other characters than letters, digits and `-` turned into `-`, and
/// dashes at either end removed.
pub open spec fn guessed_name_of(start_url: Seq<char>) -> Seq<char> {
    let rest = strip_all_prefix(strip_all_prefix(trimmed_of(start_url), "https://"@), "http://"@);
    let host = before_char(rest, '/');
    let label = before_char(host, '.');
    trim_char(label.map_values(|c: char| slug_char(c)), '-')
}

fn strip_all_prefix_vec(v: &Vec<char>, p: &Vec<char>) -> (r: Vec<char>)
    ensures
        r@ == strip_all_prefix(v@, p@),
{
    let n = v.len();
    let mut pos: usize = 0;
    assert(v@.subrange(0, n as int) =~= v@);
    while p.len() > 0 && p.len() <= n - pos && matches_at(v, p, pos)
        invariant
            n == v@.len(),
            pos <= n,
            strip_all_prefix(v@, p@) == strip_all_prefix(v@.subrange(pos as int, n as int), p@),
        decreases n - pos,
    {
        proof {
            let cur = v@.subrange(pos as int, n as int);
            assert(cur.subrange(0, p@.len() as int) =~= v@.subrange(pos as int, pos + p@.len()));
            assert(cur.subrange(p@.len() as int, cur.len() as int) =~= v@.subrange(pos + p@.len(), n as int));
        }
        pos += p.len();
    }
    proof {
        let cur = v@.subrange(pos as int, n as int);
        if p@.len() > 0 && p@.len() <= n - pos {
            assert(cur.subrange(0, p@.len() as int) =~= v@.subrange(pos as int, pos + p@.len()));
        }
    }
    copy_range(v, pos, n)
}

pub(crate) fn copy_range(v: &Vec<char>, from: usize, to: usize) -> (r: Vec<char>)
    requires
        from <= to <= v@.len(),
    ensures
        r@ == v@.subrange(from as int, to as int),
{
    let mut out: Vec<char> = Vec::new();
    let mut i: usize = from;
    while i < to
        invariant
            from <= i <= to <= v@.len(),
            out@ == v@.subrange(from as int, i as int),
        decreases to - i,
    {
        out.push(v[i]);
        i += 1;
        assert(out@ =~= v@.subrange(from as int, i as int));
    }
    out
}

pub(crate) fn before_char_vec(v: &Vec<char>, c: char) -> (r: Vec<char>)
    ensures
        r@ == before_char(v@, c),
{
    let n = v.len();
    let mut i: usize = 0;
    assert(v@.subrange(0, n as int) =~= v@);
    while i < n && v[i] != c
        invariant
            n == v@.len(),
            i <= n,
            forall|k: int| 0 <= k < i ==> v@[k] != c,
            before_char(v@, c) == v@.subrange(0, i as int) + before_char(v@.subrange(i as int, n as int), c),
        decreases n - i,
    {
        proof {
            let cur = v@.subrange(i as int, n as int);
            assert(cur.drop_first() =~= v@.subrange(i + 1, n as int));
            assert(v@.subrange(0, i + 1) =~= v@.subrange(0, i as int) + seq![v@[i as int]]);
        }
        i += 1;
    }
    assert(before_char(v@.subrange(i as int, n as int), c) =~= Seq::<char>::empty());
    assert(v@.subrange(0, i as int) + Seq::<char>::empty() =~= v@.subrange(0, i as int));
    copy_range(v, 0, i)
}

/// A name suggested for a start URL, as in `https://acme.awsapps.com/start`
/// giving `acme`.
pub fn guess_account_name(start_url: &str) -> (r: String)
    ensures
        r@ == guessed_name_of(start_url@),
{
    let t = chars_of(trim(start_url));
    let https = chars_of("https://");
    let http = chars_of("http://");
    let rest = strip_all_prefix_vec(&strip_all_prefix_vec(&t, &https), &http);
    let host = before_char_vec(&rest, '/');
    let label = before_char_vec(&host, '.');
    let mut slug: Vec<char> = Vec::new();
    let mut i: usize = 0;
    while i < label.len()
        invariant
            i <= label@.len(),
            slug@ == label@.subrange(0, i as int).map_values(|c: char| slug_char(c)),
        decreases label@.len() - i,
    {
        let ch = label[i];
        if is_ascii_alphanumeric(ch) || ch == '-' {
            slug.push(ch);
        } else {
            slug.push('-');
        }
        i += 1;
        assert(slug@ =~= label@.subrange(0, i as int).map_values(|c: char| slug_char(c)));
    }
    assert(label@.subrange(0, label@.len() as int) =~= label@);
    let out = trim_matches_char(&slug, '-');
    string_from_chars(&out)
}

/// The precedence of an account: that of the last rule for it that sets one,
/// else zero.
pub open spec fn precedence_of(rules: Seq<AccountRule>, id: Seq<char>) -> int
    decreases rules.len(),
{
    if rules.len() == 0 {
        0
    } else if rules.last().account_id@ == id && rules.last().precedence is Some {
        rules.last().precedence->0 as int
    } else {
        precedence_of(rules.drop_last(), id)
    }
}

/// Choices are ordered by descending precedence, then by account name and
/// role name, case-folded.
pub open spec fn choice_key(c: RoleChoice, rules: Seq<AccountRule>) -> (int, Seq<char>, Seq<char>) {
    (-precedence_of(rules, c.account_id@), lower_of(c.account_name@), lower_of(c.role_name@))
}

fn precedence_for(rules: &Vec<AccountRule>, id: &String) -> (r: i32)
    ensures
        r as int == precedence_of(rules@, id@),
{
    let mut found: i32 = 0;
    let mut i: usize = 0;
    while i < rules.len()
        invariant
            i <= rules@.len(),
            found as int == precedence_of(rules@.subrange(0, i as int), id@),
        decreases rules@.len() - i,
    {
        assert(rules@.subrange(0, i + 1).drop_last() =~= rules@.subrange(0, i as int));
        let rule = &rules[i];
        if rule.account_id == *id {
            match rule.precedence {
                Some(p) => {
                    found = p;
                },
                None => {},
            }
        }
        i += 1;
    }
    assert(rules@.subrange(0, rules@.len() as int) =~= rules@);
    found
}

/// `out[i]` is `inp[p[i]]`, and choices with equal keys keep the order they
/// had in `inp`.
pub open spec fn stable_positions(out: Seq<RoleChoice>, inp: Seq<RoleChoice>, rules: Seq<AccountRule>, p: Seq<int>) -> bool {
    &&& p.len() == out.len()
    &&& forall|i: int| 0 <= i < out.len() ==> 0 <= #[trigger] p[i] < inp.len() && out[i] == inp[p[i]]
    &&& forall|i: int, j: int|
        0 <= i < j < out.len() && same_key(choice_key(#[trigger] out[i], rules), choice_key(#[trigger] out[j], rules))
            ==> p[i] <= p[j]
}

/// Orders the choices by descending account precedence, then by account name
/// and role name, compared case-insensitively; equal choices keep their order.
pub fn sort_choices(choices: &mut Vec<RoleChoice>, identity: &SsoIdentity)
    ensures
        final(choices)@.to_multiset() == old(choices)@.to_multiset(),
        forall|i: int, j: int|
            0 <= i < j < final(choices)@.len() ==> key_view_le(
                choice_key(#[trigger] final(choices)@[i], identity.accounts@),
                choice_key(#[trigger] final(choices)@[j], identity.accounts@),
            ),
        exists|p: Seq<int>| #[trigger] stable_positions(final(choices)@, old(choices)@, identity.accounts@, p),
{
    let mut src: Vec<RoleChoice> = Vec::new();
    std::mem::swap(choices, &mut src);
    let ghost orig = src@;
    let ghost rules = identity.accounts@;
    let mut pairs: Vec<(SortKey, RoleChoice)> = Vec::new();
    let mut taken: usize = 0;
    let total = src.len();
    while src.len() > 0
        invariant
            total == orig.len(),
            taken + src@.len() == orig.len(),
            src@ == orig.subrange(taken as int, orig.len() as int),
            items_of(pairs@) == orig.subrange(0, taken as int),
            rules == identity.accounts@,
            forall|k: int| 0 <= k < pairs@.len() ==> (#[trigger] pairs@[k]).0@ == choice_key(pairs@[k].1, rules)
                && pairs@[k].0.position == k && pairs@[k].1 == orig[k],
        decreases src@.len(),
    {
        let ghost prev = pairs@;
        let c = src.remove(0);
        assert(c == orig[taken as int]);
        let p = precedence_for(&identity.accounts, &c.account_id);
        let key = SortKey {
            rank: -(p as i128),
            primary: lowercase(c.account_name.as_str()),
            secondary: lowercase(c.role_name.as_str()),
            position: taken,
        };
        pairs.push((key, c));
        assert(items_of(pairs@) =~= items_of(prev).push(pairs@.last().1));
        taken += 1;
        assert(items_of(pairs@) =~= orig.subrange(0, taken as int));
    }
    assert(orig.subrange(0, orig.len() as int) =~= orig);
    let ghost unsorted = pairs@;
    let mut sorted = sort_by_key(pairs);
    let ghost sorted_all = sorted@;
    proof {
        assert forall|k: int| 0 <= k < sorted_all.len() implies (#[trigger] sorted_all[k]).0@ == choice_key(sorted_all[k].1, rules)
            && 0 <= sorted_all[k].0.position < orig.len() && sorted_all[k].1 == orig[sorted_all[k].0.position as int] by {
            to_multiset_contains(sorted_all, sorted_all[k]);
            to_multiset_contains(unsorted, sorted_all[k]);
            assert(sorted_all.to_multiset().count(sorted_all[k]) > 0);
            let m = choose|m: int| 0 <= m < unsorted.len() && unsorted[m] == sorted_all[k];
        }
    }
    let mut t: usize = 0;
    let n = sorted.len();
    while sorted.len() > 0
        invariant
            n == sorted_all.len(),
            t + sorted@.len() == n,
            sorted@ == sorted_all.subrange(t as int, n as int),
            choices@ == items_of(sorted_all.subrange(0, t as int)),
        decreases sorted@.len(),
    {
        let pair = sorted.remove(0);
        choices.push(pair.1);
        t += 1;
        assert(choices@ =~= items_of(sorted_all.subrange(0, t as int)));
    }
    assert(sorted_all.subrange(0, n as int) =~= sorted_all);
    proof {
        assert forall|i: int, j: int| 0 <= i < j < choices@.len() implies key_view_le(
            choice_key(#[trigger] choices@[i], identity.accounts@),
            choice_key(#[trigger] choices@[j], identity.accounts@),
        ) by {
            assert(choices@[i] == sorted_all[i].1);
            assert(choices@[j] == sorted_all[j].1);
            assert(crate::ordering::key_le(sorted_all[i].0, sorted_all[j].0));
        }
        let p = sorted_all.map_values(|x: (SortKey, RoleChoice)| x.0.position as int);
        assert forall|i: int| 0 <= i < choices@.len() implies 0 <= #[trigger] p[i] < orig.len() && choices@[i] == orig[p[i]] by {
            assert(choices@[i] == sorted_all[i].1);
        }
        assert forall|i: int, j: int|
            0 <= i < j < choices@.len() && same_key(choice_key(#[trigger] choices@[i], rules), choice_key(#[trigger] choices@[j], rules))
                implies p[i] <= p[j] by {
            assert(choices@[i] == sorted_all[i].1);
            assert(choices@[j] == sorted_all[j].1);
            assert(crate::ordering::key_le(sorted_all[i].0, sorted_all[j].0));
        }
        assert(stable_positions(choices@, orig, rules, p));
    }
}

/// `s` is one of the strings of `list`.
pub open spec fn list_has(list: Seq<String>, s: Seq<char>) -> bool {
    exists|j: int| 0 <= j < list.len() && (#[trigger] list[j])@ == s
}

/// The first rule for account `id`.
pub open spec fn first_rule(rules: Seq<AccountRule>, id: Seq<char>) -> Option<AccountRule>
    decreases rules.len(),
{
    if rules.len() == 0 {
        None
    } else if rules[0].account_id@ == id {
        Some(rules[0])
    } else {
        first_rule(rules.drop_first(), id)
    }
}

/// A rule renames its account when its alias is not blank.
pub open spec fn alias_applies(rule: AccountRule) -> bool {
    rule.alias is Some && trimmed_of(rule.alias->0@).len() > 0
}

/// What becomes of one choice under an identity's rules: dropped (`None`) when
/// its role is ignored for the identity or for its account, or its account is
/// ignored; else kept, under the account's alias where one applies.
pub open spec fn filtered_choice(c: RoleChoice, identity: SsoIdentity) -> Option<
    (Seq<char>, Seq<char>, Seq<char>),
> {
    if list_has(identity.ignore_roles@, c.role_name@) {
        None
    } else {
        match first_rule(identity.accounts@, c.account_id@) {
            None => Some(c@),
            Some(rule) => if rule.ignored || list_has(rule.ignored_roles@, c.role_name@) {
                None
            } else if alias_applies(rule) {
                Some((c.account_id@, rule.alias->0@, c.role_name@))
            } else {
                Some(c@)
            },
        }
    }
}

/// The views of the choices that the rules keep, in their order.
pub open spec fn filtered_choices(s: Seq<RoleChoice>, identity: SsoIdentity) -> Seq<
    (Seq<char>, Seq<char>, Seq<char>),
>
    decreases s.len(),
{
    if s.len() == 0 {
        Seq::empty()
    } else {
        let front = filtered_choices(s.drop_last(), identity);
        match filtered_choice(s.last(), identity) {
            Some(v) => front.push(v),
            None => front,
        }
    }
}

pub open spec fn views_of(s: Seq<RoleChoice>) -> Seq<(Seq<char>, Seq<char>, Seq<char>)> {
    s.map_values(|c: RoleChoice| c@)
}

fn list_contains(list: &Vec<String>, s: &String) -> (r: bool)
    ensures
        r == list_has(list@, s@),
{
    let mut j: usize = 0;
    while j < list.len()
        invariant
            j <= list@.len(),
            forall|k: int| 0 <= k < j ==> (#[trigger] list@[k])@ != s@,
        decreases list@.len() - j,
    {
        if list[j] == *s {
            return true;
        }
        j += 1;
    }
    false
}

fn find_rule(rules: &Vec<AccountRule>, id: &String) -> (r: Option<usize>)
    ensures
        match r {
            Some(i) => i < rules@.len() && first_rule(rules@, id@) == Some(rules@[i as int]),
            None => first_rule(rules@, id@) is None,
        },
{
    let n = rules.len();
    let mut i: usize = 0;
    assert(rules@.subrange(0, n as int) =~= rules@);
    while i < n
        invariant
            n == rules@.len(),
            i <= n,
            first_rule(rules@, id@) == first_rule(rules@.subrange(i as int, n as int), id@),
        decreases n - i,
    {
        if rules[i].account_id == *id {
            return Some(i);
        }
        assert(rules@.subrange(i as int, n as int).drop_first() =~= rules@.subrange(i + 1, n as int));
        i += 1;
    }
    None
}

fn filter_one(c: RoleChoice, identity: &SsoIdentity) -> (r: Option<RoleChoice>)
    ensures
        match r {
            Some(k) => filtered_choice(c, *identity) == Some(k@),
            None => filtered_choice(c, *identity) is None,
        },
{
    if list_contains(&identity.ignore_roles, &c.role_name) {
        return None;
    }
    match find_rule(&identity.accounts, &c.account_id) {
        None => Some(c),
        Some(i) => {
            let rule = &identity.accounts[i];
            if rule.ignored || list_contains(&rule.ignored_roles, &c.role_name) {
                return None;
            }
            match &rule.alias {
                Some(alias) => {
                    if trim(alias.as_str()).unicode_len() > 0 {
                        Some(
                            RoleChoice {
                                account_id: c.account_id,
                                account_name: alias.clone(),
                                role_name: c.role_name,
                            },
                        )
                    } else {
                        Some(c)
                    }
                },
                None => Some(c),
            }
        },
    }
}

/// Applies the identity's rules: drops ignored roles and accounts, and shows
/// aliased accounts under their alias.
pub fn apply_account_filters(choices: &mut Vec<RoleChoice>, identity: &SsoIdentity)
    ensures
        views_of(final(choices)@) == filtered_choices(old(choices)@, *identity),
{
    let mut src: Vec<RoleChoice> = Vec::new();
    std::mem::swap(choices, &mut src);
    let ghost orig = src@;
    let mut taken: usize = 0;
    let total = src.len();
    assert(views_of(choices@) =~= filtered_choices(orig.subrange(0, 0), *identity));
    while src.len() > 0
        invariant
            total == orig.len(),
            taken + src@.len() == orig.len(),
            src@ == orig.subrange(taken as int, orig.len() as int),
            views_of(choices@) == filtered_choices(orig.subrange(0, taken as int), *identity),
        decreases src@.len(),
    {
        let c = src.remove(0);
        assert(c == orig[taken as int]);
        assert(orig.subrange(0, taken + 1).drop_last() =~= orig.subrange(0, taken as int));
        let ghost prev = choices@;
        match filter_one(c, identity) {
            Some(k) => {
                choices.push(k);
                assert(views_of(choices@) =~= views_of(prev).push(k@));
            },
            None => {},
        }
        taken += 1;
    }
    assert(orig.subrange(0, orig.len() as int) =~= orig);
}

/// `text` percent-encoded for a URL query: every byte but ASCII letters,
/// digits and `-`, `_`, `.`, `~` becomes `%XX`.
pub uninterp spec fn percent_encoded_of(text: Seq<char>) -> Seq<char>;

/// Relies on `urlencoding::encode`: percent-encodes the UTF-8 bytes of `s`.
#[verifier::external_body]
fn url_encode(s: &str) -> (r: String)
    ensures
        r@ == percent_encoded_of(s@),
{
    urlencoding::encode(s).into_owned()
}

/// The console sign-in URL of a role: the start URL without trailing slashes,
/// then `/#/console?account_id=<id>&role_name=<encoded role>`.
pub fn console_url(start_url: &str, account_id: &str, role_name: &str) -> (r: String)
    ensures
        r@ == crate::text::trim_end_char(start_url@, '/') + "/#/console?account_id="@ + account_id@
            + "&role_name="@ + percent_encoded_of(role_name@),
{
    let v = chars_of(start_url);
    let mut end: usize = v.len();
    assert(v@.subrange(0, end as int) =~= v@);
    while end > 0 && v[end - 1] == '/'
        invariant
            end <= v@.len(),
            v@ == start_url@,
            crate::text::trim_end_char(start_url@, '/') == crate::text::trim_end_char(
                v@.subrange(0, end as int),
                '/',
            ),
        decreases end,
    {
        assert(v@.subrange(0, end as int).drop_last() =~= v@.subrange(0, end - 1));
        end -= 1;
    }
    let base = copy_range(&v, 0, end);
    let mut s = string_from_chars(&base);
    s.append("/#/console?account_id=");
    s.append(account_id);
    s.append("&role_name=");
    let role = url_encode(role_name);
    s.append(role.as_str());
    s
}

} // verus!
