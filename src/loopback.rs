//! Recognising the loopback redirect URLs of a browser sign-in.

use vstd::prelude::*;

use crate::selection::{before_char, before_char_vec, copy_range};
use crate::text::{chars_of, matches_at, occurs_at, string_from_chars, trim, trimmed_of};
use crate::timestamps::opt_text;

verus! {

/// `k` is the first position of `p` in `s`.
pub open spec fn first_at(s: Seq<char>, p: Seq<char>, k: int) -> bool {
    occurs_at(s, p, k) && forall|j: int| 0 <= j < k ==> !occurs_at(s, p, j)
}

/// The part of `s` after its last `c`, or all of `s`.
pub open spec fn after_last(s: Seq<char>, c: char) -> Seq<char>
    decreases s.len(),
{
    if s.len() == 0 {
        s
    } else if s.last() == c {
        Seq::empty()
    } else {
        after_last(s.drop_last(), c).push(s.last())
    }
}

/// The host of an authority: inside the brackets of an IPv6 literal (none
/// when the closing bracket is missing), else before the port.
pub open spec fn host_of(authority: Seq<char>) -> Option<Seq<char>> {
    if authority.len() > 0 && authority[0] == '[' {
        let rest = authority.drop_first();
        if rest.contains(']') {
            Some(before_char(rest, ']'))
        } else {
            None
        }
    } else {
        Some(before_char(authority, ':'))
    }
}

/// The host of a URL: found after the first `://` of the trimmed text.
pub open spec fn url_host_of(url: Seq<char>) -> Option<Seq<char>> {
    let t = trimmed_of(url);
    if exists|k: int| first_at(t, "://"@, k) {
        let k = choose|k: int| first_at(t, "://"@, k);
        host_after_scheme(t.subrange(k + 3, t.len() as int))
    } else {
        None
    }
}

/// The host of a URL given everything after its first `://`.
pub open spec fn host_after_scheme(rest: Seq<char>) -> Option<Seq<char>> {
    host_of(after_last(before_char(rest, '/'), '@'))
}



fn after_last_vec(v: &Vec<char>, c: char) -> (r: Vec<char>)
    ensures
        r@ == after_last(v@, c),
{
    let n = v.len();
    let mut start: usize = n;
    assert(v@.subrange(start as int, n as int) =~= Seq::<char>::empty());
    assert(v@.subrange(0, n as int) =~= v@);
    assert(after_last(v@, c) + Seq::<char>::empty() =~= after_last(v@, c));
    while start > 0 && v[start - 1] != c
        invariant
            n == v@.len(),
            start <= n,
            after_last(v@, c) == after_last(v@.subrange(0, start as int), c) + v@.subrange(start as int, n as int),
        decreases start,
    {
        proof {
            let pre = v@.subrange(0, start as int);
            assert(pre.drop_last() =~= v@.subrange(0, start - 1));
            assert(v@.subrange(start - 1, n as int) =~= seq![v@[start - 1]] + v@.subrange(start as int, n as int));
            assert(after_last(pre.drop_last(), c).push(pre.last()) + v@.subrange(start as int, n as int)
                =~= after_last(pre.drop_last(), c) + v@.subrange(start - 1, n as int));
        }
        start -= 1;
    }
    proof {
        let pre = v@.subrange(0, start as int);
        assert(after_last(pre, c) =~= Seq::<char>::empty());
        assert(Seq::<char>::empty() + v@.subrange(start as int, n as int) =~= v@.subrange(start as int, n as int));
    }
    copy_range(v, start, v.len())
}

/// The host of a URL, as in `http://127.0.0.1:52391/callback` giving
/// `127.0.0.1`; `None` without a `://`.
pub fn url_host(url: &str) -> (r: Option<String>)
    ensures
        opt_text(r) == url_host_of(url@),
{
    let t = chars_of(trim(url));
    let sep = chars_of("://");
    proof {
        reveal_strlit("://");
    }
    let n = t.len();
    let mut k: usize = 0;
    let mut found = false;
    while !found && n >= 3 && k <= n - 3
        invariant
            t@ == trimmed_of(url@),
            sep@ == "://"@,
            sep@.len() == 3,
            n == t@.len(),
            !found ==> forall|j: int| 0 <= j < k ==> !occurs_at(t@, sep@, j),
            found ==> first_at(t@, sep@, k as int) && k + 3 <= n,
        decreases n - k + (if found { 0int } else { 1int }),
    {
        if matches_at(&t, &sep, k) {
            found = true;
        } else {
            k += 1;
        }
    }
    if !found {
        assert forall|j: int| !first_at(t@, sep@, j) by {
            if 0 <= j && j + 3 <= n {
                assert(j < k);
            }
        }
        return None;
    }
    proof {
        let k2 = choose|k2: int| first_at(t@, sep@, k2);
        assert(first_at(t@, sep@, k as int));
        if k2 < k {
        } else if k2 > k {
            assert(!occurs_at(t@, sep@, k as int));
        }
        assert(k2 == k);
        assert(t@.subrange(k + 3, n as int) == t@.subrange(k + 3, t@.len() as int));
    }
    let rest = copy_range(&t, k + 3, n);
    let authority = after_last_vec(&before_char_vec(&rest, '/'), '@');
    if authority.len() > 0 && authority[0] == '[' {
        let stripped = copy_range(&authority, 1, authority.len());
        assert(stripped@ =~= authority@.drop_first());
        let mut j: usize = 0;
        while j < stripped.len() && stripped[j] != ']'
            invariant
                j <= stripped@.len(),
                forall|m: int| 0 <= m < j ==> stripped@[m] != ']',
            decreases stripped@.len() - j,
        {
            j += 1;
        }
        if j == stripped.len() {
            assert(!stripped@.contains(']'));
            return None;
        }
        assert(stripped@.contains(']')) by {
            assert(stripped@[j as int] == ']');
        }
        let host = before_char_vec(&stripped, ']');
        Some(string_from_chars(&host))
    } else {
        let host = before_char_vec(&authority, ':');
        Some(string_from_chars(&host))
    }
}

/// The code of a character, with ASCII capitals mapped to small letters.
pub open spec fn ascii_lower(c: char) -> u32 {
    if 'A' <= c && c <= 'Z' {
        (c as u32 + 32) as u32
    } else {
        c as u32
    }
}

/// Equal but for the case of ASCII letters.
pub open spec fn eq_ignore_ascii_case(a: Seq<char>, b: Seq<char>) -> bool {
    a.len() == b.len() && forall|i: int| 0 <= i < a.len() ==> ascii_lower(#[trigger] a[i]) == ascii_lower(b[i])
}

fn lower_ascii(c: char) -> (r: u32)
    ensures
        r == ascii_lower(c),
{
    if 'A' <= c && c <= 'Z' {
        (c as u32) + 32
    } else {
        c as u32
    }
}

fn same_ignoring_ascii_case(a: &Vec<char>, b: &Vec<char>) -> (r: bool)
    ensures
        r == eq_ignore_ascii_case(a@, b@),
{
    if a.len() != b.len() {
        return false;
    }
    let mut i: usize = 0;
    while i < a.len()
        invariant
            a@.len() == b@.len(),
            i <= a@.len(),
            forall|m: int| 0 <= m < i ==> ascii_lower(#[trigger] a@[m]) == ascii_lower(b@[m]),
        decreases a@.len() - i,
    {
        if lower_ascii(a[i]) != lower_ascii(b[i]) {
            return false;
        }
        i += 1;
    }
    true
}

/// A loopback host: `localhost` in any case, `127.0.0.1` or `::1`.
pub open spec fn loopback_host(h: Seq<char>) -> bool {
    eq_ignore_ascii_case(h, "localhost"@) || h == "127.0.0.1"@ || h == "::1"@
}

/// Whether a URL points at this machine, as the redirect of a sign-in does.
pub fn is_loopback_auth_url(url: &str) -> (r: bool)
    ensures
        r == (url_host_of(url@) is Some && loopback_host(url_host_of(url@)->0)),
{
    match url_host(url) {
        None => false,
        Some(host) => {
            let h = chars_of(host.as_str());
            let local = chars_of("localhost");
            same_ignoring_ascii_case(&h, &local) || host == String::from_str(
                "127.0.0.1",
            ) || host == String::from_str("::1")
        },
    }
}

} // verus!
