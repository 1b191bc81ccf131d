//! The OAuth access-token cache: choosing the freshest valid entry for a start
//! URL among the token files of both cache directories.

use vstd::prelude::*;

use crate::digest::{cache_file_name, cache_file_name_for};
use crate::error::Error;
use crate::model::CacheEntry;
use crate::text::{compact_duration, compact_duration_of};
use crate::timestamps::{parse_rfc3339, rfc3339_seconds};

verus! {

/// A token file as decoded: each member is `None` where it is missing or is
/// not a string.
#[derive(Debug, Clone)]
pub struct TokenFile {
    pub start_url: Option<String>,
    pub region: Option<String>,
    pub access_token: Option<String>,
    pub expires_at: Option<String>,
}

pub open spec fn text_or_empty(o: Option<String>) -> Seq<char> {
    match o {
        Some(s) => s@,
        None => Seq::empty(),
    }
}

/// The entry a token file holds for `start_url`: the file's start URL (empty
/// where missing) equals it, and token, region and expiry are all present.
pub open spec fn token_entry_of(f: TokenFile, start_url: Seq<char>) -> Option<
    (Seq<char>, Seq<char>, Seq<char>),
> {
    if text_or_empty(f.start_url) == start_url && f.access_token is Some && f.region is Some
        && f.expires_at is Some {
        Some((f.access_token->0@, f.expires_at->0@, f.region->0@))
    } else {
        None
    }
}

/// The expiry of an entry in Unix seconds, where its text parses.
pub open spec fn expiry_of(e: (Seq<char>, Seq<char>, Seq<char>)) -> Option<int> {
    rfc3339_seconds(e.1)
}

/// An entry is valid at `now` while its expiry lies strictly after `now`.
pub open spec fn token_valid(e: (Seq<char>, Seq<char>, Seq<char>), now: u64) -> bool {
    expiry_of(e) matches Some(t) && t > now
}

/// File `i` of `files` holds a valid entry for `start_url`.
pub open spec fn valid_at(files: Seq<TokenFile>, start_url: Seq<char>, now: u64, i: int) -> bool {
    &&& 0 <= i < files.len()
    &&& token_entry_of(files[i], start_url) is Some
    &&& token_valid(token_entry_of(files[i], start_url)->0, now)
}

/// Entry `i` is valid, no valid entry expires later, and every valid entry
/// before it expires earlier: the first valid entry with the greatest expiry.
pub open spec fn best_at(files: Seq<TokenFile>, start_url: Seq<char>, now: u64, i: int) -> bool {
    &&& valid_at(files, start_url, now, i)
    &&& forall|j: int|
        valid_at(files, start_url, now, j) ==> expiry_of(token_entry_of(files[j], start_url)->0)->0
            <= expiry_of(token_entry_of(files[i], start_url)->0)->0
    &&& forall|j: int|
        0 <= j < i && valid_at(files, start_url, now, j) ==> expiry_of(
            token_entry_of(files[j], start_url)->0,
        )->0 < expiry_of(token_entry_of(files[i], start_url)->0)->0
}

/// What `load_valid_cache` returns: the first valid entry with the greatest
/// expiry, or `MissingCache` when there is no valid entry.
pub open spec fn load_valid_result(
    files: Seq<TokenFile>,
    start_url: Seq<char>,
    now: u64,
    r: Result<CacheEntry, Error>,
) -> bool {
    match r {
        Ok(e) => exists|i: int|
            #[trigger] best_at(files, start_url, now, i) && token_entry_of(files[i], start_url) == Some(e@),
        Err(err) => err is MissingCache && forall|j: int| !valid_at(files, start_url, now, j),
    }
}

/// The name of this tool's token file for `start_url`.
pub fn token_cache_filename(start_url: &str) -> (r: String)
    ensures
        r@ == cache_file_name("roleman-"@, start_url@),
{
    cache_file_name_for("roleman-", start_url)
}

/// The entry a token file holds for `start_url`, if any.
pub fn entry_from_file(f: &TokenFile, start_url: &str) -> (r: Option<CacheEntry>)
    ensures
        r matches Some(e) ==> token_entry_of(*f, start_url@) == Some(e@),
        r is None ==> token_entry_of(*f, start_url@) is None,
{
    let wanted = String::from_str(start_url);
    let matches = match &f.start_url {
        Some(u) => *u == wanted,
        None => start_url.unicode_len() == 0,
    };
    assert(matches == (text_or_empty(f.start_url) == start_url@)) by {
        if f.start_url is None && start_url@.len() == 0 {
            assert(start_url@ =~= Seq::<char>::empty());
        }
    }
    if !matches {
        return None;
    }
    match (&f.access_token, &f.region, &f.expires_at) {
        (Some(token), Some(region), Some(expires_at)) => Some(
            CacheEntry {
                access_token: token.clone(),
                expires_at: expires_at.clone(),
                region: region.clone(),
            },
        ),
        _ => None,
    }
}

/// The file to write for a freshly issued token.
pub fn token_file_for(start_url: &str, entry: &CacheEntry) -> (r: TokenFile)
    ensures
        r.start_url matches Some(u) && u@ == start_url@,
        r.region matches Some(g) && g@ == entry.region@,
        r.access_token matches Some(a) && a@ == entry.access_token@,
        r.expires_at matches Some(x) && x@ == entry.expires_at@,
        token_entry_of(r, start_url@) == Some(entry@),
{
    TokenFile {
        start_url: Some(String::from_str(start_url)),
        region: Some(entry.region.clone()),
        access_token: Some(entry.access_token.clone()),
        expires_at: Some(entry.expires_at.clone()),
    }
}

/// The expiry of a valid entry, or `None` where it is expired or unparsable.
fn valid_expiry(e: &CacheEntry, now: u64) -> (r: Option<i64>)
    ensures
        r matches Some(t) ==> token_valid(e@, now) && expiry_of(e@) == Some(t as int),
        r is None ==> !token_valid(e@, now),
{
    match parse_rfc3339(e.expires_at.as_str()) {
        Some(t) => {
            if t > 0 && t as u64 > now {
                Some(t)
            } else {
                None
            }
        },
        None => None,
    }
}

/// The best valid entry of `s` so far is `best`, found in file `bi`; `None`
/// while `s` holds no valid entry.
pub open spec fn best_so_far(
    s: Seq<TokenFile>,
    start_url: Seq<char>,
    now: u64,
    best: Option<(CacheEntry, i64)>,
    bi: int,
) -> bool {
    match best {
        None => forall|j: int| 0 <= j < s.len() ==> !valid_at(s, start_url, now, j),
        Some(b) => {
            &&& best_at(s, start_url, now, bi)
            &&& token_entry_of(s[bi], start_url) == Some(b.0@)
            &&& expiry_of(b.0@) == Some(b.1 as int)
        },
    }
}

/// Continues the search for the best entry over `files`, which follow the
/// files `before` already searched.
fn scan_files(
    files: &Vec<TokenFile>,
    before: Ghost<Seq<TokenFile>>,
    start_url: &str,
    now: u64,
    best: Option<(CacheEntry, i64)>,
    bi: Ghost<int>,
) -> (r: (Option<(CacheEntry, i64)>, Ghost<int>))
    requires
        best_so_far(before@, start_url@, now, best, bi@),
    ensures
        best_so_far(before@ + files@, start_url@, now, r.0, r.1@),
{
    let mut best = best;
    let ghost mut best_i: int = bi@;
    let mut i: usize = 0;
    assert(before@ + files@.subrange(0, 0) =~= before@);
    while i < files.len()
        invariant
            i <= files@.len(),
            best_so_far(before@ + files@.subrange(0, i as int), start_url@, now, best, best_i),
        decreases files@.len() - i,
    {
        let ghost s0 = before@ + files@.subrange(0, i as int);
        let ghost s1 = before@ + files@.subrange(0, i + 1);
        assert(s1 =~= s0.push(files@[i as int]));
        assert forall|j: int| 0 <= j < s0.len() implies valid_at(s1, start_url@, now, j) == valid_at(s0, start_url@, now, j)
            && s1[j] == s0[j] by {}
        let ghost k = s0.len() as int;
        assert(s1[k] == files@[i as int]);
        match entry_from_file(&files[i], start_url) {
            Some(e) => {
                match valid_expiry(&e, now) {
                    Some(t) => {
                        let better = match &best {
                            Some(b) => t > b.1,
                            None => true,
                        };
                        if better {
                            best = Some((e, t));
                            proof {
                                best_i = k;
                            }
                        }
                    },
                    None => {},
                }
            },
            None => {},
        }
        i += 1;
        proof {
            if best is Some {
                {
                    assert(valid_at(s1, start_url@, now, best_i));
                    assert forall|j: int| valid_at(s1, start_url@, now, j) implies expiry_of(
                        token_entry_of(s1[j], start_url@)->0,
                    )->0 <= expiry_of(token_entry_of(s1[best_i], start_url@)->0)->0 by {
                        if j < k {
                            assert(valid_at(s0, start_url@, now, j));
                        }
                    }
                    assert forall|j: int| 0 <= j < best_i && valid_at(s1, start_url@, now, j) implies expiry_of(
                        token_entry_of(s1[j], start_url@)->0,
                    )->0 < expiry_of(token_entry_of(s1[best_i], start_url@)->0)->0 by {
                        assert(valid_at(s0, start_url@, now, j));
                    }
                }
            }
        }
    }
    assert(files@.subrange(0, files@.len() as int) =~= files@);
    (best, Ghost(best_i))
}

/// The valid entry for `start_url` with the greatest expiry among the decoded
/// token files of the provider's directory and of this tool's directory, or
/// `MissingCache` when none is valid at `now`. This tool's files rank first,
/// so on equal expiry its own token wins.
pub fn load_valid_cache(
    provider_files: &Vec<TokenFile>,
    tool_files: &Vec<TokenFile>,
    start_url: &str,
    now: u64,
) -> (r: Result<CacheEntry, Error>)
    ensures
        load_valid_result(tool_files@ + provider_files@, start_url@, now, r),
{
    let (first, g1) = scan_files(tool_files, Ghost(Seq::empty()), start_url, now, None, Ghost(-1));
    assert(Seq::<TokenFile>::empty() + tool_files@ =~= tool_files@);
    let (best, g2) = scan_files(provider_files, Ghost(tool_files@), start_url, now, first, g1);
    match best {
        Some(b) => Ok(b.0),
        None => Err(Error::MissingCache),
    }
}

/// The Unix time of an RFC 3339 expiry text; an unparsable text is an error
/// naming it.
pub fn aws_time_to_epoch(expires_at: &str) -> (r: Result<u64, Error>)
    ensures
        match rfc3339_seconds(expires_at@) {
            Some(t) => r == Ok::<u64, Error>(t as u64),
            None => r matches Err(Error::CacheParse { path }) && path@ == expires_at@,
        },
{
    match parse_rfc3339(expires_at) {
        Some(t) => Ok(t as u64),
        None => Err(Error::CacheParse { path: String::from_str(expires_at) }),
    }
}

/// Whether the expiry text lies at or before `now`; an unparsable text is an
/// error naming it.
pub fn is_expired(expires_at: &str, now: u64) -> (r: Result<bool, Error>)
    ensures
        match rfc3339_seconds(expires_at@) {
            Some(t) => r == Ok::<bool, Error>(now >= t),
            None => r matches Err(Error::CacheParse { path }) && path@ == expires_at@,
        },
{
    match parse_rfc3339(expires_at) {
        Some(t) => Ok(t <= 0 || now >= t as u64),
        None => Err(Error::CacheParse { path: String::from_str(expires_at) }),
    }
}

/// Seconds left until the expiry text, zero once it has passed; an
/// unparsable text is an error naming it.
pub fn time_until_expiry(expires_at: &str, now: u64) -> (r: Result<u64, Error>)
    ensures
        match rfc3339_seconds(expires_at@) {
            Some(t) => r matches Ok(left) && left == (if t > now { t - now } else { 0 }),
            None => r matches Err(Error::CacheParse { path }) && path@ == expires_at@,
        },
{
    match parse_rfc3339(expires_at) {
        Some(t) => {
            if t > 0 && t as u64 > now {
                Ok(t as u64 - now)
            } else {
                Ok(0)
            }
        },
        None => Err(Error::CacheParse { path: String::from_str(expires_at) }),
    }
}

/// A remaining validity as the operator reads it.
pub fn format_duration(total_secs: u64) -> (r: String)
    ensures
        r@ == compact_duration_of(total_secs as nat),
{
    compact_duration(total_secs)
}

/// Of two valid entries for the same start URL, the one that expires later
/// is returned.
pub proof fn lemma_token_freshness(
    files: Seq<TokenFile>,
    start_url: Seq<char>,
    now: u64,
    r: Result<CacheEntry, Error>,
)
    requires
        files.len() == 2,
        valid_at(files, start_url, now, 0),
        valid_at(files, start_url, now, 1),
        expiry_of(token_entry_of(files[0], start_url)->0)->0 < expiry_of(
            token_entry_of(files[1], start_url)->0,
        )->0,
        load_valid_result(files, start_url, now, r),
    ensures
        r matches Ok(e) && Some(e@) == token_entry_of(files[1], start_url),
{
    if r is Err {
        assert(!valid_at(files, start_url, now, 0));
    }
}

/// An entry that expires at or before `now` is never returned, and where it is
/// the only entry the result is `MissingCache`.
pub proof fn lemma_expired_excluded(
    files: Seq<TokenFile>,
    start_url: Seq<char>,
    now: u64,
    r: Result<CacheEntry, Error>,
)
    requires
        load_valid_result(files, start_url, now, r),
    ensures
        r matches Ok(e) ==> token_valid(e@, now),
        files.len() == 1 && !valid_at(files, start_url, now, 0) ==> r matches Err(
            Error::MissingCache,
        ),
{
    if files.len() == 1 && !valid_at(files, start_url, now, 0) {
        if r is Ok {
            let i = choose|i: int|
                best_at(files, start_url, now, i) && token_entry_of(files[i], start_url) == Some(
                    r->Ok_0@,
                );
            assert(i == 0);
        }
    }
}

/// Files that hold no usable entry (members missing or not strings, another
/// start URL, an unparsable expiry) are treated as absent: with only such
/// files the result is `MissingCache`.
pub proof fn lemma_malformed_ignored(
    files: Seq<TokenFile>,
    start_url: Seq<char>,
    now: u64,
    r: Result<CacheEntry, Error>,
)
    requires
        forall|i: int|
            0 <= i < files.len() ==> (#[trigger] token_entry_of(files[i], start_url)) is None
                || expiry_of(token_entry_of(files[i], start_url)->0) is None,
        load_valid_result(files, start_url, now, r),
    ensures
        r matches Err(Error::MissingCache),
{
    if r is Ok {
        let i = choose|i: int|
            best_at(files, start_url, now, i) && token_entry_of(files[i], start_url) == Some(
                r->Ok_0@,
            );
        assert(token_entry_of(files[i], start_url) is None || expiry_of(
            token_entry_of(files[i], start_url)->0,
        ) is None);
    }
}

proof fn lemma_best_unique(files: Seq<TokenFile>, start_url: Seq<char>, now: u64, i: int, i2: int)
    requires
        best_at(files, start_url, now, i),
        best_at(files, start_url, now, i2),
    ensures
        i == i2,
{
    if i < i2 {
        assert(valid_at(files, start_url, now, i));
    } else if i2 < i {
        assert(valid_at(files, start_url, now, i2));
    }
}

/// A file that holds no valid entry (undecodable, for another start URL,
/// incomplete, with an unparsable or past expiry) makes no difference: the
/// result is the same with the file removed.
pub proof fn lemma_unusable_file_irrelevant(
    files: Seq<TokenFile>,
    start_url: Seq<char>,
    now: u64,
    k: int,
    r1: Result<CacheEntry, Error>,
    r2: Result<CacheEntry, Error>,
)
    requires
        0 <= k < files.len(),
        !valid_at(files, start_url, now, k),
        load_valid_result(files, start_url, now, r1),
        load_valid_result(files.remove(k), start_url, now, r2),
    ensures
        r1 is Ok <==> r2 is Ok,
        r1 is Ok ==> r1->Ok_0@ == r2->Ok_0@,
{
    let g = files.remove(k);
    assert forall|m: int| 0 <= m < g.len() implies #[trigger] g[m] == files[if m < k { m } else { m + 1 }] by {}
    assert forall|m: int| valid_at(g, start_url, now, m) == valid_at(files, start_url, now, if m < k { m } else { m + 1 }) by {
        if 0 <= m < g.len() {
            assert(g[m] == files[if m < k { m } else { m + 1 }]);
        }
    }
    if r1 is Ok {
        let i1 = choose|i: int| #[trigger] best_at(files, start_url, now, i) && token_entry_of(files[i], start_url) == Some(r1->Ok_0@);
        let m1 = if i1 < k { i1 } else { i1 - 1 };
        assert(valid_at(g, start_url, now, m1));
        if r2 is Ok {
            let i2 = choose|i: int| #[trigger] best_at(g, start_url, now, i) && token_entry_of(g[i], start_url) == Some(r2->Ok_0@);
            let j2 = if i2 < k { i2 } else { i2 + 1 };
            assert forall|j: int| valid_at(files, start_url, now, j) implies expiry_of(token_entry_of(files[j], start_url)->0)->0
                <= expiry_of(token_entry_of(files[j2], start_url)->0)->0 by {
                let m = if j < k { j } else { j - 1 };
                assert(valid_at(g, start_url, now, m));
            }
            assert forall|j: int| 0 <= j < j2 && valid_at(files, start_url, now, j) implies expiry_of(token_entry_of(files[j], start_url)->0)->0
                < expiry_of(token_entry_of(files[j2], start_url)->0)->0 by {
                let m = if j < k { j } else { j - 1 };
                assert(valid_at(g, start_url, now, m));
            }
            assert(best_at(files, start_url, now, j2));
            lemma_best_unique(files, start_url, now, i1, j2);
        }
    } else {
        if r2 is Ok {
            let i2 = choose|i: int| #[trigger] best_at(g, start_url, now, i) && token_entry_of(g[i], start_url) == Some(r2->Ok_0@);
            assert(valid_at(files, start_url, now, if i2 < k { i2 } else { i2 + 1 }));
        }
    }
}

/// A token just written to this tool's directory is read back, unchanged,
/// while it is valid and no entry of the provider's directory expires later.
/// The tool's directory holds one file per start URL, so no other of its files
/// has a valid entry for it.
pub proof fn lemma_token_round_trip_written(
    provider_files: Seq<TokenFile>,
    tool_files: Seq<TokenFile>,
    start_url: Seq<char>,
    entry: CacheEntry,
    k: int,
    now: u64,
    r: Result<CacheEntry, Error>,
)
    requires
        0 <= k < tool_files.len(),
        token_entry_of(tool_files[k], start_url) == Some(entry@),
        token_valid(entry@, now),
        forall|j: int| 0 <= j < tool_files.len() && j != k ==> !#[trigger] valid_at(tool_files, start_url, now, j),
        forall|j: int|
            #[trigger] valid_at(provider_files, start_url, now, j) ==> expiry_of(
                token_entry_of(provider_files[j], start_url)->0,
            )->0 <= expiry_of(entry@)->0,
        load_valid_result(tool_files + provider_files, start_url, now, r),
    ensures
        r matches Ok(e) && e@ == entry@,
{
    let files = tool_files + provider_files;
    let n = tool_files.len() as int;
    assert forall|j: int| valid_at(files, start_url, now, j) && j != k implies expiry_of(
        token_entry_of(files[j], start_url)->0,
    )->0 <= expiry_of(entry@)->0 && (j < k ==> false) by {
        if j < n {
            assert(files[j] == tool_files[j]);
            assert(valid_at(tool_files, start_url, now, j));
        } else {
            assert(files[j] == provider_files[j - n]);
            assert(valid_at(provider_files, start_url, now, j - n));
        }
    }
    assert(files[k] == tool_files[k]);
    assert(valid_at(files, start_url, now, k));
    assert(best_at(files, start_url, now, k));
    if r is Ok {
        let i = choose|i: int| #[trigger] best_at(files, start_url, now, i) && token_entry_of(files[i], start_url) == Some(r->Ok_0@);
        lemma_best_unique(files, start_url, now, i, k);
    }
}

/// A token written for a start URL is read back, unchanged, while it is valid.
pub proof fn lemma_token_round_trip(
    start_url: Seq<char>,
    entry: CacheEntry,
    saved: TokenFile,
    now: u64,
    r: Result<CacheEntry, Error>,
)
    requires
        token_entry_of(saved, start_url) == Some(entry@),
        token_valid(entry@, now),
        load_valid_result(seq![saved], start_url, now, r),
    ensures
        r matches Ok(e) && e@ == entry@,
{
    if r is Err {
        assert(valid_at(seq![saved], start_url, now, 0));
    }
}

} // verus!
