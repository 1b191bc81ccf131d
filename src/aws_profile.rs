//! Editing the shared AWS configuration file: the `[sso-session ...]` and
//! `[profile ...]` sections this tool manages.

use vstd::prelude::*;

use crate::config::SsoIdentity;
use crate::error::Error;
use crate::model::RoleChoice;
use crate::naming::sanitized_of;
use crate::text::{
    chars_of, join_with, joined, lines_of, lower_of, lowercase, split_lines,
    string_views, trim, trimmed_of,
};

verus! {

/// The key that marks a section as managed by this tool.
pub open spec fn managed_key() -> Seq<char> {
    "roleman_managed"@
}

/// A section header line: trimmed, it starts with `[` and ends with `]`.
pub open spec fn is_header_line(l: Seq<char>) -> bool {
    let t = trimmed_of(l);
    t.len() > 0 && t[0] == '[' && t.last() == ']'
}

/// The first line at or after `i` whose trimmed text is `header`.
pub open spec fn header_from(ls: Seq<Seq<char>>, header: Seq<char>, i: int) -> Option<int>
    decreases ls.len() - i,
{
    if i < 0 || i >= ls.len() {
        None
    } else if is_header_line(ls[i]) && trimmed_of(ls[i]) == header {
        Some(i)
    } else {
        header_from(ls, header, i + 1)
    }
}

/// The first header line at or after `i`.
pub open spec fn next_header_from(ls: Seq<Seq<char>>, i: int) -> Option<int>
    decreases ls.len() - i,
{
    if i < 0 || i >= ls.len() {
        None
    } else if is_header_line(ls[i]) {
        Some(i)
    } else {
        next_header_from(ls, i + 1)
    }
}

/// The text after the first `c` of `s`.
pub open spec fn after_char(s: Seq<char>, c: char) -> Seq<char>
    decreases s.len(),
{
    if s.len() == 0 {
        s
    } else if s[0] == c {
        s.drop_first()
    } else {
        after_char(s.drop_first(), c)
    }
}

/// A `key = value` line, both sides trimmed; blank lines, comments and lines
/// without `=` hold none.
pub open spec fn key_value_of(line: Seq<char>) -> Option<(Seq<char>, Seq<char>)> {
    let t = trimmed_of(line);
    if t.len() == 0 || t[0] == '#' || t[0] == ';' || !t.contains('=') {
        None
    } else {
        Some((trimmed_of(crate::selection::before_char(t, '=')), trimmed_of(after_char(t, '='))))
    }
}

/// The last line in `lo..hi` that sets `key`.
pub open spec fn last_key_line(ls: Seq<Seq<char>>, lo: int, hi: int, key: Seq<char>) -> Option<int>
    decreases hi - lo,
{
    if hi <= lo {
        None
    } else if key_value_of(ls[hi - 1]) matches Some(kv) && kv.0 == key {
        Some(hi - 1)
    } else {
        last_key_line(ls, lo, hi - 1, key)
    }
}

/// The value `key` has in `lo..hi`, from its last line.
pub open spec fn key_value_in(ls: Seq<Seq<char>>, lo: int, hi: int, key: Seq<char>) -> Option<Seq<char>> {
    match last_key_line(ls, lo, hi, key) {
        Some(i) => Some((key_value_of(ls[i])->0).1),
        None => None,
    }
}

/// `true`, `1` or `yes`, in any case, around white space.
pub open spec fn truthy(value: Seq<char>) -> bool {
    let v = lower_of(trimmed_of(value));
    v == "true"@ || v == "1"@ || v == "yes"@
}

pub open spec fn entry_line(e: (String, String)) -> Seq<char> {
    e.0@ + " = "@ + e.1@
}

/// The section's lines after each entry's key has been given its value on the
/// key's last line.
pub open spec fn with_updates(ls: Seq<Seq<char>>, lo: int, hi: int, es: Seq<(String, String)>) -> Seq<Seq<char>>
    decreases es.len(),
{
    if es.len() == 0 {
        ls
    } else {
        let prev = with_updates(ls, lo, hi, es.drop_last());
        match last_key_line(ls, lo, hi, es.last().0@) {
            Some(i) => prev.update(i, entry_line(es.last())),
            None => prev,
        }
    }
}

/// The lines of the entries whose keys the section lacks.
pub open spec fn missing_lines(ls: Seq<Seq<char>>, lo: int, hi: int, es: Seq<(String, String)>) -> Seq<Seq<char>>
    decreases es.len(),
{
    if es.len() == 0 {
        Seq::empty()
    } else {
        let prev = missing_lines(ls, lo, hi, es.drop_last());
        if last_key_line(ls, lo, hi, es.last().0@) is None {
            prev.push(entry_line(es.last()))
        } else {
            prev
        }
    }
}

/// An unmanaged section conflicts unless it already holds every entry but the
/// marker, with the same value.
pub open spec fn conflicts(ls: Seq<Seq<char>>, lo: int, hi: int, es: Seq<(String, String)>) -> bool {
    exists|j: int| 0 <= j < es.len() && (#[trigger] es[j]).0@ != managed_key() && key_value_in(ls, lo, hi, es[j].0@) != Some(es[j].1@)
}

/// The new lines of the file, or `None` where the section exists and is not
/// this tool's to change.
pub open spec fn edited_lines(ls: Seq<Seq<char>>, header: Seq<char>, es: Seq<(String, String)>) -> Option<Seq<Seq<char>>> {
    match header_from(ls, header, 0) {
        Some(start) => {
            let end = match next_header_from(ls, start + 1) {
                Some(e) => e,
                None => ls.len() as int,
            };
            let marker = key_value_in(ls, start + 1, end, managed_key());
            let managed = marker is Some && truthy(marker->0);
            if (marker is Some && !truthy(marker->0)) || (!managed && conflicts(ls, start + 1, end, es)) {
                None
            } else {
                let up = with_updates(ls, start + 1, end, es);
                Some(up.subrange(0, end) + missing_lines(ls, start + 1, end, es) + up.subrange(end, up.len() as int))
            }
        },
        None => {
            let base = if ls.len() > 0 && trimmed_of(ls.last()).len() > 0 {
                ls.push(Seq::empty())
            } else {
                ls
            };
            Some(base.push(header) + es.map_values(|e: (String, String)| entry_line(e)))
        },
    }
}

/// The file text of edited lines: joined by newlines, ending with one where
/// the old text did or where the joined text is not empty.
pub open spec fn file_text(lines: Seq<Seq<char>>, had_trailing_newline: bool) -> Seq<char> {
    let out = joined(lines, "\n"@);
    if had_trailing_newline || (out.len() > 0 && out.last() != '\n') {
        out.push('\n')
    } else {
        out
    }
}

/// The result of ensuring a section holds the entries.
pub open spec fn section_result(contents: Seq<char>, section: Seq<char>, es: Seq<(String, String)>) -> Option<Seq<char>> {
    let header = "["@ + section + "]"@;
    match edited_lines(lines_of(contents), header, es) {
        Some(ls) => Some(file_text(ls, contents.len() > 0 && contents.last() == '\n')),
        None => None,
    }
}

pub open spec fn opt_pair(o: Option<(String, String)>) -> Option<(Seq<char>, Seq<char>)> {
    match o {
        Some(p) => Some((p.0@, p.1@)),
        None => None,
    }
}

fn range_string(v: &Vec<char>, from: usize, to: usize) -> (r: String)
    requires
        from <= to <= v@.len(),
    ensures
        r@ == v@.subrange(from as int, to as int),
{
    let mut out = String::new();
    let mut i: usize = from;
    while i < to
        invariant
            from <= i <= to <= v@.len(),
            out@ == v@.subrange(from as int, i as int),
        decreases to - i,
    {
        crate::text::push_char(&mut out, v[i]);
        i += 1;
        assert(out@ =~= v@.subrange(from as int, i as int));
    }
    out
}

/// The key and value of a `key = value` line.
pub fn parse_key_value(line: &str) -> (r: Option<(String, String)>)
    ensures
        opt_pair(r) == key_value_of(line@),
{
    let t = chars_of(trim(line));
    let n = t.len();
    if n == 0 || t[0] == '#' || t[0] == ';' {
        return None;
    }
    let mut k: usize = 0;
    assert(t@.subrange(0, n as int) =~= t@);
    while k < n && t[k] != '='
        invariant
            n == t@.len(),
            k <= n,
            forall|m: int| 0 <= m < k ==> t@[m] != '=',
            crate::selection::before_char(t@, '=') == t@.subrange(0, k as int) + crate::selection::before_char(t@.subrange(k as int, n as int), '='),
            after_char(t@, '=') == after_char(t@.subrange(k as int, n as int), '='),
        decreases n - k,
    {
        proof {
            let cur = t@.subrange(k as int, n as int);
            assert(cur.drop_first() =~= t@.subrange(k + 1, n as int));
            assert(t@.subrange(0, k + 1) =~= t@.subrange(0, k as int) + seq![t@[k as int]]);
        }
        k += 1;
    }
    if k == n {
        assert(!t@.contains('='));
        return None;
    }
    proof {
        let cur = t@.subrange(k as int, n as int);
        assert(t@.contains('=')) by {
            assert(t@[k as int] == '=');
        }
        assert(cur.drop_first() =~= t@.subrange(k + 1, n as int));
        assert(t@.subrange(0, k as int) + Seq::<char>::empty() =~= t@.subrange(0, k as int));
    }
    let key = range_string(&t, 0, k);
    let value = range_string(&t, k + 1, n);
    let key_t = String::from_str(trim(key.as_str()));
    let value_t = String::from_str(trim(value.as_str()));
    Some((key_t, value_t))
}

/// Whether a value reads as true.
pub fn is_truthy(value: &str) -> (r: bool)
    ensures
        r == truthy(value@),
{
    let v = lowercase(trim(value));
    v == String::from_str("true") || v == String::from_str("1") || v == String::from_str("yes")
}

fn is_header(line: &str) -> (r: bool)
    ensures
        r == is_header_line(line@),
{
    let t = trim(line);
    let n = t.unicode_len();
    n > 0 && t.get_char(0) == '[' && t.get_char(n - 1) == ']'
}

/// The line of the section `header` and the line of the header after it.
pub fn find_section(lines: &Vec<String>, header: &str) -> (r: (Option<usize>, Option<usize>))
    ensures
        match header_from(string_views(lines@), header@, 0) {
            Some(s) => r.0 == Some(s as usize) && match next_header_from(string_views(lines@), s + 1) {
                Some(e) => r.1 == Some(e as usize),
                None => r.1 is None,
            },
            None => r.0 is None && r.1 is None,
        },
{
    let ghost ls = string_views(lines@);
    let wanted = String::from_str(header);
    let mut start: Option<usize> = None;
    let mut i: usize = 0;
    while i < lines.len()
        invariant
            ls == string_views(lines@),
            wanted@ == header@,
            i <= lines@.len(),
            match start {
                None => header_from(ls, header@, 0) == header_from(ls, header@, i as int),
                Some(s) => s < i && header_from(ls, header@, 0) == Some(s as int)
                    && next_header_from(ls, s + 1) == next_header_from(ls, i as int),
            },
        decreases lines@.len() - i,
    {
        assert(ls[i as int] == lines@[i as int]@);
        if is_header(lines[i].as_str()) {
            if let Some(s) = start {
                return (Some(s), Some(i));
            }
            let t = String::from_str(trim(lines[i].as_str()));
            if t == wanted {
                start = Some(i);
            }
        }
        i += 1;
    }
    (start, None)
}

fn last_key_line_in(lines: &Vec<String>, lo: usize, hi: usize, key: &String) -> (r: Option<usize>)
    requires
        lo <= hi <= lines@.len(),
    ensures
        match last_key_line(string_views(lines@), lo as int, hi as int, key@) {
            Some(i) => r == Some(i as usize),
            None => r is None,
        },
        r matches Some(i) ==> lo <= i < hi,
{
    let ghost ls = string_views(lines@);
    let mut j: usize = hi;
    while j > lo
        invariant
            lo <= j <= hi <= lines@.len(),
            ls == string_views(lines@),
            last_key_line(ls, lo as int, hi as int, key@) == last_key_line(ls, lo as int, j as int, key@),
        decreases j,
    {
        assert(ls[j - 1] == lines@[j - 1]@);
        match parse_key_value(lines[j - 1].as_str()) {
            Some(kv) => {
                if kv.0 == *key {
                    return Some(j - 1);
                }
            },
            None => {},
        }
        j -= 1;
    }
    None
}

proof fn lemma_last_key_line(ls: Seq<Seq<char>>, lo: int, hi: int, key: Seq<char>)
    ensures
        last_key_line(ls, lo, hi, key) matches Some(i) ==> lo <= i < hi && key_value_of(ls[i]) is Some
            && (key_value_of(ls[i])->0).0 == key,
    decreases hi - lo,
{
    if hi > lo {
        lemma_last_key_line(ls, lo, hi - 1, key);
    }
}

fn value_in(lines: &Vec<String>, lo: usize, hi: usize, key: &String) -> (r: Option<String>)
    requires
        lo <= hi <= lines@.len(),
    ensures
        crate::timestamps::opt_text(r) == key_value_in(string_views(lines@), lo as int, hi as int, key@),
{
    proof {
        lemma_last_key_line(string_views(lines@), lo as int, hi as int, key@);
    }
    match last_key_line_in(lines, lo, hi, key) {
        Some(i) => {
            assert(string_views(lines@)[i as int] == lines@[i as int]@);
            match parse_key_value(lines[i].as_str()) {
                Some(kv) => Some(kv.1),
                None => None,
            }
        },
        None => None,
    }
}

fn entry_text(e: &(String, String)) -> (r: String)
    ensures
        r@ == entry_line(*e),
{
    let mut s = e.0.clone();
    s.append(" = ");
    s.append(e.1.as_str());
    s
}

fn not_managed_error(section: &str) -> (r: Error)
    ensures
        r matches Error::Config(m) && m@ == "section "@ + section@ + " already exists and is not managed by roleman"@,
{
    let mut m = String::from_str("section ");
    m.append(section);
    m.append(" already exists and is not managed by roleman");
    Error::Config(m)
}

proof fn lemma_header_from(ls: Seq<Seq<char>>, header: Seq<char>, i: int)
    ensures
        header_from(ls, header, i) matches Some(k) ==> i <= k < ls.len(),
    decreases ls.len() - i,
{
    if 0 <= i < ls.len() {
        lemma_header_from(ls, header, i + 1);
    }
}

proof fn lemma_next_header_from(ls: Seq<Seq<char>>, i: int)
    ensures
        next_header_from(ls, i) matches Some(k) ==> i <= k < ls.len(),
    decreases ls.len() - i,
{
    if 0 <= i < ls.len() {
        lemma_next_header_from(ls, i + 1);
    }
}

proof fn lemma_with_updates_len(ls: Seq<Seq<char>>, lo: int, hi: int, es: Seq<(String, String)>)
    requires
        0 <= lo,
        hi <= ls.len(),
    ensures
        with_updates(ls, lo, hi, es).len() == ls.len(),
    decreases es.len(),
{
    if es.len() > 0 {
        lemma_with_updates_len(ls, lo, hi, es.drop_last());
        lemma_last_key_line(ls, lo, hi, es.last().0@);
    }
}

/// Makes the section `[section]` of a configuration text hold the entries:
/// an existing section keeps its other lines, gets each entry's value on the
/// key's last line and the missing entries before the next section; a new
/// section is appended. A section that exists and is neither marked as
/// managed nor already in agreement with the entries is left alone, and the
/// result is an error.
pub fn ensure_section_entries(contents: &str, section: &str, entries: &Vec<(String, String)>) -> (r: Result<String, Error>)
    ensures
        match section_result(contents@, section@, entries@) {
            Some(t) => r matches Ok(s) && s@ == t,
            None => r matches Err(Error::Config(m)) && m@ == "section "@ + section@ + " already exists and is not managed by roleman"@,
        },
{
    let mut header = String::from_str("[");
    header.append(section);
    header.append("]");
    let n_chars = contents.unicode_len();
    let had_trailing = n_chars > 0 && contents.get_char(n_chars - 1) == '\n';
    let mut lines = split_lines(contents);
    let ghost ls = string_views(lines@);
    let ghost es = entries@;
    let total = lines.len();
    let (start, end) = find_section(&lines, header.as_str());
    proof {
        lemma_header_from(ls, header@, 0);
        reveal_strlit("[");
        reveal_strlit("]");
        assert(ls == lines_of(contents@));
        assert(header@ == "["@ + section@ + "]"@);
    }
    let ghost expected = edited_lines(ls, header@, es);
    let result: Vec<String> = match start {
        Some(s) => {
            proof {
                lemma_next_header_from(ls, s + 1);
            }
            let e = match end {
                Some(e) => e,
                None => lines.len(),
            };
            assert(s < total);
            assert(e == match next_header_from(ls, s + 1) {
                Some(x) => x,
                None => ls.len() as int,
            });
            let marker_key = String::from_str("roleman_managed");
            proof {
                reveal_strlit("roleman_managed");
            }
            let marker = value_in(&lines, s + 1, e, &marker_key);
            let managed = match &marker {
                Some(v) => is_truthy(v.as_str()),
                None => false,
            };
            if marker.is_some() && !managed {
                return Err(not_managed_error(section));
            }
            let ghost marker_spec = key_value_in(ls, s + 1, e as int, managed_key());
            assert(crate::timestamps::opt_text(marker) == marker_spec);
            assert(managed == (marker_spec is Some && truthy(marker_spec->0)));
            if !managed {
                let mut j: usize = 0;
                while j < entries.len()
                    invariant
                        j <= es.len(),
                        es == entries@,
                        ls == string_views(lines@),
                        s + 1 <= e <= lines@.len(),
                        marker_key@ == managed_key(),
                        expected == edited_lines(ls, header@, es),
                        ls == lines_of(contents@),
                        header@ == "["@ + section@ + "]"@,
                        header_from(ls, header@, 0) == Some(s as int),
                        e == match next_header_from(ls, s + 1) {
                            Some(x) => x,
                            None => ls.len() as int,
                        },
                        !(key_value_in(ls, s + 1, e as int, managed_key()) is Some && truthy(key_value_in(ls, s + 1, e as int, managed_key())->0)),
                        forall|jj: int| 0 <= jj < j ==> !((#[trigger] es[jj]).0@ != managed_key() && key_value_in(ls, s + 1, e as int, es[jj].0@) != Some(es[jj].1@)),
                    decreases es.len() - j,
                {
                    let entry = &entries[j];
                    if entry.0 != marker_key {
                        let v = value_in(&lines, s + 1, e, &entry.0);
                        let same = match &v {
                            Some(x) => *x == entry.1,
                            None => false,
                        };
                        if !same {
                            assert(conflicts(ls, s + 1, e as int, es)) by {
                                assert(es[j as int] == *entry);
                            }
                            assert(expected is None);
                            return Err(not_managed_error(section));
                        }
                    }
                    j += 1;
                }
                assert(!conflicts(ls, s + 1, e as int, es));
            }
            let mut idxs: Vec<Option<usize>> = Vec::new();
            let mut j: usize = 0;
            while j < entries.len()
                invariant
                    j <= es.len(),
                    es == entries@,
                    ls == string_views(lines@),
                    s + 1 <= e <= lines@.len(),
                    idxs@.len() == j,
                    forall|jj: int| 0 <= jj < j ==> match last_key_line(ls, s + 1, e as int, (#[trigger] es[jj]).0@) {
                        Some(i) => idxs@[jj] == Some(i as usize),
                        None => idxs@[jj] is None,
                    },
                decreases es.len() - j,
            {
                idxs.push(last_key_line_in(&lines, s + 1, e, &entries[j].0));
                j += 1;
            }
            let mut missing: Vec<String> = Vec::new();
            let mut j: usize = 0;
            assert(string_views(lines@) =~= with_updates(ls, s + 1, e as int, es.subrange(0, 0)));
            assert(string_views(missing@) =~= missing_lines(ls, s + 1, e as int, es.subrange(0, 0)));
            while j < entries.len()
                invariant
                    j <= es.len(),
                    es == entries@,
                    s + 1 <= e <= ls.len(),
                    idxs@.len() == es.len(),
                    forall|jj: int| 0 <= jj < es.len() ==> match last_key_line(ls, s + 1, e as int, (#[trigger] es[jj]).0@) {
                        Some(i) => idxs@[jj] == Some(i as usize),
                        None => idxs@[jj] is None,
                    },
                    lines@.len() == ls.len(),
                    string_views(lines@) == with_updates(ls, s + 1, e as int, es.subrange(0, j as int)),
                    string_views(missing@) == missing_lines(ls, s + 1, e as int, es.subrange(0, j as int)),
                decreases es.len() - j,
            {
                let ghost sub = es.subrange(0, j + 1);
                assert(sub.drop_last() =~= es.subrange(0, j as int));
                assert(sub.last() == es[j as int]);
                let line = entry_text(&entries[j]);
                proof {
                    lemma_last_key_line(ls, s + 1, e as int, es[j as int].0@);
                }
                match idxs[j] {
                    Some(i) => {
                        let ghost prev = lines@;
                        lines.set(i, line);
                        assert(string_views(lines@) =~= string_views(prev).update(i as int, entry_line(es[j as int])));
                    },
                    None => {
                        let ghost prev = missing@;
                        missing.push(line);
                        assert(string_views(missing@) =~= string_views(prev).push(entry_line(es[j as int])));
                    },
                }
                j += 1;
            }
            assert(es.subrange(0, es.len() as int) =~= es);
            let ghost up = string_views(lines@);
            let mut out: Vec<String> = Vec::new();
            let mut k: usize = 0;
            while k < e
                invariant
                    k <= e <= lines@.len(),
                    up == string_views(lines@),
                    string_views(out@) == up.subrange(0, k as int),
                decreases e - k,
            {
                let ghost prev = out@;
                out.push(lines[k].clone());
                assert(string_views(out@) =~= string_views(prev).push(up[k as int]));
                k += 1;
                assert(string_views(out@) =~= up.subrange(0, k as int));
            }
            let ghost head = string_views(out@);
            let mut m: usize = 0;
            while m < missing.len()
                invariant
                    m <= missing@.len(),
                    string_views(out@) == head + string_views(missing@).subrange(0, m as int),
                decreases missing@.len() - m,
            {
                let ghost prev = out@;
                out.push(missing[m].clone());
                assert(string_views(out@) =~= string_views(prev).push(missing@[m as int]@));
                m += 1;
                assert(string_views(out@) =~= head + string_views(missing@).subrange(0, m as int));
            }
            assert(string_views(missing@).subrange(0, missing@.len() as int) =~= string_views(missing@));
            let ghost mid = string_views(out@);
            let mut k: usize = e;
            while k < lines.len()
                invariant
                    e <= k <= lines@.len(),
                    up == string_views(lines@),
                    string_views(out@) == mid + up.subrange(e as int, k as int),
                decreases lines@.len() - k,
            {
                let ghost prev = out@;
                out.push(lines[k].clone());
                assert(string_views(out@) =~= string_views(prev).push(up[k as int]));
                k += 1;
                assert(string_views(out@) =~= mid + up.subrange(e as int, k as int));
            }
            proof {
                lemma_with_updates_len(ls, s + 1, e as int, es);
                assert(up.subrange(e as int, k as int) == up.subrange(e as int, up.len() as int));
                assert(string_views(out@) =~= expected->0);
            }
            out
        },
        None => {
            let mut out = lines;
            let count = out.len();
            if count > 0 && trim(out[count - 1].as_str()).unicode_len() > 0 {
                out.push(String::new());
            }
            let ghost base = string_views(out@);
            assert(base =~= if ls.len() > 0 && trimmed_of(ls.last()).len() > 0 {
                ls.push(Seq::empty())
            } else {
                ls
            });
            out.push(header);
            let ghost with_header = string_views(out@);
            let mut j: usize = 0;
            while j < entries.len()
                invariant
                    j <= es.len(),
                    es == entries@,
                    string_views(out@) == with_header + es.subrange(0, j as int).map_values(|x: (String, String)| entry_line(x)),
                decreases es.len() - j,
            {
                let line = entry_text(&entries[j]);
                let ghost prev = out@;
                out.push(line);
                assert(string_views(out@) =~= string_views(prev).push(entry_line(es[j as int])));
                assert(es.subrange(0, j + 1).map_values(|x: (String, String)| entry_line(x)) =~= es.subrange(0, j as int).map_values(|x: (String, String)| entry_line(x)).push(entry_line(es[j as int])));
                j += 1;
                assert(string_views(out@) =~= with_header + es.subrange(0, j as int).map_values(|x: (String, String)| entry_line(x)));
            }
            assert(es.subrange(0, es.len() as int) =~= es);
            assert(string_views(out@) =~= expected->0);
            out
        },
    };
    assert(string_views(result@) == expected->0);
    let mut text = join_with(&result, "\n");
    let tl = text.as_str().unicode_len();
    if had_trailing || (tl > 0 && text.as_str().get_char(tl - 1) != '\n') {
        crate::text::push_char(&mut text, '\n');
    }
    proof {
        assert(had_trailing == (contents@.len() > 0 && contents@.last() == '\n'));
    }
    Ok(text)
}

fn pair(key: &str, value: &str) -> (r: (String, String))
    ensures
        r.0@ == key@,
        r.1@ == value@,
{
    (String::from_str(key), String::from_str(value))
}

/// The entries of an identity's session section.
pub open spec fn session_entries_ok(es: Seq<(String, String)>, identity: SsoIdentity) -> bool {
    es.len() == 2 && es[0].0@ == "sso_start_url"@ && es[0].1@ == identity.start_url@
        && es[1].0@ == "sso_region"@ && es[1].1@ == identity.sso_region@
}

/// Makes the configuration text hold the `[sso-session roleman-<name>]`
/// section of an identity; returns the session name and the new text.
pub fn ensure_sso_session(identity: &SsoIdentity, contents: &str) -> (r: Result<(String, String), Error>)
    ensures
        exists|es: Seq<(String, String)>| #[trigger] session_entries_ok(es, *identity) && match section_result(
            contents@,
            "sso-session roleman-"@ + sanitized_of(identity.name@),
            es,
        ) {
            Some(t) => r matches Ok((name, text)) && name@ == "roleman-"@ + sanitized_of(identity.name@)
                && text@ == t,
            None => r matches Err(Error::Config(_)),
        },
{
    let session = crate::naming::sso_session_name(identity);
    let mut entries: Vec<(String, String)> = Vec::new();
    entries.push(pair("sso_start_url", identity.start_url.as_str()));
    entries.push(pair("sso_region", identity.sso_region.as_str()));
    let mut section = String::from_str("sso-session ");
    section.append(session.as_str());
    proof {
        reveal_strlit("sso-session ");
        reveal_strlit("roleman-");
        reveal_strlit("sso-session roleman-");
        assert(section@ =~= "sso-session roleman-"@ + sanitized_of(identity.name@));
        assert(session_entries_ok(entries@, *identity));
    }
    match ensure_section_entries(contents, section.as_str(), &entries) {
        Ok(text) => Ok((session, text)),
        Err(e) => Err(e),
    }
}

/// The entries of a role's profile section.
pub open spec fn profile_entries_ok(
    es: Seq<(String, String)>,
    choice: RoleChoice,
    identity: SsoIdentity,
    region: Seq<char>,
) -> bool {
    es.len() == 5 && es[0].0@ == "sso_session"@ && es[0].1@ == "roleman-"@ + sanitized_of(identity.name@)
        && es[1].0@ == "sso_account_id"@ && es[1].1@ == choice.account_id@
        && es[2].0@ == "sso_role_name"@ && es[2].1@ == choice.role_name@
        && es[3].0@ == "region"@ && es[3].1@ == region
        && es[4].0@ == managed_key() && es[4].1@ == "true"@
}

/// Makes the configuration text hold the `[profile <name>]` section of a role,
/// marked as managed; returns the new text.
pub fn ensure_role_profile(
    profile_name: &str,
    choice: &RoleChoice,
    identity: &SsoIdentity,
    region: &str,
    contents: &str,
) -> (r: Result<String, Error>)
    ensures
        exists|es: Seq<(String, String)>| #[trigger] profile_entries_ok(es, *choice, *identity, region@) && match section_result(
            contents@,
            "profile "@ + profile_name@,
            es,
        ) {
            Some(t) => r matches Ok(text) && text@ == t,
            None => r matches Err(Error::Config(_)),
        },
{
    let session = crate::naming::sso_session_name(identity);
    let mut entries: Vec<(String, String)> = Vec::new();
    entries.push(pair("sso_session", session.as_str()));
    entries.push(pair("sso_account_id", choice.account_id.as_str()));
    entries.push(pair("sso_role_name", choice.role_name.as_str()));
    entries.push(pair("region", region));
    entries.push(pair("roleman_managed", "true"));
    let mut section = String::from_str("profile ");
    section.append(profile_name);
    proof {
        reveal_strlit("roleman_managed");
        assert(profile_entries_ok(entries@, *choice, *identity, region@));
    }
    ensure_section_entries(contents, section.as_str(), &entries)
}

} // verus!
