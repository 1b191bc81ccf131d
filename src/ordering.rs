//! An insertion sort over (key, item) pairs. A key is a rank, then two texts
//! compared character by character, then the item's input position, so that
//! equal keys keep their order.

use vstd::prelude::*;
use vstd::seq_lib::*;

use crate::text::chars_of;

verus! {

/// Three-way lexicographic comparison of character sequences: -1, 0 or 1.
pub open spec fn lex_cmp(a: Seq<char>, b: Seq<char>) -> int
    decreases a.len(),
{
    if a.len() == 0 {
        if b.len() == 0 {
            0
        } else {
            -1
        }
    } else if b.len() == 0 {
        1
    } else if a[0] < b[0] {
        -1
    } else if a[0] > b[0] {
        1
    } else {
        lex_cmp(a.drop_first(), b.drop_first())
    }
}

pub proof fn lemma_lex_antisym(a: Seq<char>, b: Seq<char>)
    ensures
        lex_cmp(a, b) == -lex_cmp(b, a),
        lex_cmp(a, b) == 0 <==> a == b,
    decreases a.len(),
{
    if a.len() > 0 && b.len() > 0 && a[0] == b[0] {
        lemma_lex_antisym(a.drop_first(), b.drop_first());
        if a.drop_first() == b.drop_first() {
            assert(a =~= seq![a[0]] + a.drop_first());
            assert(b =~= seq![b[0]] + b.drop_first());
        }
    }
    if a.len() == 0 && b.len() == 0 {
        assert(a =~= b);
    }
}

pub proof fn lemma_lex_trans(a: Seq<char>, b: Seq<char>, c: Seq<char>)
    requires
        lex_cmp(a, b) <= 0,
        lex_cmp(b, c) <= 0,
    ensures
        lex_cmp(a, c) <= 0,
    decreases a.len(),
{
    if a.len() > 0 && b.len() > 0 && c.len() > 0 && a[0] == b[0] && b[0] == c[0] {
        lemma_lex_trans(a.drop_first(), b.drop_first(), c.drop_first());
    }
}

/// The key an item is sorted by; smaller keys come first. `position`, the
/// item's place in the input, breaks ties so that equal keys keep their order.
#[derive(Debug, Clone)]
pub struct SortKey {
    pub rank: i128,
    pub primary: String,
    pub secondary: String,
    pub position: usize,
}

impl View for SortKey {
    type V = (int, Seq<char>, Seq<char>);

    open spec fn view(&self) -> Self::V {
        (self.rank as int, self.primary@, self.secondary@)
    }
}

/// Same rank and texts.
pub open spec fn same_key(a: (int, Seq<char>, Seq<char>), b: (int, Seq<char>, Seq<char>)) -> bool {
    key_view_cmp(a, b) == 0
}

/// Three-way comparison of keys: by rank, then by each text.
pub open spec fn key_view_cmp(a: (int, Seq<char>, Seq<char>), b: (int, Seq<char>, Seq<char>)) -> int {
    if a.0 < b.0 {
        -1
    } else if a.0 > b.0 {
        1
    } else if lex_cmp(a.1, b.1) != 0 {
        lex_cmp(a.1, b.1)
    } else {
        lex_cmp(a.2, b.2)
    }
}

pub open spec fn key_view_le(a: (int, Seq<char>, Seq<char>), b: (int, Seq<char>, Seq<char>)) -> bool {
    key_view_cmp(a, b) <= 0
}

/// Ordered by key, then by position.
pub open spec fn key_le(a: SortKey, b: SortKey) -> bool {
    key_view_cmp(a@, b@) < 0 || (key_view_cmp(a@, b@) == 0 && a.position <= b.position)
}

pub proof fn lemma_key_view_antisym(a: (int, Seq<char>, Seq<char>), b: (int, Seq<char>, Seq<char>))
    ensures
        key_view_cmp(a, b) == -key_view_cmp(b, a),
{
    lemma_lex_antisym(a.1, b.1);
    lemma_lex_antisym(a.2, b.2);
}

pub proof fn lemma_key_view_trans(
    a: (int, Seq<char>, Seq<char>),
    b: (int, Seq<char>, Seq<char>),
    c: (int, Seq<char>, Seq<char>),
)
    requires
        key_view_cmp(a, b) <= 0,
        key_view_cmp(b, c) <= 0,
    ensures
        key_view_cmp(a, c) <= 0,
        key_view_cmp(a, c) == 0 ==> key_view_cmp(a, b) == 0 && key_view_cmp(b, c) == 0,
{
    lemma_lex_antisym(a.1, b.1);
    lemma_lex_antisym(b.1, c.1);
    lemma_lex_antisym(a.1, c.1);
    lemma_lex_antisym(a.2, b.2);
    lemma_lex_antisym(b.2, c.2);
    lemma_lex_antisym(a.2, c.2);
    if a.0 == b.0 && b.0 == c.0 {
        if lex_cmp(a.1, b.1) == 0 && lex_cmp(b.1, c.1) == 0 {
            lemma_lex_trans(a.2, b.2, c.2);
            if lex_cmp(a.2, c.2) == 0 {
                lemma_lex_trans(b.2, c.2, a.2);
                lemma_lex_trans(c.2, a.2, b.2);
            }
        } else if lex_cmp(a.1, b.1) == 0 {
        } else if lex_cmp(b.1, c.1) == 0 {
        } else {
            lemma_lex_trans(a.1, b.1, c.1);
            if lex_cmp(a.1, c.1) == 0 {
                lemma_lex_trans(b.1, c.1, a.1);
            }
        }
    }
}

pub proof fn lemma_key_total(a: SortKey, b: SortKey)
    ensures
        key_le(a, b) || key_le(b, a),
{
    lemma_key_view_antisym(a@, b@);
}

pub proof fn lemma_key_trans(a: SortKey, b: SortKey, c: SortKey)
    requires
        key_le(a, b),
        key_le(b, c),
    ensures
        key_le(a, c),
{
    lemma_key_view_trans(a@, b@, c@);
}

/// The keys of `s` never decrease.
pub open spec fn sorted_by_key<T>(s: Seq<(SortKey, T)>) -> bool {
    forall|i: int, j: int| 0 <= i < j < s.len() ==> key_le(#[trigger] s[i].0, #[trigger] s[j].0)
}

/// The items of a list of pairs, without their keys.
pub open spec fn items_of<T>(s: Seq<(SortKey, T)>) -> Seq<T> {
    s.map_values(|p: (SortKey, T)| p.1)
}

/// Three-way comparison of two texts.
pub fn compare_text(a: &str, b: &str) -> (r: i8)
    ensures
        r as int == lex_cmp(a@, b@),
{
    let x = chars_of(a);
    let y = chars_of(b);
    let mut i: usize = 0;
    assert(a@.subrange(0, a@.len() as int) =~= a@);
    assert(b@.subrange(0, b@.len() as int) =~= b@);
    while i < x.len() && i < y.len() && x[i] == y[i]
        invariant
            x@ == a@,
            y@ == b@,
            i <= x@.len(),
            i <= y@.len(),
            lex_cmp(a@, b@) == lex_cmp(a@.subrange(i as int, a@.len() as int), b@.subrange(
                i as int,
                b@.len() as int,
            )),
        decreases x@.len() - i,
    {
        proof {
            let sa = a@.subrange(i as int, a@.len() as int);
            let sb = b@.subrange(i as int, b@.len() as int);
            assert(sa.drop_first() =~= a@.subrange(i + 1, a@.len() as int));
            assert(sb.drop_first() =~= b@.subrange(i + 1, b@.len() as int));
        }
        i += 1;
    }
    if i == x.len() && i == y.len() {
        0
    } else if i == x.len() {
        -1
    } else if i == y.len() {
        1
    } else if x[i] < y[i] {
        -1
    } else {
        1
    }
}

pub fn compare_keys(a: &SortKey, b: &SortKey) -> (r: bool)
    ensures
        r == key_le(*a, *b),
{
    if a.rank != b.rank {
        return a.rank < b.rank;
    }
    let c = compare_text(a.primary.as_str(), b.primary.as_str());
    if c != 0 {
        return c < 0;
    }
    let d = compare_text(a.secondary.as_str(), b.secondary.as_str());
    if d != 0 {
        return d < 0;
    }
    a.position <= b.position
}

/// The items ordered by key.
pub fn sort_by_key<T>(items: Vec<(SortKey, T)>) -> (r: Vec<(SortKey, T)>)
    ensures
        sorted_by_key(r@),
        r@.to_multiset() == items@.to_multiset(),
        items_of(r@).to_multiset() == items_of(items@).to_multiset(),
{
    let mut src = items;
    let ghost orig = src@;
    let mut out: Vec<(SortKey, T)> = Vec::new();
    let mut taken: usize = 0;
    let total = src.len();
    assert(out@ =~= orig.subrange(0, 0));
    assert(items_of(out@) =~= items_of(orig.subrange(0, 0)));
    while src.len() > 0
        invariant
            total == orig.len(),
            taken + src@.len() == orig.len(),
            src@ == orig.subrange(taken as int, orig.len() as int),
            sorted_by_key(out@),
            out@.to_multiset() == orig.subrange(0, taken as int).to_multiset(),
            items_of(out@).to_multiset() == items_of(orig.subrange(0, taken as int)).to_multiset(),
        decreases src@.len(),
    {
        let x = src.remove(0);
        // insert after the last element whose key is not greater
        let mut p: usize = out.len();
        while p > 0 && !compare_keys(&out[p - 1].0, &x.0)
            invariant
                p <= out@.len(),
                sorted_by_key(out@),
                forall|j: int| p <= j < out@.len() ==> !key_le(#[trigger] out@[j].0, x.0),
            decreases p,
        {
            p -= 1;
        }
        proof {
            assert forall|j: int| 0 <= j < p implies key_le(#[trigger] out@[j].0, x.0) by {
                if j < p - 1 {
                    assert(key_le(out@[j].0, out@[p - 1].0));
                    lemma_key_trans(out@[j].0, out@[p - 1].0, x.0);
                }
            }
            assert forall|j: int| p <= j < out@.len() implies key_le(x.0, #[trigger] out@[j].0) by {
                lemma_key_total(x.0, out@[j].0);
            }
            to_multiset_insert(out@, p as int, x);
            assert(orig.subrange(0, taken + 1) =~= orig.subrange(0, taken as int).push(x));
            orig.subrange(0, taken as int).to_multiset_ensures();
            to_multiset_insert(items_of(out@), p as int, x.1);
            assert(items_of(orig.subrange(0, taken + 1)) =~= items_of(
                orig.subrange(0, taken as int),
            ).push(x.1));
            items_of(orig.subrange(0, taken as int)).to_multiset_ensures();
            assert(items_of(out@.insert(p as int, x)) =~= items_of(out@).insert(p as int, x.1));
        }
        let ghost before = out@;
        out.insert(p, x);
        proof {
            assert forall|i: int, j: int| 0 <= i < j < out@.len() implies key_le(
                #[trigger] out@[i].0,
                #[trigger] out@[j].0,
            ) by {
                if i < p && j > p {
                    assert(out@[i] == before[i]);
                    assert(out@[j] == before[j - 1]);
                } else if i > p {
                    assert(out@[i] == before[i - 1]);
                    assert(out@[j] == before[j - 1]);
                } else if j < p {
                } else if i == p {
                    assert(out@[j] == before[j - 1]);
                } else {
                    assert(out@[i] == before[i]);
                }
            }
        }
        taken += 1;
    }
    assert(orig.subrange(0, orig.len() as int) =~= orig);
    out
}

} // verus!
