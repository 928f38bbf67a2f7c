//! Ordering: the order of strings, sorting, and sorted sets of strings.

use vstd::prelude::*;

#[allow(unused_imports)]
use crate::text::views;
use crate::text::{chars_of, str_eq};

verus! {

/// The order of strings: by the first character in which they differ, a prefix before what
/// extends it.
pub open spec fn lex_lt(a: Seq<char>, b: Seq<char>) -> bool
    decreases a.len(),
{
    if b.len() == 0 {
        false
    } else if a.len() == 0 {
        true
    } else if a[0] != b[0] {
        a[0] < b[0]
    } else {
        lex_lt(a.drop_first(), b.drop_first())
    }
}

/// No string is before itself.
pub proof fn lemma_lex_irreflexive(a: Seq<char>)
    ensures
        !lex_lt(a, a),
    decreases a.len(),
{
    if a.len() > 0 {
        lemma_lex_irreflexive(a.drop_first());
    }
}

/// The order of strings is transitive.
pub proof fn lemma_lex_transitive(a: Seq<char>, b: Seq<char>, c: Seq<char>)
    requires
        lex_lt(a, b),
        lex_lt(b, c),
    ensures
        lex_lt(a, c),
    decreases a.len(),
{
    if a.len() > 0 && b.len() > 0 && c.len() > 0 && a[0] == b[0] && b[0] == c[0] {
        lemma_lex_transitive(a.drop_first(), b.drop_first(), c.drop_first());
    }
}

/// Of two different strings one is before the other.
pub proof fn lemma_lex_total(a: Seq<char>, b: Seq<char>)
    ensures
        a == b || lex_lt(a, b) || lex_lt(b, a),
    decreases a.len(),
{
    if a.len() > 0 && b.len() > 0 && a[0] == b[0] {
        lemma_lex_total(a.drop_first(), b.drop_first());
        if a.drop_first() == b.drop_first() {
            assert(a =~= seq![a[0]] + a.drop_first());
            assert(b =~= seq![b[0]] + b.drop_first());
        }
    } else if a.len() == 0 && b.len() == 0 {
        assert(a =~= b);
    }
}

/// Decides [`lex_lt`].
pub fn str_lt(a: &str, b: &str) -> (r: bool)
    ensures
        r == lex_lt(a@, b@),
{
    let x = chars_of(a);
    let y = chars_of(b);
    let mut i: usize = 0;
    assert(a@.skip(0) =~= a@ && b@.skip(0) =~= b@);
    while i < x.len() && i < y.len() && x[i] == y[i]
        invariant
            x@ == a@,
            y@ == b@,
            i <= x@.len(),
            i <= y@.len(),
            lex_lt(a@, b@) == lex_lt(a@.skip(i as int), b@.skip(i as int)),
        decreases x@.len() - i,
    {
        assert(a@.skip(i as int).drop_first() =~= a@.skip(i + 1));
        assert(b@.skip(i as int).drop_first() =~= b@.skip(i + 1));
        i += 1;
    }
    if i == y.len() {
        false
    } else if i == x.len() {
        true
    } else {
        assert(a@.skip(i as int)[0] == x@[i as int]);
        assert(b@.skip(i as int)[0] == y@[i as int]);
        x[i] < y[i]
    }
}

// ---------------------------------------------------------------------------
// Sorting by keys
// ---------------------------------------------------------------------------

/// A sort key: compared by its first number, then by its second.
pub type Key = (i128, i128);

/// Whether `a` is the greater key.
pub open spec fn key_gt(a: Key, b: Key) -> bool {
    a.0 > b.0 || (a.0 == b.0 && a.1 > b.1)
}

fn is_key_gt(a: Key, b: Key) -> (r: bool)
    ensures
        r == key_gt(a, b),
{
    a.0 > b.0 || (a.0 == b.0 && a.1 > b.1)
}

/// Whether `p` lists each index below `n` once.
pub open spec fn is_permutation(p: Seq<usize>, n: nat) -> bool {
    &&& p.len() == n
    &&& forall|i: int| 0 <= i < n ==> #[trigger] p[i] < n
    &&& forall|i: int, j: int| 0 <= i < j < n ==> #[trigger] p[i] != #[trigger] p[j]
}

/// Each index occurs in a permutation.
pub proof fn lemma_permutation_is_onto(p: Seq<usize>, n: nat, k: int) -> (j: int)
    requires
        is_permutation(p, n),
        0 <= k < n,
    ensures
        0 <= j < p.len(),
        p[j] == k,
{
    let q = p.map_values(|i: usize| i as int);
    assert(q.no_duplicates());
    q.unique_seq_to_set();
    let all = vstd::set_lib::set_int_range(0, n as int);
    vstd::set_lib::lemma_int_range(0, n as int);
    assert(q.to_set().subset_of(all));
    vstd::set_lib::lemma_subset_equality(q.to_set(), all);
    assert(all.contains(k));
    assert(q.contains(k));
    choose|j: int| 0 <= j < q.len() && q[j] == k
}

/// Whether the item at index `a` belongs before the item at index `b`: its key is greater, or
/// the keys are equal and it came first.
pub open spec fn goes_before(keys: Seq<Key>, a: usize, b: usize) -> bool {
    key_gt(keys[a as int], keys[b as int]) || (keys[a as int] == keys[b as int] && a < b)
}

/// Whether `p` lists the indexes of `keys` by descending key, equal keys in their first order.
pub open spec fn is_descending(keys: Seq<Key>, p: Seq<usize>) -> bool {
    &&& is_permutation(p, keys.len())
    &&& forall|i: int, j: int| 0 <= i < j < p.len() ==> goes_before(keys, #[trigger] p[i], #[trigger] p[j])
}

/// The indexes of `keys` by descending key, equal keys in their first order.
pub fn descending(keys: &Vec<Key>) -> (p: Vec<usize>)
    ensures
        is_descending(keys@, p@),
{
    let mut p: Vec<usize> = Vec::new();
    for i in 0..keys.len()
        invariant
            is_permutation(p@, i as nat),
            forall|a: int, b: int|
                0 <= a < b < p@.len() ==> goes_before(keys@, #[trigger] p@[a], #[trigger] p@[b]),
    {
        let mut k: usize = 0;
        while k < p.len() && !is_key_gt(keys[i], keys[p[k]])
            invariant
                i < keys@.len(),
                is_permutation(p@, i as nat),
                k <= p@.len(),
                forall|a: int| 0 <= a < k ==> goes_before(keys@, #[trigger] p@[a], i),
            decreases p@.len() - k,
        {
            assert(p@[k as int] < i);
            k += 1;
        }
        let ghost before = p@;
        p.insert(k, i);
        assert forall|a: int| 0 <= a < p@.len() implies #[trigger] p@[a] < i + 1 by {
            if a < k {
                assert(p@[a] == before[a]);
            } else if a > k {
                assert(p@[a] == before[a - 1]);
            }
        }
        assert forall|a: int, b: int| 0 <= a < b < p@.len() implies #[trigger] p@[a]
            != #[trigger] p@[b] && goes_before(keys@, p@[a], p@[b]) by {
            if a < k && b == k {
                assert(p@[a] == before[a]);
            } else if a == k {
                assert(p@[b] == before[b - 1]);
                assert(k < before.len());
                if b - 1 > k {
                    assert(goes_before(keys@, before[k as int], before[b - 1]));
                }
                assert(key_gt(keys@[i as int], keys@[before[k as int] as int]));
            } else if b < k {
                assert(p@[a] == before[a] && p@[b] == before[b]);
            } else if a < k {
                assert(p@[a] == before[a] && p@[b] == before[b - 1]);
            } else {
                assert(p@[a] == before[a - 1] && p@[b] == before[b - 1]);
            }
        }
    }
    p
}

// ---------------------------------------------------------------------------
// Sorting by texts
// ---------------------------------------------------------------------------

/// Whether the item at index `a` belongs before the item at index `b`: its text is greater, or
/// the texts are equal and it came first.
pub open spec fn text_goes_before(texts: Seq<Seq<char>>, a: usize, b: usize) -> bool {
    lex_lt(texts[b as int], texts[a as int]) || (texts[a as int] == texts[b as int] && a < b)
}

/// Whether `p` lists the indexes of `texts` by descending text, equal texts in their first order.
pub open spec fn is_descending_texts(texts: Seq<Seq<char>>, p: Seq<usize>) -> bool {
    &&& is_permutation(p, texts.len())
    &&& forall|i: int, j: int|
        0 <= i < j < p.len() ==> text_goes_before(texts, #[trigger] p[i], #[trigger] p[j])
}

proof fn lemma_text_goes_before(texts: Seq<Seq<char>>, a: usize, b: usize, c: usize)
    requires
        lex_lt(texts[b as int], texts[a as int]),
        text_goes_before(texts, b, c),
    ensures
        text_goes_before(texts, a, c),
{
    if lex_lt(texts[c as int], texts[b as int]) {
        lemma_lex_transitive(texts[c as int], texts[b as int], texts[a as int]);
    }
}

/// The indexes of `texts` by descending text, equal texts in their first order.
pub fn descending_texts(texts: &Vec<String>) -> (p: Vec<usize>)
    ensures
        is_descending_texts(views(texts@), p@),
{
    let ghost all = views(texts@);
    let mut p: Vec<usize> = Vec::new();
    for i in 0..texts.len()
        invariant
            all == views(texts@),
            is_permutation(p@, i as nat),
            forall|a: int, b: int|
                0 <= a < b < p@.len() ==> text_goes_before(all, #[trigger] p@[a], #[trigger] p@[b]),
    {
        let mut k: usize = 0;
        while k < p.len() && !str_lt(texts[p[k]].as_str(), texts[i].as_str())
            invariant
                all == views(texts@),
                i < texts@.len(),
                is_permutation(p@, i as nat),
                k <= p@.len(),
                forall|a: int| 0 <= a < k ==> text_goes_before(all, #[trigger] p@[a], i),
            decreases p@.len() - k,
        {
            assert(p@[k as int] < i);
            proof {
                lemma_lex_total(all[p@[k as int] as int], all[i as int]);
            }
            k += 1;
        }
        let ghost before = p@;
        p.insert(k, i);
        assert forall|a: int| 0 <= a < p@.len() implies #[trigger] p@[a] < i + 1 by {
            if a < k {
                assert(p@[a] == before[a]);
            } else if a > k {
                assert(p@[a] == before[a - 1]);
            }
        }
        assert forall|a: int, b: int| 0 <= a < b < p@.len() implies #[trigger] p@[a]
            != #[trigger] p@[b] && text_goes_before(all, p@[a], p@[b]) by {
            if a < k && b == k {
                assert(p@[a] == before[a]);
            } else if a == k {
                assert(p@[b] == before[b - 1]);
                assert(k < before.len());
                assert(lex_lt(all[before[k as int] as int], all[i as int]));
                if b - 1 > k {
                    assert(text_goes_before(all, before[k as int], before[b - 1]));
                    lemma_text_goes_before(all, i, before[k as int], before[b - 1]);
                }
            } else if b < k {
                assert(p@[a] == before[a] && p@[b] == before[b]);
            } else if a < k {
                assert(p@[a] == before[a] && p@[b] == before[b - 1]);
            } else {
                assert(p@[a] == before[a - 1] && p@[b] == before[b - 1]);
            }
        }
    }
    p
}

// ---------------------------------------------------------------------------
// Sorted sets of strings
// ---------------------------------------------------------------------------

/// Whether the strings stand in strictly ascending order.
pub open spec fn ascending(s: Seq<Seq<char>>) -> bool {
    forall|i: int, j: int| 0 <= i < j < s.len() ==> lex_lt(#[trigger] s[i], #[trigger] s[j])
}

/// Whether `r` holds the strings of `s`, each once, in ascending order.
pub open spec fn is_sorted_set(r: Seq<Seq<char>>, s: Seq<Seq<char>>) -> bool {
    &&& ascending(r)
    &&& forall|x: Seq<char>| #[trigger] r.contains(x) <==> s.contains(x)
}

/// There is only one sorted set of the same strings.
pub proof fn lemma_sorted_set_unique(a: Seq<Seq<char>>, b: Seq<Seq<char>>)
    requires
        ascending(a),
        ascending(b),
        forall|x: Seq<char>| #[trigger] a.contains(x) <==> b.contains(x),
    ensures
        a == b,
    decreases a.len(),
{
    if a.len() == 0 {
        if b.len() > 0 {
            assert(b.contains(b[0]));
            assert(a.contains(b[0]));
        }
        assert(a =~= b);
    } else {
        assert(a.contains(a.last()));
        assert(b.len() > 0);
        let la = a.last();
        let lb = b.last();
        assert(b.contains(lb));
        assert(a.contains(lb));
        if la != lb {
            let i = choose|i: int| 0 <= i < b.len() && b[i] == la;
            assert(i < b.len() - 1);
            assert(lex_lt(b[i], b[b.len() - 1]));
            let j = choose|j: int| 0 <= j < a.len() && a[j] == lb;
            assert(j < a.len() - 1);
            assert(lex_lt(a[j], a[a.len() - 1]));
            lemma_lex_transitive(la, lb, la);
            lemma_lex_irreflexive(la);
        }
        let a1 = a.drop_last();
        let b1 = b.drop_last();
        assert forall|x: Seq<char>| #[trigger] a1.contains(x) <==> b1.contains(x) by {
            if a1.contains(x) {
                let i = choose|i: int| 0 <= i < a1.len() && a1[i] == x;
                assert(a[i] == x);
                assert(a.contains(x));
                assert(lex_lt(a[i], a[a.len() - 1]));
                lemma_lex_irreflexive(la);
                let j = choose|j: int| 0 <= j < b.len() && b[j] == x;
                assert(j < b.len() - 1);
                assert(b1[j] == x);
            }
            if b1.contains(x) {
                let i = choose|i: int| 0 <= i < b1.len() && b1[i] == x;
                assert(b[i] == x);
                assert(b.contains(x));
                assert(lex_lt(b[i], b[b.len() - 1]));
                lemma_lex_irreflexive(lb);
                assert(a.contains(x));
                let j = choose|j: int| 0 <= j < a.len() && a[j] == x;
                assert(j < a.len() - 1);
                assert(a1[j] == x);
            }
        }
        lemma_sorted_set_unique(a1, b1);
        assert(a =~= a1.push(la));
        assert(b =~= b1.push(lb));
    }
}

/// Adds a string to a sorted set.
pub fn insert_sorted(set: &mut Vec<String>, s: String)
    requires
        ascending(views(old(set)@)),
    ensures
        ascending(views(final(set)@)),
        forall|x: Seq<char>| #[trigger]
            views(final(set)@).contains(x) <==> views(old(set)@).contains(x) || x == s@,
{
    let ghost was = views(set@);
    let mut k: usize = 0;
    while k < set.len() && str_lt(set[k].as_str(), s.as_str())
        invariant
            k <= set@.len(),
            was == views(set@),
            forall|a: int| 0 <= a < k ==> lex_lt(#[trigger] was[a], s@),
        decreases set@.len() - k,
    {
        assert(was[k as int] == set@[k as int]@);
        k += 1;
    }
    if k < set.len() && str_eq(set[k].as_str(), s.as_str()) {
        assert(was[k as int] == s@);
        return;
    }
    let ghost x = s@;
    proof {
        if k < set@.len() {
            assert(was[k as int] == set@[k as int]@);
            lemma_lex_total(was[k as int], x);
        }
    }
    set.insert(k, s);
    proof {
        let now = views(set@);
        assert(now =~= was.insert(k as int, x));
        assert forall|i: int, j: int| 0 <= i < j < now.len() implies lex_lt(
            #[trigger] now[i],
            #[trigger] now[j],
        ) by {
            if i == k && j > k + 1 {
                assert(lex_lt(was[k as int], was[j - 1]));
                lemma_lex_transitive(x, was[k as int], was[j - 1]);
            }
        }
        assert forall|y: Seq<char>| #[trigger] now.contains(y) <==> was.contains(y) || y == x by {
            if was.contains(y) {
                let i = choose|i: int| 0 <= i < was.len() && was[i] == y;
                assert(now[if i < k { i } else { i + 1 }] == y);
            }
            if y == x {
                assert(now[k as int] == x);
            }
            if now.contains(y) && y != x {
                let i = choose|i: int| 0 <= i < now.len() && now[i] == y;
                assert(was[if i < k { i } else { i - 1 }] == y);
            }
        }
    }
}

} // verus!
