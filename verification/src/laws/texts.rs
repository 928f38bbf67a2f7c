//! Laws of texts: what the parts of a text are, and how it is put together again.

use vstd::prelude::*;

#[allow(unused_imports)]
use crate::llm::{lemma_split_continues, lemma_split_without};
#[allow(unused_imports)]
use crate::text::{
    ascii_lower, contains_spec, has_extension, is_whitespace, join_spec, lemma_find_char_at,
    lemma_rfind_char, lemma_trim_end_at, lemma_trim_start_at, occurs_at, replace_char_spec,
    repeat_spec, rfind_char, runs, split_once_spec, split_spec, starts_with_spec, trim_end,
    trim_end_char, trim_spec, words_spec,
};
#[allow(unused_imports)]
use crate::tools::repair::stem;

verus! {

/// Trimming takes the white space off both ends, all of it and nothing else.
pub proof fn lemma_trim_takes_the_ends(a: Seq<char>, t: Seq<char>, b: Seq<char>)
    requires
        forall|i: int| 0 <= i < a.len() ==> is_whitespace(#[trigger] a[i]),
        forall|i: int| 0 <= i < b.len() ==> is_whitespace(#[trigger] b[i]),
        t.len() > 0 ==> !is_whitespace(t[0]) && !is_whitespace(t[t.len() - 1]),
    ensures
        trim_spec(a + t + b) == t,
{
    let s = a + t + b;
    if t.len() > 0 {
        assert forall|j: int| 0 <= j < a.len() implies is_whitespace(#[trigger] s[j]) by {
            assert(s[j] == a[j]);
        }
        assert(s[a.len() as int] == t[0]);
        lemma_trim_start_at(s, a.len() as int);
        let u = s.skip(a.len() as int);
        assert(u =~= t + b);
        assert forall|j: int| t.len() <= j < u.len() implies is_whitespace(#[trigger] u[j]) by {
            assert(u[j] == b[j - t.len()]);
        }
        assert(u[t.len() - 1] == t[t.len() - 1]);
        lemma_trim_end_at(u, t.len() as int);
        assert(u.take(t.len() as int) =~= t);
    } else {
        assert forall|j: int| 0 <= j < s.len() implies is_whitespace(#[trigger] s[j]) by {
            if j < a.len() {
                assert(s[j] == a[j]);
            } else {
                assert(s[j] == b[j - a.len()]);
            }
        }
        lemma_trim_start_at(s, s.len() as int);
        assert(s.skip(s.len() as int) =~= t);
        assert(trim_end(t) == t);
    }
}

/// White space is what Unicode says: tabs, line ends, blanks of all widths, and nothing that is
/// visible in ASCII.
pub proof fn lemma_white_space(c: char)
    ensures
        is_whitespace(c) <==> {
            let n = c as int;
            9 <= n <= 13 || n == 32 || n == 0x85 || n == 0xa0 || n == 0x1680 || 0x2000 <= n
                <= 0x200a || n == 0x2028 || n == 0x2029 || n == 0x202f || n == 0x205f || n == 0x3000
        },
{
}

/// A text is split at the first separator: what stands before it is one piece, and the rest is
/// split in the same way.
pub proof fn lemma_split_at_separator(a: Seq<char>, b: Seq<char>, sep: char)
    requires
        !a.contains(sep),
    ensures
        split_spec(a, sep) == seq![a],
        split_spec(a + seq![sep] + b, sep) == seq![a] + split_spec(b, sep),
{
    lemma_split_without(a, sep);
    let c = a + seq![sep];
    assert(c.drop_last() =~= a);
    assert(split_spec(c, sep) =~= seq![a, Seq::empty()]);
    lemma_split_continues(c, b, sep);
    assert(split_spec(c, sep).last() + b =~= b);
    assert(split_spec(c, sep).drop_last() =~= seq![a]);
}

/// Joining two lists of pieces: the separator stands between them, and nowhere else.
pub proof fn lemma_join_parts(a: Seq<Seq<char>>, b: Seq<Seq<char>>, sep: Seq<char>)
    ensures
        a.len() > 0 && b.len() > 0 ==> join_spec(a + b, sep) == join_spec(a, sep) + sep + join_spec(
            b,
            sep,
        ),
        b.len() == 0 ==> join_spec(a + b, sep) == join_spec(a, sep),
        a.len() == 0 ==> join_spec(a + b, sep) == join_spec(b, sep),
        a.len() == 1 ==> join_spec(a, sep) == a[0],
        a.len() == 0 ==> join_spec(a, sep) == Seq::<char>::empty(),
    decreases b.len(),
{
    if b.len() == 0 {
        assert(a + b =~= a);
    }
    if a.len() == 0 {
        assert(a + b =~= b);
    }
    if a.len() > 0 && b.len() > 0 {
        lemma_join_parts(a, b.drop_last(), sep);
        assert((a + b).drop_last() =~= a + b.drop_last());
        assert((a + b).last() == b.last());
        if b.len() == 1 {
            assert(b.drop_last() =~= Seq::<Seq<char>>::empty());
            assert(a + b.drop_last() =~= a);
            assert(join_spec(a + b, sep) == join_spec(a, sep) + sep + b[0]);
        } else {
            assert(join_spec(a + b, sep) == join_spec(a + b.drop_last(), sep) + sep + b.last());
            assert(join_spec(a, sep) + sep + join_spec(b.drop_last(), sep) + sep + b.last()
                =~= join_spec(a, sep) + sep + (join_spec(b.drop_last(), sep) + sep + b.last()));
        }
    }
}

/// A text is cut in two at the first separator; one without a separator is not cut.
pub proof fn lemma_cut_at_first(a: Seq<char>, b: Seq<char>, sep: char)
    requires
        !a.contains(sep),
    ensures
        split_once_spec(a + seq![sep] + b, sep) == Some((a, b)),
        split_once_spec(a, sep) is None,
{
    let s = a + seq![sep] + b;
    assert(s[a.len() as int] == sep);
    assert forall|j: int| 0 <= j < a.len() implies s[j] != sep by {
        assert(s[j] == a[j]);
        assert(a.contains(a[j]));
    }
    lemma_find_char_at(s, sep, a.len() as int);
    assert(s.contains(sep));
    assert(s.take(a.len() as int) =~= a);
    assert(s.skip(a.len() as int + 1) =~= b);
}

/// A text holds another where it is something, then that, then something.
pub proof fn lemma_holds_in_between(s: Seq<char>, a: Seq<char>, p: Seq<char>, b: Seq<char>)
    ensures
        s == a + p + b ==> contains_spec(s, p),
        contains_spec(s, p) ==> exists|x: Seq<char>, y: Seq<char>| #[trigger] (x + p + y) == s,
{
    if s == a + p + b {
        assert(s.subrange(a.len() as int, a.len() as int + p.len()) =~= p);
        assert(occurs_at(s, p, a.len() as int));
    }
    if contains_spec(s, p) {
        let i = choose|i: int| occurs_at(s, p, i);
        let x = s.take(i);
        let y = s.skip(i + p.len());
        assert(x + p + y =~= s) by {
            assert(s.subrange(i, i + p.len()) == p);
            assert forall|j: int| 0 <= j < s.len() implies (x + p + y)[j] == s[j] by {
                if i <= j < i + p.len() {
                    assert(s.subrange(i, i + p.len())[j - i] == s[j]);
                }
            }
        }
    }
}

/// A text begins with another where it is that, then something.
pub proof fn lemma_begins_with(s: Seq<char>, p: Seq<char>, b: Seq<char>)
    ensures
        s == p + b ==> starts_with_spec(s, p),
        starts_with_spec(s, p) ==> s == p + s.skip(p.len() as int),
{
    if s == p + b {
        assert(s.take(p.len() as int) =~= p);
    }
    if starts_with_spec(s, p) {
        assert(s =~= s.take(p.len() as int) + s.skip(p.len() as int));
    }
}

proof fn lemma_runs_parts(a: Seq<char>, c: char, b: Seq<char>)
    requires
        is_whitespace(c),
    ensures
        runs(a + seq![c] + b) == runs(a) + runs(b),
        runs(b).len() > 0,
    decreases b.len(),
{
    let s = a + seq![c] + b;
    if b.len() == 0 {
        assert(s.drop_last() =~= a);
        assert(runs(s) =~= runs(a) + runs(b));
    } else {
        let d = b.drop_last();
        lemma_runs_parts(a, c, d);
        assert(s.drop_last() =~= a + seq![c] + d);
        if is_whitespace(b.last()) {
            assert(runs(s) =~= runs(a) + runs(b));
        } else {
            let r = runs(a) + runs(d);
            assert(r.last() == runs(d).last());
            assert(r.drop_last() =~= runs(a) + runs(d).drop_last());
            assert(runs(s) =~= runs(a) + runs(b));
        }
    }
}

proof fn lemma_runs_of_word(w: Seq<char>)
    requires
        forall|i: int| 0 <= i < w.len() ==> !is_whitespace(#[trigger] w[i]),
    ensures
        runs(w) == seq![w],
    decreases w.len(),
{
    if w.len() == 0 {
        assert(w =~= Seq::<char>::empty());
    } else {
        let d = w.drop_last();
        assert forall|i: int| 0 <= i < d.len() implies !is_whitespace(#[trigger] d[i]) by {
            assert(d[i] == w[i]);
        }
        lemma_runs_of_word(d);
        assert(d.push(w.last()) =~= w);
        assert(runs(w) =~= seq![w]);
    }
}

/// White space parts the words of a text: the words before it and the words behind it. A text
/// without white space is one word, unless it is empty.
pub proof fn lemma_words_of_parts(a: Seq<char>, c: char, b: Seq<char>)
    requires
        is_whitespace(c),
    ensures
        words_spec(a + seq![c] + b) == words_spec(a) + words_spec(b),
        (forall|i: int| 0 <= i < a.len() ==> !is_whitespace(#[trigger] a[i])) ==> words_spec(a) == (
        if a.len() == 0 {
            Seq::<Seq<char>>::empty()
        } else {
            seq![a]
        }),
{
    let keep = |w: Seq<char>| w.len() > 0;
    lemma_runs_parts(a, c, b);
    Seq::filter_distributes_over_add(runs(a), runs(b), keep);
    if forall|i: int| 0 <= i < a.len() ==> !is_whitespace(#[trigger] a[i]) {
        lemma_runs_of_word(a);
        broadcast use Seq::lemma_filter_push;

        assert(Seq::<Seq<char>>::empty().filter(keep) =~= Seq::<Seq<char>>::empty()) by {
            reveal(Seq::filter);
        }
        assert(seq![a] =~= Seq::<Seq<char>>::empty().push(a));
        assert(seq![a].filter(keep) =~= if a.len() == 0 {
            Seq::<Seq<char>>::empty()
        } else {
            seq![a]
        });
    }
}

/// In lower case each ASCII capital is the small letter, and all else is as it was.
pub proof fn lemma_lower_case(s: Seq<char>, i: int)
    requires
        0 <= i < s.len(),
    ensures
        ascii_lower(s).len() == s.len(),
        'A' <= s[i] <= 'Z' ==> ascii_lower(s)[i] as int - 'a' as int == s[i] as int - 'A' as int,
        !('A' <= s[i] <= 'Z') ==> ascii_lower(s)[i] == s[i],
{
}

/// Taking a character off the end of a text takes all of them and nothing else.
pub proof fn lemma_trim_character(s: Seq<char>, c: char, n: nat)
    requires
        s.len() > 0 ==> s[s.len() - 1] != c,
    ensures
        trim_end_char(s + Seq::new(n, |i: int| c), c) == s,
    decreases n,
{
    let t = s + Seq::new(n, |i: int| c);
    if n == 0 {
        assert(t =~= s);
    } else {
        lemma_trim_character(s, c, (n - 1) as nat);
        assert(t.drop_last() =~= s + Seq::new((n - 1) as nat, |i: int| c));
        assert(t.last() == c);
    }
}

/// Repeating gives as many characters as were asked for, all of them the same; replacing changes
/// the characters that are meant, each in its place.
pub proof fn lemma_repeat_and_replace(c: char, n: nat, s: Seq<char>, from: char, to: char, i: int)
    ensures
        repeat_spec(c, n).len() == n,
        0 <= i < n ==> repeat_spec(c, n)[i] == c,
        replace_char_spec(s, from, to).len() == s.len(),
        0 <= i < s.len() && s[i] == from ==> replace_char_spec(s, from, to)[i] == to,
        0 <= i < s.len() && s[i] != from ==> replace_char_spec(s, from, to)[i] == s[i],
{
}

/// A file name is a name, a dot and an extension without a dot: it has that extension and no
/// other, and the name is its stem. A name without a dot has no extension.
pub proof fn lemma_name_and_extension(a: Seq<char>, e: Seq<char>, x: Seq<char>)
    requires
        !e.contains('.'),
    ensures
        has_extension(a + seq!['.'] + e, x) <==> a.len() > 0 && x == e,
        a.len() > 0 ==> stem(a + seq!['.'] + e) == a,
        !has_extension(e, x),
        stem(e) == e,
{
    let s = a + seq!['.'] + e;
    lemma_rfind_char(s, '.');
    assert(s[a.len() as int] == '.');
    assert forall|j: int| a.len() < j < s.len() implies s[j] != '.' by {
        assert(s[j] == e[j - a.len() - 1]);
        assert(e.contains(e[j - a.len() - 1]));
    }
    assert(rfind_char(s, '.') == a.len());
    assert(s.skip(a.len() as int + 1) =~= e);
    assert(s.take(a.len() as int) =~= a);
    lemma_rfind_char(e, '.');
    if rfind_char(e, '.') >= 0 {
        assert(e.contains(e[rfind_char(e, '.')]));
    }
}

} // verus!
