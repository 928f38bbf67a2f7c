//! Text primitives: the string operations that the rest of the library is stated over.
//!
//! A string is modelled by its sequence of characters. Each operation has a spec function
//! over such sequences and an executable function that is proved to compute it.

use vstd::prelude::*;
use vstd::string::StringExecFns;

verus! {

// ---------------------------------------------------------------------------
// Building blocks
// ---------------------------------------------------------------------------

/// `String::push` appends one character.
pub assume_specification[ String::push ](s: &mut String, c: char)
    ensures
        final(s)@ == old(s)@.push(c),
;

/// The characters of a string, as a vector.
pub fn chars_of(s: &str) -> (v: Vec<char>)
    ensures
        v@ == s@,
{
    let mut v: Vec<char> = Vec::new();
    for c in it: s.chars()
        invariant
            v@ == s@.take(it.index() as int),
            it.seq() == s@,
    {
        v.push(c);
    }
    v
}

/// Whether two strings hold the same characters.
pub(crate) fn str_eq(a: &str, b: &str) -> (r: bool)
    ensures
        r == (a@ == b@),
{
    let v = chars_of(a);
    let w = chars_of(b);
    if v.len() != w.len() {
        return false;
    }
    for i in 0..v.len()
        invariant
            v@ == a@,
            w@ == b@,
            v.len() == w.len(),
            v@.take(i as int) == w@.take(i as int),
    {
        if v[i] != w[i] {
            assert(a@[i as int] != b@[i as int]);
            return false;
        }
        assert(v@.take(i + 1) =~= v@.take(i as int).push(v@[i as int]));
        assert(w@.take(i + 1) =~= w@.take(i as int).push(w@[i as int]));
    }
    assert(v@.take(v.len() as int) =~= v@ && w@.take(v.len() as int) =~= w@);
    true
}

/// The string that holds the characters `v[from..to]`.
pub fn string_of(v: &Vec<char>, from: usize, to: usize) -> (s: String)
    requires
        from <= to <= v@.len(),
    ensures
        s@ == v@.subrange(from as int, to as int),
{
    let mut s = String::new();
    for i in from..to
        invariant
            from <= to <= v@.len(),
            s@ == v@.subrange(from as int, i as int),
    {
        s.push(v[i]);
        assert(v@.subrange(from as int, i + 1) == v@.subrange(from as int, i as int).push(
            v@[i as int],
        ));
    }
    s
}

/// Whether a string holds no character.
pub fn is_empty(s: &str) -> (r: bool)
    ensures
        r == (s@.len() == 0),
{
    let v = chars_of(s);
    v.len() == 0
}

/// The views of a sequence of strings.
pub open spec fn views(v: Seq<String>) -> Seq<Seq<char>> {
    v.map_values(|s: String| s@)
}

/// Appending a string to a vector appends its view.
pub proof fn lemma_views_push(v: Seq<String>, s: String)
    ensures
        views(v.push(s)) == views(v).push(s@),
{
    assert(views(v.push(s)) =~= views(v).push(s@));
}

/// Whether a list holds a string with the given contents.
pub fn list_contains(list: &Vec<String>, s: &str) -> (r: bool)
    ensures
        r == views(list@).contains(s@),
{
    for i in 0..list.len()
        invariant
            forall|j: int| 0 <= j < i ==> list@[j]@ != s@,
    {
        if str_eq(list[i].as_str(), s) {
            assert(views(list@)[i as int] == s@);
            return true;
        }
    }
    assert forall|j: int| 0 <= j < views(list@).len() implies views(list@)[j] != s@ by {
        assert(views(list@)[j] == list@[j]@);
    }
    false
}

/// A copy of a list of strings.
pub fn clone_list(list: &Vec<String>) -> (r: Vec<String>)
    ensures
        views(r@) == views(list@),
        r@.len() == list@.len(),
{
    let mut r: Vec<String> = Vec::new();
    for i in 0..list.len()
        invariant
            r@.len() == i,
            views(r@) == views(list@).take(i as int),
    {
        r.push(list[i].clone());
        assert(views(r@) =~= views(list@).take(i + 1));
    }
    assert(views(list@).take(list@.len() as int) =~= views(list@));
    r
}

/// The number of bytes of a string in UTF-8.
pub open spec fn byte_len(s: Seq<char>) -> nat {
    vstd::utf8::encode_utf8(s).len()
}

/// The number of bytes of a string.
pub fn byte_len_of(s: &str) -> (r: usize)
    ensures
        r == byte_len(s@),
{
    s.as_bytes().len()
}

/// The number of bytes of a character.
pub fn char_width(c: char) -> (r: usize)
    ensures
        r == vstd::utf8::encode_scalar(c as u32).len(),
        1 <= r <= 4,
{
    let n: u32 = c as u32;
    if n < 0x80 {
        1
    } else if n < 0x800 {
        2
    } else if n < 0x10000 {
        3
    } else {
        4
    }
}

proof fn lemma_encode_push(s: Seq<char>, c: char)
    ensures
        vstd::utf8::encode_utf8(s.push(c)) == vstd::utf8::encode_utf8(s)
            + vstd::utf8::encode_scalar(c as u32),
    decreases s.len(),
{
    if s.len() == 0 {
        assert(s.push(c).drop_first() =~= Seq::<char>::empty());
        assert(vstd::utf8::encode_utf8(Seq::<char>::empty()) =~= Seq::<u8>::empty());
        assert(vstd::utf8::encode_utf8(s.push(c)) =~= vstd::utf8::encode_scalar(c as u32));
        assert(vstd::utf8::encode_utf8(s) =~= Seq::<u8>::empty());
    } else {
        lemma_encode_push(s.drop_first(), c);
        assert(s.push(c).drop_first() =~= s.drop_first().push(c));
        assert(vstd::utf8::encode_utf8(s.push(c)) =~= vstd::utf8::encode_utf8(s)
            + vstd::utf8::encode_scalar(c as u32));
    }
}

/// A character adds its bytes to the length of a string.
pub proof fn lemma_byte_len_push(s: Seq<char>, c: char)
    ensures
        byte_len(s.push(c)) == byte_len(s) + vstd::utf8::encode_scalar(c as u32).len(),
{
    lemma_encode_push(s, c);
}

/// The lengths of two strings in bytes add up.
pub proof fn lemma_byte_len_append(a: Seq<char>, b: Seq<char>)
    ensures
        byte_len(a + b) == byte_len(a) + byte_len(b),
    decreases b.len(),
{
    if b.len() == 0 {
        assert(a + b =~= a);
        assert(vstd::utf8::encode_utf8(b) =~= Seq::<u8>::empty());
    } else {
        lemma_byte_len_append(a, b.drop_last());
        lemma_byte_len_push(b.drop_last(), b.last());
        lemma_byte_len_push(a + b.drop_last(), b.last());
        assert(b =~= b.drop_last().push(b.last()));
        assert(a + b =~= (a + b.drop_last()).push(b.last()));
    }
}

/// Each character takes at least one byte.
pub proof fn lemma_byte_len_grows(s: Seq<char>, i: int, j: int)
    requires
        0 <= i <= j <= s.len(),
    ensures
        byte_len(s.take(j)) >= byte_len(s.take(i)) + (j - i),
    decreases j - i,
{
    if i < j {
        lemma_byte_len_grows(s, i, j - 1);
        lemma_byte_len_push(s.take(j - 1), s[j - 1]);
        assert(s.take(j) =~= s.take(j - 1).push(s[j - 1]));
        let c = s[j - 1];
        assert(vstd::utf8::encode_scalar(c as u32).len() >= 1);
    }
}

// ---------------------------------------------------------------------------
// White space
// ---------------------------------------------------------------------------

/// The characters with the Unicode property White_Space.
pub open spec fn is_whitespace(c: char) -> bool {
    ||| '\u{9}' <= c <= '\u{d}'
    ||| c == ' '
    ||| c == '\u{85}'
    ||| c == '\u{a0}'
    ||| c == '\u{1680}'
    ||| '\u{2000}' <= c <= '\u{200a}'
    ||| c == '\u{2028}'
    ||| c == '\u{2029}'
    ||| c == '\u{202f}'
    ||| c == '\u{205f}'
    ||| c == '\u{3000}'
}

/// Decides [`is_whitespace`].
pub fn char_is_whitespace(c: char) -> (r: bool)
    ensures
        r == is_whitespace(c),
{
    ('\u{9}' <= c && c <= '\u{d}') || c == ' ' || c == '\u{85}' || c == '\u{a0}' || c == '\u{1680}'
        || ('\u{2000}' <= c && c <= '\u{200a}') || c == '\u{2028}' || c == '\u{2029}' || c
        == '\u{202f}' || c == '\u{205f}' || c == '\u{3000}'
}

/// `s` without its leading white space.
pub open spec fn trim_start(s: Seq<char>) -> Seq<char>
    decreases s.len(),
{
    if s.len() > 0 && is_whitespace(s[0]) {
        trim_start(s.drop_first())
    } else {
        s
    }
}

/// `s` without its trailing white space.
pub open spec fn trim_end(s: Seq<char>) -> Seq<char>
    decreases s.len(),
{
    if s.len() > 0 && is_whitespace(s.last()) {
        trim_end(s.drop_last())
    } else {
        s
    }
}

/// `s` without leading and trailing white space.
pub open spec fn trim_spec(s: Seq<char>) -> Seq<char> {
    trim_end(trim_start(s))
}

pub(crate) proof fn lemma_trim_start_at(s: Seq<char>, i: int)
    requires
        0 <= i <= s.len(),
        forall|j: int| 0 <= j < i ==> is_whitespace(#[trigger] s[j]),
        i < s.len() ==> !is_whitespace(s[i]),
    ensures
        trim_start(s) == s.skip(i),
    decreases i,
{
    if i == 0 {
        assert(s.skip(0) =~= s);
    } else {
        assert forall|j: int| 0 <= j < i - 1 implies is_whitespace(#[trigger] s.drop_first()[j]) by {
            assert(s.drop_first()[j] == s[j + 1]);
        }
        assert(is_whitespace(s[0]));
        lemma_trim_start_at(s.drop_first(), i - 1);
        assert(s.drop_first().skip(i - 1) =~= s.skip(i));
    }
}

pub(crate) proof fn lemma_trim_end_at(s: Seq<char>, i: int)
    requires
        0 <= i <= s.len(),
        forall|j: int| i <= j < s.len() ==> is_whitespace(#[trigger] s[j]),
        i > 0 ==> !is_whitespace(s[i - 1]),
    ensures
        trim_end(s) == s.take(i),
    decreases s.len() - i,
{
    if i == s.len() {
        assert(s.take(i) =~= s);
    } else {
        assert(is_whitespace(s[s.len() - 1]));
        assert forall|j: int| i <= j < s.len() - 1 implies is_whitespace(
            #[trigger] s.drop_last()[j],
        ) by {
            assert(s.drop_last()[j] == s[j]);
        }
        lemma_trim_end_at(s.drop_last(), i);
        assert(s.drop_last().take(i) =~= s.take(i));
    }
}

/// Removes leading and trailing white space.
pub fn trim(s: &str) -> (r: String)
    ensures
        r@ == trim_spec(s@),
{
    let v = chars_of(s);
    let mut a: usize = 0;
    while a < v.len() && char_is_whitespace(v[a])
        invariant
            a <= v@.len(),
            forall|j: int| 0 <= j < a ==> is_whitespace(#[trigger] v@[j]),
        decreases v@.len() - a,
    {
        a += 1;
    }
    let mut b: usize = v.len();
    while a < b && char_is_whitespace(v[b - 1])
        invariant
            a <= b <= v@.len(),
            forall|j: int| b <= j < v@.len() ==> is_whitespace(#[trigger] v@[j]),
        decreases b - a,
    {
        b -= 1;
    }
    proof {
        lemma_trim_start_at(v@, a as int);
        let t = v@.skip(a as int);
        assert forall|j: int| b - a <= j < t.len() implies is_whitespace(#[trigger] t[j]) by {
            assert(t[j] == v@[j + a]);
        }
        if b > a {
            assert(t[b - a - 1] == v@[b - 1]);
        }
        lemma_trim_end_at(t, b - a);
        assert(t.take(b - a) =~= v@.subrange(a as int, b as int));
    }
    string_of(&v, a, b)
}

/// The result of [`trim_spec`] neither begins nor ends with white space.
pub proof fn lemma_trim_is_trimmed(s: Seq<char>)
    ensures
        ({
            let t = trim_spec(s);
            t.len() > 0 ==> !is_whitespace(t[0]) && !is_whitespace(t.last())
        }),
        trim_spec(trim_spec(s)) == trim_spec(s),
{
    lemma_trim_start_shape(s);
    lemma_trim_end_shape(trim_start(s));
    let t = trim_spec(s);
    if t.len() > 0 {
        assert(t[0] == trim_start(s)[0]);
    }
}

proof fn lemma_trim_start_shape(s: Seq<char>)
    ensures
        trim_start(s).len() <= s.len(),
        trim_start(s).len() > 0 ==> !is_whitespace(trim_start(s)[0]),
    decreases s.len(),
{
    if s.len() > 0 && is_whitespace(s[0]) {
        lemma_trim_start_shape(s.drop_first());
    }
}

proof fn lemma_trim_end_shape(s: Seq<char>)
    ensures
        trim_end(s).len() <= s.len(),
        trim_end(s) == s.take(trim_end(s).len() as int),
        trim_end(s).len() > 0 ==> !is_whitespace(trim_end(s).last()),
    decreases s.len(),
{
    if s.len() > 0 && is_whitespace(s.last()) {
        lemma_trim_end_shape(s.drop_last());
        let n = trim_end(s).len() as int;
        assert(s.drop_last().take(n) =~= s.take(n));
    } else {
        assert(s.take(s.len() as int) =~= s);
    }
}

// ---------------------------------------------------------------------------
// Splitting and joining
// ---------------------------------------------------------------------------

/// Appends `c` to the last piece.
pub open spec fn extend_last(pieces: Seq<Seq<char>>, c: char) -> Seq<Seq<char>> {
    pieces.drop_last().push(pieces.last().push(c))
}

/// The pieces of `s` between the occurrences of `sep`; one more piece than occurrences.
pub open spec fn split_spec(s: Seq<char>, sep: char) -> Seq<Seq<char>>
    decreases s.len(),
{
    if s.len() == 0 {
        seq![Seq::<char>::empty()]
    } else if s.last() == sep {
        split_spec(s.drop_last(), sep).push(Seq::empty())
    } else {
        extend_last(split_spec(s.drop_last(), sep), s.last())
    }
}

/// The pieces, with `sep` between neighbours.
pub open spec fn join_spec(pieces: Seq<Seq<char>>, sep: Seq<char>) -> Seq<char>
    decreases pieces.len(),
{
    if pieces.len() == 0 {
        Seq::empty()
    } else if pieces.len() == 1 {
        pieces[0]
    } else {
        join_spec(pieces.drop_last(), sep) + sep + pieces.last()
    }
}

/// Splits at every occurrence of `sep`.
pub fn split(s: &str, sep: char) -> (r: Vec<String>)
    ensures
        views(r@) == split_spec(s@, sep),
        r@.len() >= 1,
{
    let v = chars_of(s);
    let mut out: Vec<String> = Vec::new();
    let mut cur = String::new();
    assert(v@.take(0) =~= Seq::<char>::empty());
    assert(views(out@).push(cur@) =~= split_spec(v@.take(0), sep));
    for i in 0..v.len()
        invariant
            views(out@).push(cur@) == split_spec(v@.take(i as int), sep),
    {
        let ghost before = views(out@).push(cur@);
        assert(v@.take(i + 1).drop_last() =~= v@.take(i as int));
        assert(v@.take(i + 1).last() == v@[i as int]);
        if v[i] == sep {
            proof {
                lemma_views_push(out@, cur);
            }
            out.push(cur);
            cur = String::new();
            assert(views(out@).push(cur@) =~= before.push(Seq::empty()));
        } else {
            cur.push(v[i]);
            assert(before.drop_last() =~= views(out@));
            assert(views(out@).push(cur@) =~= extend_last(before, v@[i as int]));
        }
    }
    assert(v@.take(v@.len() as int) =~= v@);
    proof {
        lemma_views_push(out@, cur);
    }
    out.push(cur);
    out
}

/// Splitting yields at least one piece, and no piece holds the separator.
pub proof fn lemma_split_pieces(s: Seq<char>, sep: char)
    ensures
        split_spec(s, sep).len() >= 1,
        forall|i: int|
            0 <= i < split_spec(s, sep).len() ==> !(#[trigger] split_spec(s, sep)[i]).contains(sep),
    decreases s.len(),
{
    if s.len() > 0 {
        lemma_split_pieces(s.drop_last(), sep);
        let p = split_spec(s.drop_last(), sep);
        if s.last() != sep {
            let q = extend_last(p, s.last());
            assert forall|i: int| 0 <= i < q.len() implies !(#[trigger] q[i]).contains(sep) by {
                if i < p.len() - 1 {
                    assert(q[i] == p[i]);
                } else {
                    assert(q[i] == p.last().push(s.last()));
                    assert(!p[p.len() - 1].contains(sep));
                    if q[i].contains(sep) {
                        let k = choose|k: int| 0 <= k < q[i].len() && q[i][k] == sep;
                        assert(k < p.last().len());
                        assert(p.last()[k] == sep);
                    }
                }
            }
        }
    }
}

/// Joining the pieces of a split with the separator gives the string back.
pub proof fn lemma_join_split(s: Seq<char>, sep: char)
    ensures
        join_spec(split_spec(s, sep), seq![sep]) == s,
    decreases s.len(),
{
    if s.len() == 0 {
        assert(join_spec(split_spec(s, sep), seq![sep]) =~= s);
    } else {
        lemma_join_split(s.drop_last(), sep);
        lemma_split_pieces(s.drop_last(), sep);
        let p = split_spec(s.drop_last(), sep);
        if s.last() == sep {
            assert(p.push(Seq::empty()).drop_last() =~= p);
            assert(join_spec(p.push(Seq::empty()), seq![sep]) =~= s);
        } else {
            let q = extend_last(p, s.last());
            assert(q.drop_last() =~= p.drop_last());
            assert(join_spec(q, seq![sep]) =~= join_spec(p, seq![sep]).push(s.last()));
            assert(s =~= s.drop_last().push(s.last()));
        }
    }
}

/// Joins a list of strings with a separator.
pub fn join(parts: &Vec<String>, sep: &str) -> (r: String)
    ensures
        r@ == join_spec(views(parts@), sep@),
{
    let mut r = String::new();
    assert(views(parts@).take(0) =~= Seq::<Seq<char>>::empty());
    for i in 0..parts.len()
        invariant
            r@ == join_spec(views(parts@).take(i as int), sep@),
    {
        let ghost done = views(parts@).take(i as int);
        assert(views(parts@).take(i + 1) =~= done.push(parts@[i as int]@));
        assert(done.push(parts@[i as int]@).drop_last() =~= done);
        if i > 0 {
            r.append(sep);
            r.append(parts[i].as_str());
        } else {
            r.append(parts[i].as_str());
            assert(r@ =~= parts@[0]@);
        }
    }
    assert(views(parts@).take(parts@.len() as int) =~= views(parts@));
    r
}

/// The index of the first `c` in `s`, or the length of `s`.
pub open spec fn find_char(s: Seq<char>, c: char) -> int
    decreases s.len(),
{
    if s.len() == 0 || s[0] == c {
        0
    } else {
        1 + find_char(s.drop_first(), c)
    }
}

/// [`find_char`] is the least index at which `c` stands.
pub proof fn lemma_find_char(s: Seq<char>, c: char)
    ensures
        0 <= find_char(s, c) <= s.len(),
        forall|j: int| 0 <= j < find_char(s, c) ==> s[j] != c,
        find_char(s, c) < s.len() ==> s[find_char(s, c)] == c,
        find_char(s, c) < s.len() <==> s.contains(c),
    decreases s.len(),
{
    if s.len() > 0 && s[0] != c {
        lemma_find_char(s.drop_first(), c);
        let k = find_char(s.drop_first(), c);
        assert forall|j: int| 0 <= j < find_char(s, c) implies s[j] != c by {
            if j > 0 {
                assert(s.drop_first()[j - 1] == s[j]);
            }
        }
        if k < s.drop_first().len() {
            assert(s.drop_first()[k] == s[k + 1]);
        }
    }
}

pub(crate) proof fn lemma_find_char_at(s: Seq<char>, c: char, i: int)
    requires
        0 <= i <= s.len(),
        forall|j: int| 0 <= j < i ==> s[j] != c,
        i < s.len() ==> s[i] == c,
    ensures
        find_char(s, c) == i,
{
    lemma_find_char(s, c);
}

/// The parts of `s` before and after the first `sep`, where there is one.
pub open spec fn split_once_spec(s: Seq<char>, sep: char) -> Option<(Seq<char>, Seq<char>)> {
    if s.contains(sep) {
        Some((s.take(find_char(s, sep)), s.skip(find_char(s, sep) + 1)))
    } else {
        None
    }
}

/// Splits at the first occurrence of `sep`.
pub fn split_once(s: &str, sep: char) -> (r: Option<(String, String)>)
    ensures
        match r {
            Some(p) => split_once_spec(s@, sep) == Some((p.0@, p.1@)),
            None => split_once_spec(s@, sep) is None,
        },
{
    let v = chars_of(s);
    for i in 0..v.len()
        invariant
            v@ == s@,
            forall|j: int| 0 <= j < i ==> v@[j] != sep,
    {
        if v[i] == sep {
            proof {
                lemma_find_char_at(s@, sep, i as int);
                lemma_find_char(s@, sep);
                assert(s@.take(i as int) =~= v@.subrange(0, i as int));
                assert(s@.skip(i + 1) =~= v@.subrange(i + 1, v@.len() as int));
            }
            return Some((string_of(&v, 0, i), string_of(&v, i + 1, v.len())));
        }
    }
    proof {
        lemma_find_char_at(s@, sep, v@.len() as int);
        lemma_find_char(s@, sep);
    }
    None
}

/// Whether `p` occurs in `s` at index `i`.
pub open spec fn occurs_at(s: Seq<char>, p: Seq<char>, i: int) -> bool {
    0 <= i && i + p.len() <= s.len() && s.subrange(i, i + p.len()) == p
}

/// Whether `p` occurs in `s`.
pub open spec fn contains_spec(s: Seq<char>, p: Seq<char>) -> bool {
    exists|i: int| occurs_at(s, p, i)
}

fn matches_at(s: &Vec<char>, p: &Vec<char>, at: usize) -> (r: bool)
    requires
        at + p@.len() <= s@.len(),
    ensures
        r == occurs_at(s@, p@, at as int),
{
    let n: usize = s.len();
    for k in 0..p.len()
        invariant
            at + p@.len() <= n == s@.len(),
            forall|j: int| 0 <= j < k ==> s@[at + j] == p@[j],
    {
        if s[at + k] != p[k] {
            assert(s@.subrange(at as int, at + p@.len())[k as int] != p@[k as int]);
            return false;
        }
    }
    assert(s@.subrange(at as int, at + p@.len()) =~= p@);
    true
}

/// Whether one string occurs in another.
pub fn contains(s: &str, p: &str) -> (r: bool)
    ensures
        r == contains_spec(s@, p@),
{
    let sv = chars_of(s);
    let pv = chars_of(p);
    if pv.len() > sv.len() {
        return false;
    }
    let last: usize = sv.len() - pv.len();
    let mut i: usize = 0;
    while i <= last
        invariant
            sv@ == s@,
            pv@ == p@,
            last + pv@.len() == sv@.len(),
            0 <= i <= last + 1,
            forall|j: int| 0 <= j < i ==> !occurs_at(s@, p@, j),
        decreases last + 1 - i,
    {
        if matches_at(&sv, &pv, i) {
            return true;
        }
        if i == last {
            assert forall|j: int| !occurs_at(s@, p@, j) by {}
            return false;
        }
        i += 1;
    }
    false
}

/// Whether a string holds a character.
pub fn contains_char(s: &str, c: char) -> (r: bool)
    ensures
        r == s@.contains(c),
{
    let v = chars_of(s);
    for i in 0..v.len()
        invariant
            v@ == s@,
            forall|j: int| 0 <= j < i ==> v@[j] != c,
    {
        if v[i] == c {
            return true;
        }
    }
    false
}

/// Whether `s` begins with `p`.
pub open spec fn starts_with_spec(s: Seq<char>, p: Seq<char>) -> bool {
    p.len() <= s.len() && s.take(p.len() as int) == p
}

/// Whether one string begins with another.
pub fn starts_with(s: &str, p: &str) -> (r: bool)
    ensures
        r == starts_with_spec(s@, p@),
{
    let sv = chars_of(s);
    let pv = chars_of(p);
    if pv.len() > sv.len() {
        return false;
    }
    assert(s@.subrange(0, p@.len() as int) =~= s@.take(p@.len() as int));
    matches_at(&sv, &pv, 0)
}

/// What follows the prefix `p`, where `s` begins with it.
pub fn strip_prefix(s: &str, p: &str) -> (r: Option<String>)
    ensures
        r is Some <==> starts_with_spec(s@, p@),
        r matches Some(t) ==> t@ == s@.skip(p@.len() as int),
{
    if starts_with(s, p) {
        let sv = chars_of(s);
        let pv = chars_of(p);
        assert(s@.skip(p@.len() as int) =~= sv@.subrange(p@.len() as int, sv@.len() as int));
        Some(string_of(&sv, pv.len(), sv.len()))
    } else {
        None
    }
}

/// The words of `s`: its maximal runs of characters that are not white space.
pub open spec fn words_spec(s: Seq<char>) -> Seq<Seq<char>> {
    runs(s).filter(|w: Seq<char>| w.len() > 0)
}

/// The pieces of `s` between single white space characters, empty ones included.
pub open spec fn runs(s: Seq<char>) -> Seq<Seq<char>>
    decreases s.len(),
{
    if s.len() == 0 {
        seq![Seq::<char>::empty()]
    } else if is_whitespace(s.last()) {
        runs(s.drop_last()).push(Seq::empty())
    } else {
        extend_last(runs(s.drop_last()), s.last())
    }
}

/// Splits into words at white space.
pub fn words(s: &str) -> (r: Vec<String>)
    ensures
        views(r@) == words_spec(s@),
{
    let v = chars_of(s);
    let ghost keep = |w: Seq<char>| w.len() > 0;
    let mut out: Vec<String> = Vec::new();
    let mut cur = String::new();
    let mut cur_len: usize = 0;
    let ghost mut whole: Seq<Seq<char>> = Seq::empty();
    proof {
        reveal(Seq::filter);
    }
    assert(v@.take(0) =~= Seq::<char>::empty());
    assert(whole.push(cur@) =~= runs(v@.take(0)));
    assert(views(out@) =~= whole.filter(keep));
    for i in 0..v.len()
        invariant
            whole.push(cur@) == runs(v@.take(i as int)),
            views(out@) == whole.filter(keep),
            keep == (|w: Seq<char>| w.len() > 0),
            cur@.len() == cur_len,
            cur_len <= i,
    {
        broadcast use Seq::lemma_filter_push;

        let ghost before = whole.push(cur@);
        assert(v@.take(i + 1).drop_last() =~= v@.take(i as int));
        assert(v@.take(i + 1).last() == v@[i as int]);
        if char_is_whitespace(v[i]) {
            proof {
                whole = whole.push(cur@);
                lemma_views_push(out@, cur);
            }
            if cur_len > 0 {
                out.push(cur);
            }
            cur = String::new();
            cur_len = 0;
            assert(whole.push(cur@) =~= before.push(Seq::empty()));
        } else {
            cur.push(v[i]);
            cur_len += 1;
            assert(before.drop_last() =~= whole);
            assert(whole.push(cur@) =~= extend_last(before, v@[i as int]));
        }
    }
    assert(v@.take(v@.len() as int) =~= v@);
    proof {
        broadcast use Seq::lemma_filter_push;

        lemma_views_push(out@, cur);
        assert(runs(s@) == whole.push(cur@));
        assert(whole.push(cur@).filter(keep) == words_spec(s@));
    }
    if cur_len > 0 {
        out.push(cur);
    }
    out
}

// ---------------------------------------------------------------------------
// Single characters and case
// ---------------------------------------------------------------------------

/// Whether `c` is a decimal digit.
pub open spec fn is_digit(c: char) -> bool {
    '0' <= c <= '9'
}

/// Whether `c` is an ASCII letter or digit.
pub open spec fn is_ascii_alphanumeric(c: char) -> bool {
    ||| is_digit(c)
    ||| 'a' <= c <= 'z'
    ||| 'A' <= c <= 'Z'
}

/// Decides [`is_digit`].
pub fn char_is_digit(c: char) -> (r: bool)
    ensures
        r == is_digit(c),
{
    '0' <= c && c <= '9'
}

/// Decides [`is_ascii_alphanumeric`].
pub fn char_is_alphanumeric(c: char) -> (r: bool)
    ensures
        r == is_ascii_alphanumeric(c),
{
    char_is_digit(c) || ('a' <= c && c <= 'z') || ('A' <= c && c <= 'Z')
}

/// `c` in lower case, where it is an ASCII letter; `c` itself otherwise.
pub open spec fn ascii_lower_char(c: char) -> char {
    if 'A' <= c <= 'Z' {
        (c as int + 32) as char
    } else {
        c
    }
}

/// `s` with its ASCII letters in lower case.
pub open spec fn ascii_lower(s: Seq<char>) -> Seq<char> {
    s.map_values(|c: char| ascii_lower_char(c))
}

/// Computes [`ascii_lower_char`].
pub fn char_ascii_lower(c: char) -> (r: char)
    ensures
        r == ascii_lower_char(c),
{
    if 'A' <= c && c <= 'Z' {
        let b: u8 = c as u8;
        (b + 32) as char
    } else {
        c
    }
}

/// Computes [`ascii_lower`].
pub fn to_ascii_lowercase(s: &str) -> (r: String)
    ensures
        r@ == ascii_lower(s@),
{
    let v = chars_of(s);
    let mut r = String::new();
    for i in 0..v.len()
        invariant
            r@ == ascii_lower(v@.take(i as int)),
    {
        r.push(char_ascii_lower(v[i]));
        assert(r@ =~= ascii_lower(v@.take(i + 1)));
    }
    assert(v@.take(v@.len() as int) =~= v@);
    r
}

/// Whether two strings are equal up to the case of ASCII letters.
pub fn eq_ignore_ascii_case(a: &str, b: &str) -> (r: bool)
    ensures
        r == (ascii_lower(a@) == ascii_lower(b@)),
{
    let x = to_ascii_lowercase(a);
    let y = to_ascii_lowercase(b);
    str_eq(x.as_str(), y.as_str())
}

/// Whether every character of `s` is ASCII.
pub open spec fn all_ascii(s: Seq<char>) -> bool {
    forall|i: int| 0 <= i < s.len() ==> s[i] < '\u{80}'
}

/// What `str::to_lowercase` returns: each character replaced by its Unicode lower case mapping.
pub uninterp spec fn unicode_lower(s: Seq<char>) -> Seq<char>;

/// `str::to_lowercase`. On ASCII text the result is [`ascii_lower`]; on other text it is
/// whatever the Unicode tables of the standard library say.
#[verifier::external_body]
pub(crate) fn to_lowercase(s: &str) -> (r: String)
    ensures
        r@ == unicode_lower(s@),
        all_ascii(s@) ==> r@ == ascii_lower(s@),
{
    s.to_lowercase()
}

/// What `String::from_utf8_lossy` returns: the text that the bytes encode, with U+FFFD in place
/// of what is not UTF-8.
pub uninterp spec fn utf8_lossy(b: Seq<u8>) -> Seq<char>;

/// `String::from_utf8_lossy`. Bytes that encode a text give that text back.
#[verifier::external_body]
pub(crate) fn from_utf8_lossy(b: &[u8]) -> (r: String)
    ensures
        r@ == utf8_lossy(b@),
        forall|t: Seq<char>| #[trigger] vstd::utf8::encode_utf8(t) == b@ ==> r@ == t,
{
    String::from_utf8_lossy(b).into_owned()
}

// ---------------------------------------------------------------------------
// Trimming and replacing given characters
// ---------------------------------------------------------------------------

/// `s` without the `c`s at its end.
pub open spec fn trim_end_char(s: Seq<char>, c: char) -> Seq<char>
    decreases s.len(),
{
    if s.len() > 0 && s.last() == c {
        trim_end_char(s.drop_last(), c)
    } else {
        s
    }
}

/// Removes the `c`s at the end of `s`.
pub fn trim_end_matches(s: &str, c: char) -> (r: String)
    ensures
        r@ == trim_end_char(s@, c),
{
    let v = chars_of(s);
    let mut n: usize = v.len();
    assert(v@.take(n as int) =~= v@);
    while n > 0 && v[n - 1] == c
        invariant
            n <= v@.len(),
            trim_end_char(v@, c) == trim_end_char(v@.take(n as int), c),
        decreases n,
    {
        assert(v@.take(n as int).drop_last() =~= v@.take(n - 1));
        n -= 1;
    }
    assert(v@.take(n as int) =~= v@.subrange(0, n as int));
    string_of(&v, 0, n)
}

/// `n` copies of `c`.
pub open spec fn repeat_spec(c: char, n: nat) -> Seq<char> {
    Seq::new(n, |i: int| c)
}

/// The string of `n` copies of `c`.
pub fn repeat(c: char, n: usize) -> (r: String)
    ensures
        r@ == repeat_spec(c, n as nat),
{
    let mut r = String::new();
    for i in 0..n
        invariant
            r@ == repeat_spec(c, i as nat),
    {
        r.push(c);
        assert(r@ =~= repeat_spec(c, (i + 1) as nat));
    }
    r
}

/// `s` with every `from` replaced by `to`.
pub open spec fn replace_char_spec(s: Seq<char>, from: char, to: char) -> Seq<char> {
    s.map_values(|c: char| if c == from { to } else { c })
}

/// Replaces every `from` by `to`.
pub fn replace_char(s: &str, from: char, to: char) -> (r: String)
    ensures
        r@ == replace_char_spec(s@, from, to),
{
    let v = chars_of(s);
    let mut r = String::new();
    for i in 0..v.len()
        invariant
            r@ == replace_char_spec(v@.take(i as int), from, to),
    {
        r.push(if v[i] == from { to } else { v[i] });
        assert(r@ =~= replace_char_spec(v@.take(i + 1), from, to));
    }
    assert(v@.take(v@.len() as int) =~= v@);
    r
}

/// The index of the last `c` in `s`, or -1.
pub open spec fn rfind_char(s: Seq<char>, c: char) -> int
    decreases s.len(),
{
    if s.len() == 0 {
        -1
    } else if s.last() == c {
        s.len() - 1
    } else {
        rfind_char(s.drop_last(), c)
    }
}

/// [`rfind_char`] is the greatest index at which `c` stands.
pub proof fn lemma_rfind_char(s: Seq<char>, c: char)
    ensures
        -1 <= rfind_char(s, c) < s.len(),
        rfind_char(s, c) >= 0 ==> s[rfind_char(s, c)] == c,
        forall|j: int| rfind_char(s, c) < j < s.len() ==> s[j] != c,
    decreases s.len(),
{
    if s.len() > 0 && s.last() != c {
        lemma_rfind_char(s.drop_last(), c);
        assert forall|j: int| rfind_char(s, c) < j < s.len() implies s[j] != c by {
            if j < s.len() - 1 {
                assert(s.drop_last()[j] == s[j]);
            }
        }
    }
}

/// The number of characters up to and with the last `c`; 0 where there is none.
pub fn rfind(s: &Vec<char>, c: char) -> (r: usize)
    ensures
        r == rfind_char(s@, c) + 1,
{
    let mut n: usize = s.len();
    assert(s@.take(n as int) =~= s@);
    while n > 0
        invariant
            n <= s@.len(),
            rfind_char(s@, c) == rfind_char(s@.take(n as int), c),
        decreases n,
    {
        assert(s@.take(n as int).drop_last() =~= s@.take(n - 1));
        assert(s@.take(n as int).last() == s@[n - 1]);
        if s[n - 1] == c {
            return n;
        }
        n -= 1;
    }
    n
}

/// Whether a file name has the extension `ext`: it stands behind the last dot, and the dot is
/// not the first character.
pub open spec fn has_extension(name: Seq<char>, ext: Seq<char>) -> bool {
    let k = rfind_char(name, '.');
    k > 0 && name.skip(k + 1) == ext
}

/// Whether a file name has an extension.
pub fn extension_is(name: &str, ext: &str) -> (r: bool)
    ensures
        r == has_extension(name@, ext@),
{
    let v = chars_of(name);
    let k = rfind(&v, '.');
    proof {
        lemma_rfind_char(name@, '.');
    }
    if k > 1 {
        let found = string_of(&v, k, v.len());
        assert(name@.skip(k as int) =~= v@.subrange(k as int, v@.len() as int));
        str_eq(found.as_str(), ext)
    } else {
        false
    }
}

} // verus!
