//! Laws of numbers, orders and JSON values.

use vstd::prelude::*;

#[allow(unused_imports)]
use crate::digest::hex;
#[allow(unused_imports)]
use crate::json::{object, str_array, JsonNumber, JsonView};
#[allow(unused_imports)]
use crate::number::{
    all_digits, as_double, dec, digits_value, mebibytes_1, mebibytes_2, parse_unsigned, rounded,
    signed_dec, spacing, unsigned_digits,
};
#[allow(unused_imports)]
use crate::order::{
    ascending, is_descending, is_descending_texts, lemma_lex_irreflexive,
    lemma_permutation_is_onto, lex_lt, Key,
};
#[allow(unused_imports)]
use crate::text::is_digit;

verus! {

// ---------------------------------------------------------------------------
// Numbers
// ---------------------------------------------------------------------------

/// A numeral is made of decimal digits, has no leading zero, and counts by tens: one more digit
/// is ten times the number and the digit.
pub proof fn lemma_numerals(n: nat, d: nat)
    requires
        d < 10,
    ensures
        dec(n).len() > 0,
        n > 0 ==> dec(n)[0] != '0',
        n > 0 ==> dec(10 * n + d) == dec(n) + dec(d),
        dec(d).len() == 1,
        dec(d)[0] as int == '0' as int + d,
    decreases n,
{
    if n > 0 {
        assert((10 * n + d) / 10 == n && (10 * n + d) % 10 == d);
        assert(dec(10 * n + d) =~= dec(n) + dec(d));
    }
    if n >= 10 {
        lemma_numerals(n / 10, n % 10);
        assert(dec(n)[0] == dec(n / 10)[0]);
    }
}

/// The value of digits counts by tens.
pub proof fn lemma_digit_values(s: Seq<char>, c: char)
    requires
        '0' <= c <= '9',
    ensures
        digits_value(s.push(c)) == 10 * digits_value(s) + (c as int - '0' as int),
        digits_value(Seq::empty()) == 0,
{
    assert(s.push(c).drop_last() =~= s);
}

/// A number is read from digits alone, with a plus sign or without, and only up to the greatest
/// one that is allowed.
pub proof fn lemma_numbers_are_read(s: Seq<char>, max: nat, i: int)
    ensures
        s.len() > 0 && s[0] != '+' ==> parse_unsigned(seq!['+'] + s, max) == parse_unsigned(s, max),
        s.len() > 0 && (forall|k: int| 0 <= k < s.len() ==> '0' <= #[trigger] s[k] <= '9')
            && digits_value(s) <= max ==> parse_unsigned(s, max) == Some(digits_value(s)),
        parse_unsigned(s, max) matches Some(n) ==> n <= max,
        0 < i < s.len() && !('0' <= s[i] <= '9') ==> parse_unsigned(s, max) is None,
        s.len() > 0 && s[0] != '+' && !('0' <= s[0] <= '9') ==> parse_unsigned(s, max) is None,
        s.len() == 0 ==> parse_unsigned(s, max) is None,
{
    let t = seq!['+'] + s;
    assert(t.drop_first() =~= s);
    if 0 < i < s.len() && !('0' <= s[i] <= '9') {
        if s[0] == '+' {
            assert(s.drop_first()[i - 1] == s[i]);
        }
        let d = unsigned_digits(s);
        assert(!is_digit(s[i]));
        assert(!all_digits(d));
    }
    if s.len() > 0 && s[0] != '+' && !('0' <= s[0] <= '9') {
        assert(!is_digit(s[0]));
    }
}

/// A number below zero has a minus sign before the numeral of its magnitude.
pub proof fn lemma_signs(n: nat)
    ensures
        signed_dec(n as int) == dec(n),
        n > 0 ==> signed_dec(-(n as int)) == seq!['-'] + dec(n),
{
}

/// Rounding goes to the nearest whole number, and of two that are equally near to the even one.
pub proof fn lemma_rounding(n: nat, d: nat)
    requires
        d > 0,
    ensures
        -(d as int) <= 2 * (n - rounded(n, d) * d) <= d,
        2 * (n - rounded(n, d) * d) == d || 2 * (n - rounded(n, d) * d) == -(d as int) ==> rounded(
            n,
            d,
        ) % 2 == 0,
{
    let q = n / d;
    let r = n % d;
    assert(n == q * d + r && 0 <= r < d) by (nonlinear_arith)
        requires
            d > 0,
            q == n / d,
            r == n % d,
    ;
    assert((q + 1) * d == q * d + d) by (nonlinear_arith);
}

/// Sizes that a double-precision number can hold are taken as they are; the others by the nearest
/// of those that it can hold.
pub proof fn lemma_doubles(n: nat)
    ensures
        spacing(n) >= 1,
        n / spacing(n) < 0x20_0000_0000_0000,
        n < 0x20_0000_0000_0000 ==> as_double(n) == n,
        -(spacing(n) as int) <= 2 * (n - as_double(n)) <= spacing(n),
    decreases n,
{
    if n >= 0x20_0000_0000_0000 {
        lemma_doubles(n / 2);
        let s = spacing(n / 2);
        vstd::arithmetic::div_mod::lemma_div_denominator(n as int, 2, s as int);
    } else {
        assert(n / 1 == n && n % 1 == 0);
    }
    lemma_rounding(n, spacing(n));
}

/// A size in mebibytes is the number of tenths or hundredths that is nearest to it, written with
/// as many digits behind a dot.
pub proof fn lemma_sizes(size: nat)
    ensures
        ({
            let tenths = rounded(as_double(size) * 10, 1_048_576);
            let hundredths = rounded(as_double(size) * 100, 1_048_576);
            &&& mebibytes_1(size) == dec(tenths / 10) + seq!['.'] + dec(tenths % 10)
            &&& mebibytes_2(size) == dec(hundredths / 100) + seq!['.'] + dec(hundredths / 10 % 10)
                + dec(hundredths % 10)
        }),
{
    reveal_strlit(".");
    assert("."@ =~= seq!['.']);
    let tenths = rounded(as_double(size) * 10, 1_048_576);
    let hundredths = rounded(as_double(size) * 100, 1_048_576);
    assert(mebibytes_1(size) =~= dec(tenths / 10) + seq!['.'] + dec(tenths % 10));
    assert(mebibytes_2(size) =~= dec(hundredths / 100) + seq!['.'] + dec(hundredths / 10 % 10)
        + dec(hundredths % 10));
}

/// The value of a hexadecimal digit.
pub open spec fn hex_value(c: char) -> int {
    if '0' <= c <= '9' {
        c as int - '0' as int
    } else {
        c as int - 'a' as int + 10
    }
}

/// The hexadecimal form has two digits for each byte, in lower case, the greater one first.
pub proof fn lemma_hexadecimal(b: Seq<u8>, i: int)
    requires
        0 <= i < b.len(),
    ensures
        hex(b).len() == 2 * b.len(),
        16 * hex_value(hex(b)[2 * i]) + hex_value(hex(b)[2 * i + 1]) == b[i],
        forall|k: int|
            2 * i <= k <= 2 * i + 1 ==> '0' <= #[trigger] hex(b)[k] <= '9' || 'a' <= hex(b)[k]
                <= 'f',
    decreases b.len(),
{
    let d = b.drop_last();
    if d.len() > 0 {
        lemma_hexadecimal(d, if i < d.len() {
            i
        } else {
            0
        });
    } else {
        assert(hex(d) =~= Seq::<char>::empty());
    }
    if i < d.len() {
        assert(hex(b)[2 * i] == hex(d)[2 * i] && hex(b)[2 * i + 1] == hex(d)[2 * i + 1]);
    }
}

// ---------------------------------------------------------------------------
// Orders
// ---------------------------------------------------------------------------

/// Strings are ordered by the first character in which they differ, and a string is before what
/// extends it.
pub proof fn lemma_order_of_strings(p: Seq<char>, x: char, a: Seq<char>, y: char, b: Seq<char>)
    ensures
        x < y ==> lex_lt(p + seq![x] + a, p + seq![y] + b),
        x < y ==> !lex_lt(p + seq![y] + b, p + seq![x] + a),
        lex_lt(p, p + seq![x] + a),
        !lex_lt(p + seq![x] + a, p),
    decreases p.len(),
{
    let s = p + seq![x] + a;
    let t = p + seq![y] + b;
    if p.len() == 0 {
        assert(s[0] == x && t[0] == y);
    } else {
        let q = p.drop_first();
        lemma_order_of_strings(q, x, a, y, b);
        assert(s.drop_first() =~= q + seq![x] + a);
        assert(t.drop_first() =~= q + seq![y] + b);
        assert(s[0] == p[0] && t[0] == p[0]);
    }
}

/// Sorting puts greater keys first, and leaves items with the same key in their order. Every item
/// is there once.
pub proof fn lemma_sorted_by_key(keys: Seq<Key>, p: Seq<usize>, i: int, j: int, k: int) -> (m: int)
    requires
        is_descending(keys, p),
        0 <= i < j < p.len(),
        0 <= k < keys.len(),
    ensures
        p.len() == keys.len(),
        p[i] < keys.len() && p[j] < keys.len() && p[i] != p[j],
        keys[p[i] as int].0 >= keys[p[j] as int].0,
        keys[p[i] as int].0 == keys[p[j] as int].0 ==> keys[p[i] as int].1 >= keys[p[j] as int].1,
        keys[p[i] as int] == keys[p[j] as int] ==> p[i] < p[j],
        0 <= m < p.len() && p[m] == k,
{
    lemma_permutation_is_onto(p, keys.len(), k)
}

/// Sorting texts puts greater ones first, and leaves equal ones in their order. Every text is
/// there once.
pub proof fn lemma_sorted_by_text(
    texts: Seq<Seq<char>>,
    p: Seq<usize>,
    i: int,
    j: int,
    k: int,
) -> (m: int)
    requires
        is_descending_texts(texts, p),
        0 <= i < j < p.len(),
        0 <= k < texts.len(),
    ensures
        p.len() == texts.len(),
        p[i] < texts.len() && p[j] < texts.len() && p[i] != p[j],
        texts[p[i] as int] == texts[p[j] as int] || lex_lt(texts[p[j] as int], texts[p[i] as int]),
        texts[p[i] as int] == texts[p[j] as int] ==> p[i] < p[j],
        0 <= m < p.len() && p[m] == k,
{
    lemma_lex_irreflexive(texts[p[i] as int]);
    lemma_permutation_is_onto(p, texts.len(), k)
}

/// What stands in ascending order stands there once.
pub proof fn lemma_ascending_is_distinct(s: Seq<Seq<char>>)
    requires
        ascending(s),
    ensures
        s.no_duplicates(),
{
    assert forall|i: int, j: int| 0 <= i < s.len() && 0 <= j < s.len() && i != j implies s[i]
        != s[j] by {
        lemma_lex_irreflexive(s[i]);
        if i < j {
            assert(lex_lt(s[i], s[j]));
        } else {
            assert(lex_lt(s[j], s[i]));
        }
    }
}

// ---------------------------------------------------------------------------
// JSON
// ---------------------------------------------------------------------------

/// An object has the members that it was made of, the last where a name comes twice, and no
/// other.
pub proof fn lemma_members_of_object(s: Seq<(Seq<char>, JsonView)>, i: int, k: Seq<char>)
    ensures
        0 <= i < s.len() && s[i].0 == k && (forall|j: int|
            i < j < s.len() ==> (#[trigger] s[j]).0 != k) ==> object(s).get(k) == Some(s[i].1),
        (forall|j: int| 0 <= j < s.len() ==> (#[trigger] s[j]).0 != k) ==> object(s).get(k) is None,
    decreases s.len(),
{
    if s.len() > 0 {
        let d = s.drop_last();
        lemma_members_of_object(d, i, k);
        assert(forall|j: int| 0 <= j < d.len() ==> d[j] == s[j]);
        if i < s.len() - 1 {
            assert(s[s.len() - 1] == s.last());
        }
    }
}

/// Texts, numbers and lists are read from the members that hold them, and from nothing else.
pub proof fn lemma_members_are_read(m: Map<Seq<char>, JsonView>, k: Seq<char>)
    requires
        m.dom().contains(k),
    ensures
        JsonView::Object(m).get(k) == Some(m[k]),
        match m[k] {
            JsonView::Str(t) => JsonView::Object(m).str_at(k) == Some(t),
            _ => JsonView::Object(m).str_at(k) is None,
        },
        match m[k] {
            JsonView::Number(JsonNumber::Unsigned(n)) => JsonView::Object(m).u64_at(k) == Some(n),
            _ => JsonView::Object(m).u64_at(k) is None,
        },
        match m[k] {
            JsonView::Array(s) => JsonView::Object(m).array_at(k) == Some(s),
            _ => JsonView::Object(m).array_at(k) is None,
        },
        JsonView::Object(m.remove(k)).get(k) is None,
{
}

/// A list of texts holds them one by one.
pub proof fn lemma_list_of_texts(s: Seq<Seq<char>>, i: int)
    requires
        0 <= i < s.len(),
    ensures
        str_array(s) matches JsonView::Array(items) && items.len() == s.len() && items[i]
            == JsonView::Str(s[i]),
{
}

} // verus!
